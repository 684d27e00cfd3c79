use state_runtime::balances;
use state_runtime::proof_of_existence;
use state_runtime::runtime::{ExtrinsicFailure, RuntimeCall};
use state_runtime::support;
use state_runtime::support::{Dispatch, DispatchError, StructuralError};
use state_runtime::types;
use state_runtime::Runtime;

fn transfer(caller: &str, to: &str, amount: u128) -> types::Extrinsic {
    support::Extrinsic {
        caller: caller.to_string(),
        call: RuntimeCall::balances(balances::Call::transfer { to: to.to_string(), amount }),
    }
}

fn create_claim(caller: &str, claim: &'static str) -> types::Extrinsic {
    support::Extrinsic {
        caller: caller.to_string(),
        call: RuntimeCall::proof_of_existence(proof_of_existence::Call::create_claim { claim }),
    }
}

fn revoke_claim(caller: &str, claim: &'static str) -> types::Extrinsic {
    support::Extrinsic {
        caller: caller.to_string(),
        call: RuntimeCall::proof_of_existence(proof_of_existence::Call::revoke_claim { claim }),
    }
}

fn block(number: u32, extrinsics: Vec<types::Extrinsic>) -> types::Block {
    support::Block { header: support::Header { block_number: number }, extrinsics }
}

fn balance(runtime: &Runtime, who: &str) -> u128 {
    runtime.balances.balance(&who.to_string())
}

fn nonce(runtime: &Runtime, who: &str) -> u32 {
    runtime.system.get_nonce(&who.to_string())
}

fn owner(runtime: &Runtime, claim: &'static str) -> Option<String> {
    runtime.proof_of_existence.get_claim(&claim).cloned()
}

#[test]
fn fresh_runtime_holds_nothing() {
    let runtime = Runtime::new();
    assert_eq!(runtime.system.block_number(), 0);
    assert_eq!(nonce(&runtime, "Alice"), 0);
    assert_eq!(balance(&runtime, "Alice"), 0);
    assert_eq!(owner(&runtime, "x"), None);
}

#[test]
fn genesis_block_of_transfers() {
    let mut runtime = Runtime::new();
    runtime.balances.set_balance(&"Alice".to_string(), 100);
    let block_1 = block(
        1,
        vec![
            transfer("Alice", "Bob", 69),
            transfer("Bob", "Charlie", 30),
            transfer("Stranger", "Charlie", 30),
            transfer("Alice", "X", 10),
        ],
    );
    assert!(runtime.can_execute(&block_1));
    let reports = runtime.execute_block(block_1).expect("invalid block");
    assert_eq!(
        reports,
        vec![ExtrinsicFailure { block_number: 1, index: 2, error: DispatchError::InsufficientFunds }]
    );
    assert_eq!(balance(&runtime, "Alice"), 21);
    assert_eq!(balance(&runtime, "Bob"), 39);
    assert_eq!(balance(&runtime, "Charlie"), 30);
    assert_eq!(balance(&runtime, "X"), 10);
    assert_eq!(balance(&runtime, "Stranger"), 0);
    assert_eq!(runtime.system.block_number(), 1);
    assert_eq!(nonce(&runtime, "Alice"), 2);
    assert_eq!(nonce(&runtime, "Bob"), 1);
    assert_eq!(nonce(&runtime, "Stranger"), 1);
    assert_eq!(nonce(&runtime, "Charlie"), 0);
    assert_eq!(nonce(&runtime, "X"), 0);
}

#[test]
fn two_blocks_of_transfers_and_claims() {
    let mut runtime = Runtime::new();
    runtime.balances.set_balance(&"Alice".to_string(), 100);
    let block_1 = block(
        1,
        vec![
            transfer("Alice", "Bob", 69),
            transfer("Bob", "Charlie", 30),
            transfer("alex", "Charlie", 30),
            transfer("Alice", "alex", 10),
        ],
    );
    let reports = runtime.execute_block(block_1).expect("invalid block");
    assert_eq!(
        reports,
        vec![ExtrinsicFailure { block_number: 1, index: 2, error: DispatchError::InsufficientFunds }]
    );
    assert_eq!(balance(&runtime, "Alice"), 21);
    assert_eq!(balance(&runtime, "Bob"), 39);
    assert_eq!(balance(&runtime, "Charlie"), 30);
    assert_eq!(balance(&runtime, "alex"), 10);

    let block_2 = block(
        2,
        vec![
            create_claim("Bob", "hash of bob: hello! this is for bob"),
            create_claim("Alice", "hash of alice: hello! this is for Alice"),
            revoke_claim("Alice", "No hash for this claim"),
            create_claim("Alice", "No hash for this claim"),
            revoke_claim("Alice", "No hash for this claim"),
            create_claim("Bob", "hash of alice: hello! this is for Alice"),
        ],
    );
    let reports = runtime.execute_block(block_2).expect("invalid block");
    assert_eq!(
        reports,
        vec![
            ExtrinsicFailure { block_number: 2, index: 2, error: DispatchError::ClaimNotFound },
            ExtrinsicFailure {
                block_number: 2,
                index: 5,
                error: DispatchError::ContentAlreadyClaimed
            },
        ]
    );
    assert_eq!(runtime.system.block_number(), 2);
    assert_eq!(owner(&runtime, "hash of bob: hello! this is for bob"), Some("Bob".to_string()));
    assert_eq!(
        owner(&runtime, "hash of alice: hello! this is for Alice"),
        Some("Alice".to_string())
    );
    assert_eq!(owner(&runtime, "No hash for this claim"), None);
    assert_eq!(nonce(&runtime, "Alice"), 6);
    assert_eq!(nonce(&runtime, "Bob"), 3);
    assert_eq!(nonce(&runtime, "alex"), 1);
    assert_eq!(balance(&runtime, "Alice"), 21);
    assert_eq!(balance(&runtime, "Bob"), 39);
}

#[test]
fn block_with_wrong_number_changes_nothing() {
    let mut runtime = Runtime::new();
    runtime.balances.set_balance(&"Alice".to_string(), 100);
    assert_eq!(runtime.proof_of_existence.create_claim("Alice".to_string(), "x"), Ok(()));
    runtime.system.inc_nonce(&"Alice".to_string());
    let before = format!("{:?}", runtime);

    for number in [0u32, 2, 3, u32::MAX] {
        let wrong = block(
            number,
            vec![transfer("Alice", "Bob", 69), revoke_claim("Alice", "x"), create_claim("Bob", "y")],
        );
        assert!(runtime.can_execute(&wrong));
        let result = runtime.execute_block(wrong);
        assert_eq!(result, Err(StructuralError::BlockNumberMismatch));
        assert_eq!(result.map_err(|e| e.message()), Err("Block number mismatched"));
        assert_eq!(format!("{:?}", runtime), before);
        assert_eq!(runtime.system.block_number(), 0);
        assert_eq!(nonce(&runtime, "Alice"), 1);
        assert_eq!(nonce(&runtime, "Bob"), 0);
        assert_eq!(balance(&runtime, "Alice"), 100);
        assert_eq!(balance(&runtime, "Bob"), 0);
        assert_eq!(owner(&runtime, "x"), Some("Alice".to_string()));
        assert_eq!(owner(&runtime, "y"), None);
    }

    let right = block(1, vec![transfer("Alice", "Bob", 69)]);
    assert_eq!(runtime.execute_block(right), Ok(vec![]));
    assert_eq!(runtime.system.block_number(), 1);
    assert_eq!(balance(&runtime, "Bob"), 69);

    let repeated = block(1, vec![transfer("Alice", "Bob", 1)]);
    assert_eq!(runtime.execute_block(repeated), Err(StructuralError::BlockNumberMismatch));
    assert_eq!(balance(&runtime, "Bob"), 69);
    assert_eq!(nonce(&runtime, "Alice"), 2);
}

#[test]
fn empty_block_only_steps_the_number() {
    let mut runtime = Runtime::new();
    assert_eq!(runtime.execute_block(block(1, vec![])), Ok(vec![]));
    assert_eq!(runtime.execute_block(block(2, vec![])), Ok(vec![]));
    assert_eq!(runtime.system.block_number(), 2);
    assert_eq!(nonce(&runtime, "Alice"), 0);
}

#[test]
fn nonce_counts_failed_extrinsics_too() {
    let mut runtime = Runtime::new();
    let all_fail = block(
        1,
        vec![
            transfer("Alice", "Bob", 1),
            revoke_claim("Alice", "x"),
            transfer("Bob", "Alice", 1),
            transfer("Alice", "Bob", 2),
        ],
    );
    let reports = runtime.execute_block(all_fail).expect("invalid block");
    assert_eq!(
        reports,
        vec![
            ExtrinsicFailure { block_number: 1, index: 0, error: DispatchError::InsufficientFunds },
            ExtrinsicFailure { block_number: 1, index: 1, error: DispatchError::ClaimNotFound },
            ExtrinsicFailure { block_number: 1, index: 2, error: DispatchError::InsufficientFunds },
            ExtrinsicFailure { block_number: 1, index: 3, error: DispatchError::InsufficientFunds },
        ]
    );
    assert_eq!(nonce(&runtime, "Alice"), 3);
    assert_eq!(nonce(&runtime, "Bob"), 1);
    assert_eq!(balance(&runtime, "Alice"), 0);
    assert_eq!(balance(&runtime, "Bob"), 0);
}

#[test]
fn later_extrinsics_see_earlier_ones() {
    let mut runtime = Runtime::new();
    runtime.balances.set_balance(&"Alice".to_string(), 5);
    let chained = block(
        1,
        vec![
            transfer("Bob", "Carol", 5),
            transfer("Alice", "Bob", 5),
            transfer("Bob", "Carol", 5),
            create_claim("Carol", "x"),
            revoke_claim("Bob", "x"),
            revoke_claim("Carol", "x"),
        ],
    );
    let reports = runtime.execute_block(chained).expect("invalid block");
    assert_eq!(
        reports,
        vec![
            ExtrinsicFailure { block_number: 1, index: 0, error: DispatchError::InsufficientFunds },
            ExtrinsicFailure { block_number: 1, index: 4, error: DispatchError::NotClaimOwner },
        ]
    );
    assert_eq!(balance(&runtime, "Alice"), 0);
    assert_eq!(balance(&runtime, "Bob"), 0);
    assert_eq!(balance(&runtime, "Carol"), 5);
    assert_eq!(owner(&runtime, "x"), None);
}

#[test]
fn dispatch_outside_a_block_touches_no_counter() {
    let mut runtime = Runtime::new();
    runtime.balances.set_balance(&"Alice".to_string(), 100);
    let call = RuntimeCall::balances(balances::Call::transfer { to: "Bob".to_string(), amount: 30 });
    assert_eq!(runtime.dispatch("Alice".to_string(), call), Ok(()));
    let call =
        RuntimeCall::balances(balances::Call::transfer { to: "Bob".to_string(), amount: 71 });
    assert_eq!(runtime.dispatch("Alice".to_string(), call), Err(DispatchError::InsufficientFunds));
    let call = RuntimeCall::proof_of_existence(proof_of_existence::Call::create_claim { claim: "x" });
    assert_eq!(runtime.dispatch("Bob".to_string(), call), Ok(()));
    let call = RuntimeCall::proof_of_existence(proof_of_existence::Call::revoke_claim { claim: "x" });
    assert_eq!(runtime.dispatch("Alice".to_string(), call), Err(DispatchError::NotClaimOwner));
    assert_eq!(balance(&runtime, "Alice"), 70);
    assert_eq!(balance(&runtime, "Bob"), 30);
    assert_eq!(owner(&runtime, "x"), Some("Bob".to_string()));
    assert_eq!(runtime.system.block_number(), 0);
    assert_eq!(nonce(&runtime, "Alice"), 0);
    assert_eq!(nonce(&runtime, "Bob"), 0);
}

#[test]
fn balance_overflow_is_reported_from_a_block() {
    let mut runtime = Runtime::new();
    runtime.balances.set_balance(&"Alice".to_string(), 10);
    runtime.balances.set_balance(&"Bob".to_string(), u128::MAX - 3);
    let reports = runtime
        .execute_block(block(1, vec![transfer("Alice", "Bob", 4), transfer("Alice", "Bob", 3)]))
        .expect("invalid block");
    assert_eq!(
        reports,
        vec![ExtrinsicFailure { block_number: 1, index: 0, error: DispatchError::BalanceOverflow }]
    );
    assert_eq!(reports[0].error.message(), "over/underflow occured.");
    assert_eq!(balance(&runtime, "Alice"), 7);
    assert_eq!(balance(&runtime, "Bob"), u128::MAX);
}

#[test]
fn transfer_to_oneself_in_a_block_keeps_the_supply() {
    let mut runtime = Runtime::new();
    runtime.balances.set_balance(&"Alice".to_string(), 100);
    let reports = runtime
        .execute_block(block(
            1,
            vec![
                transfer("Alice", "Alice", 30),
                transfer("Alice", "Alice", 101),
                transfer("Alice", "Bob", 100),
                transfer("Bob", "Bob", 100),
            ],
        ))
        .expect("invalid block");
    assert_eq!(
        reports,
        vec![ExtrinsicFailure { block_number: 1, index: 1, error: DispatchError::InsufficientFunds }]
    );
    assert_eq!(balance(&runtime, "Alice"), 0);
    assert_eq!(balance(&runtime, "Bob"), 100);
    assert_eq!(nonce(&runtime, "Alice"), 3);
    assert_eq!(nonce(&runtime, "Bob"), 1);
}

#[test]
fn modules_list_their_records() {
    let mut runtime = Runtime::new();
    runtime.balances.set_balance(&"Alice".to_string(), 100);
    let reports = runtime
        .execute_block(block(
            1,
            vec![transfer("Alice", "Bob", 69), create_claim("Bob", "x"), create_claim("Bob", "y")],
        ))
        .expect("invalid block");
    assert_eq!(reports, vec![]);

    let mut balances: Vec<(String, u128)> =
        runtime.balances.entries().into_iter().map(|(k, v)| (k.clone(), *v)).collect();
    balances.sort();
    assert_eq!(balances, vec![("Alice".to_string(), 31), ("Bob".to_string(), 69)]);

    let mut nonces: Vec<(String, u32)> =
        runtime.system.nonce_entries().into_iter().map(|(k, v)| (k.clone(), *v)).collect();
    nonces.sort();
    assert_eq!(nonces, vec![("Alice".to_string(), 1), ("Bob".to_string(), 2)]);

    let mut claims: Vec<(&str, String)> =
        runtime.proof_of_existence.entries().into_iter().map(|(k, v)| (*k, v.clone())).collect();
    claims.sort();
    assert_eq!(claims, vec![("x", "Bob".to_string()), ("y", "Bob".to_string())]);
}
