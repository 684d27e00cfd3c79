use vstd::prelude::*;
use crate::balances;
use crate::balances::{lemma_transfer_keeps_supply, total_supply, transfer_check, transfer_effect};
use crate::identity::Identifier;
use crate::numeric::{Counter, Numeric};
use crate::proof_of_existence;
use crate::proof_of_existence::{create_check, create_effect, revoke_check, revoke_effect};
use crate::support::{Dispatch, DispatchError, DispatchResult, StructuralError};
use crate::system;
use crate::system::{bump, nonce_in};
use crate::types;

verus! {

/// The choice of types that the runtime is assembled with.
#[derive(Debug)]
pub struct RuntimeConfig;

impl system::Config for RuntimeConfig {
    type AccountId = types::AccountId;

    type BlockNumber = types::BlockNumber;

    type Nonce = types::Nonce;
}

impl balances::Config for RuntimeConfig {
    type Balance = types::Balance;
}

impl proof_of_existence::Config for RuntimeConfig {
    type Content = types::Content;
}

/// Every call that the runtime accepts: one variant for each module that takes
/// calls, holding a call of that module.
#[allow(non_camel_case_types)]
pub enum RuntimeCall {
    /// A call of the ledger.
    balances(balances::Call<RuntimeConfig>),
    /// A call of the claim module.
    proof_of_existence(proof_of_existence::Call<RuntimeConfig>),
}

/// The runtime: one instance of each module.
#[derive(Debug)]
pub struct Runtime {
    pub system: system::Pallet<RuntimeConfig>,
    pub balances: balances::Pallet<RuntimeConfig>,
    pub proof_of_existence: proof_of_existence::Pallet<RuntimeConfig>,
}

/// What a runtime stands for: the block number and the records of each module.
pub struct State {
    pub block_number: nat,
    pub nonces: Map<Seq<char>, nat>,
    pub balances: Map<Seq<char>, nat>,
    pub claims: Map<Seq<char>, Seq<char>>,
}

impl View for Runtime {
    type V = State;

    open spec fn view(&self) -> State {
        State {
            block_number: self.system.number(),
            nonces: self.system.nonces(),
            balances: self.balances.balances(),
            claims: self.proof_of_existence.claims(),
        }
    }
}

/// The greatest balance an account can hold.
pub open spec fn balance_limit() -> nat {
    <types::Balance as Numeric>::limit()
}

/// The greatest nonce an account can reach.
pub open spec fn nonce_limit() -> nat {
    <types::Nonce as Numeric>::limit()
}

/// Whether `call`, sent by `caller` in `state`, goes through.
pub open spec fn dispatch_check(state: State, caller: Seq<char>, call: RuntimeCall) -> DispatchResult {
    match call {
        RuntimeCall::balances(balances::Call::transfer { to, amount }) => transfer_check(
            state.balances,
            balance_limit(),
            caller,
            to@,
            amount.value(),
        ),
        RuntimeCall::proof_of_existence(
            proof_of_existence::Call::create_claim { claim },
        ) => create_check(state.claims, claim@),
        RuntimeCall::proof_of_existence(
            proof_of_existence::Call::revoke_claim { claim },
        ) => revoke_check(state.claims, caller, claim@),
    }
}

/// The state after `call` has been sent by `caller` in `state`. Only the
/// records of the module that owns the call can differ, and only if the call
/// went through.
pub open spec fn dispatch_effect(state: State, caller: Seq<char>, call: RuntimeCall) -> State {
    match call {
        RuntimeCall::balances(balances::Call::transfer { to, amount }) => State {
            balances: transfer_effect(state.balances, balance_limit(), caller, to@, amount.value()),
            ..state
        },
        RuntimeCall::proof_of_existence(
            proof_of_existence::Call::create_claim { claim },
        ) => State { claims: create_effect(state.claims, caller, claim@), ..state },
        RuntimeCall::proof_of_existence(
            proof_of_existence::Call::revoke_claim { claim },
        ) => State { claims: revoke_effect(state.claims, caller, claim@), ..state },
    }
}

/// A call that was turned down while its block was executed.
#[derive(Clone, Copy, Debug, PartialEq, Eq, Structural)]
pub struct ExtrinsicFailure {
    /// The number of the block.
    pub block_number: types::BlockNumber,
    /// The place of the extrinsic in the block, counted from zero.
    pub index: usize,
    /// Why the call was turned down.
    pub error: DispatchError,
}

/// How many of `extrinsics` were submitted by `who`.
pub open spec fn submissions(extrinsics: Seq<types::Extrinsic>, who: Seq<char>) -> nat
    decreases extrinsics.len(),
{
    if extrinsics.len() == 0 {
        0
    } else {
        submissions(extrinsics.drop_last(), who) + if extrinsics.last().caller@ == who {
            1nat
        } else {
            0nat
        }
    }
}

/// Whether every account can submit its share of `extrinsics` without its
/// nonce passing the limit.
pub open spec fn nonces_have_room(nonces: Map<Seq<char>, nat>, extrinsics: Seq<types::Extrinsic>) -> bool {
    forall|who: Seq<char>|
        nonce_in(nonces, who) + #[trigger] submissions(extrinsics, who) <= nonce_limit()
}

/// Whether `block` can be executed in `state` without a nonce passing the
/// limit. A block that is not accepted is never a danger.
pub open spec fn executable(state: State, block: types::Block) -> bool {
    block.header.block_number == state.block_number + 1 ==> nonces_have_room(
        state.nonces,
        block.extrinsics@,
    )
}

/// The state once the block number has been stepped up.
pub open spec fn begin_block(state: State) -> State {
    State { block_number: state.block_number + 1, ..state }
}

/// The state once one more submission by `who` has been counted.
pub open spec fn count_submission(state: State, who: Seq<char>) -> State {
    State { nonces: bump(state.nonces, who), ..state }
}

/// The state after one extrinsic: the submission is counted first, whatever
/// becomes of the call, and then the call is dispatched.
pub open spec fn submit(state: State, extrinsic: types::Extrinsic) -> State {
    dispatch_effect(
        count_submission(state, extrinsic.caller@),
        extrinsic.caller@,
        extrinsic.call,
    )
}

/// The state after `extrinsics`, taken in order.
pub open spec fn submit_all(state: State, extrinsics: Seq<types::Extrinsic>) -> State
    decreases extrinsics.len(),
{
    if extrinsics.len() == 0 {
        state
    } else {
        submit(submit_all(state, extrinsics.drop_last()), extrinsics.last())
    }
}

/// The calls among `extrinsics` that are turned down when they are taken in
/// order from `state`, each with its place and its error, as reported for
/// block `number`.
pub open spec fn failures(
    state: State,
    number: types::BlockNumber,
    extrinsics: Seq<types::Extrinsic>,
) -> Seq<ExtrinsicFailure>
    decreases extrinsics.len(),
{
    if extrinsics.len() == 0 {
        Seq::empty()
    } else {
        let earlier = failures(state, number, extrinsics.drop_last());
        let before = submit_all(state, extrinsics.drop_last());
        let last = extrinsics.last();
        match dispatch_check(count_submission(before, last.caller@), last.caller@, last.call) {
            Ok(_) => earlier,
            Err(error) => earlier.push(
                ExtrinsicFailure {
                    block_number: number,
                    index: (extrinsics.len() - 1) as usize,
                    error,
                },
            ),
        }
    }
}

/// Dispatching a call changes neither the block number nor any nonce.
pub proof fn lemma_dispatch_keeps_counters(state: State, caller: Seq<char>, call: RuntimeCall)
    ensures
        dispatch_effect(state, caller, call).block_number == state.block_number,
        dispatch_effect(state, caller, call).nonces == state.nonces,
{
}

/// A call that is turned down leaves the whole state as it was.
pub proof fn lemma_failed_dispatch_keeps_state(state: State, caller: Seq<char>, call: RuntimeCall)
    requires
        dispatch_check(state, caller, call) is Err,
    ensures
        dispatch_effect(state, caller, call) == state,
{
}

/// Dispatching a call never changes the total supply, and only finitely many
/// accounts hold a balance afterwards.
pub proof fn lemma_dispatch_keeps_supply(state: State, caller: Seq<char>, call: RuntimeCall)
    requires
        state.balances.dom().finite(),
    ensures
        dispatch_effect(state, caller, call).balances.dom().finite(),
        total_supply(dispatch_effect(state, caller, call).balances) == total_supply(
            state.balances,
        ),
{
    match call {
        RuntimeCall::balances(balances::Call::transfer { to, amount }) => {
            lemma_transfer_keeps_supply(
                state.balances,
                balance_limit(),
                caller,
                to@,
                amount.value(),
            );
        },
        _ => {},
    }
}

/// Executing extrinsics never changes the total supply.
pub proof fn lemma_submit_all_keeps_supply(state: State, extrinsics: Seq<types::Extrinsic>)
    requires
        state.balances.dom().finite(),
    ensures
        submit_all(state, extrinsics).balances.dom().finite(),
        total_supply(submit_all(state, extrinsics).balances) == total_supply(state.balances),
    decreases extrinsics.len(),
{
    if extrinsics.len() > 0 {
        let last = extrinsics.last();
        lemma_submit_all_keeps_supply(state, extrinsics.drop_last());
        lemma_dispatch_keeps_supply(
            count_submission(submit_all(state, extrinsics.drop_last()), last.caller@),
            last.caller@,
            last.call,
        );
    }
}

/// Executing extrinsics steps the nonce of each account up by exactly the
/// number of extrinsics it submitted, whether or not their calls went
/// through, and leaves the block number alone.
pub proof fn lemma_submit_all_counts(state: State, extrinsics: Seq<types::Extrinsic>)
    ensures
        submit_all(state, extrinsics).block_number == state.block_number,
        forall|who: Seq<char>|
            nonce_in(submit_all(state, extrinsics).nonces, who) == nonce_in(state.nonces, who)
                + #[trigger] submissions(extrinsics, who),
    decreases extrinsics.len(),
{
    if extrinsics.len() > 0 {
        let earlier = extrinsics.drop_last();
        let last = extrinsics.last();
        lemma_submit_all_counts(state, earlier);
        let before = submit_all(state, earlier);
        lemma_dispatch_keeps_counters(
            count_submission(before, last.caller@),
            last.caller@,
            last.call,
        );
        assert forall|who: Seq<char>|
            nonce_in(submit_all(state, extrinsics).nonces, who) == nonce_in(state.nonces, who)
                + #[trigger] submissions(extrinsics, who) by {
            assert(nonce_in(before.nonces, who) == nonce_in(state.nonces, who) + submissions(
                earlier,
                who,
            ));
        }
    }
}

/// An account that has submitted something has submitted one of the extrinsics.
pub proof fn lemma_submissions_witness(extrinsics: Seq<types::Extrinsic>, who: Seq<char>)
    requires
        submissions(extrinsics, who) > 0,
    ensures
        exists|i: int| 0 <= i < extrinsics.len() && (#[trigger] extrinsics[i]).caller@ == who,
    decreases extrinsics.len(),
{
    if extrinsics.last().caller@ == who {
        assert(extrinsics[extrinsics.len() - 1].caller@ == who);
    } else {
        lemma_submissions_witness(extrinsics.drop_last(), who);
        let i = choose|i: int|
            0 <= i < extrinsics.drop_last().len() && (#[trigger] extrinsics.drop_last()[i]).caller@
                == who;
        assert(extrinsics[i].caller@ == who);
    }
}

/// An account has submitted no more of the first `n` extrinsics than of all.
pub proof fn lemma_submissions_grow(extrinsics: Seq<types::Extrinsic>, n: int, who: Seq<char>)
    requires
        0 <= n <= extrinsics.len(),
    ensures
        submissions(extrinsics.take(n), who) <= submissions(extrinsics, who),
    decreases extrinsics.len(),
{
    if n < extrinsics.len() {
        lemma_submissions_grow(extrinsics.drop_last(), n, who);
        assert(extrinsics.drop_last().take(n) =~= extrinsics.take(n));
    } else {
        assert(extrinsics.take(n) =~= extrinsics);
    }
}

impl Runtime {
    /// A runtime at block zero whose modules hold no records.
    pub fn new() -> (runtime: Self)
        ensures
            runtime@ == (State {
                block_number: 0,
                nonces: Map::empty(),
                balances: Map::empty(),
                claims: Map::empty(),
            }),
    {
        Runtime {
            system: system::Pallet::new(),
            balances: balances::Pallet::new(),
            proof_of_existence: proof_of_existence::Pallet::new(),
        }
    }

    /// How many of the extrinsics of `block` were submitted by `who`.
    fn count_submissions(block: &types::Block, who: &types::AccountId) -> (count: usize)
        ensures
            count == submissions(block.extrinsics@, who@),
    {
        let mut count: usize = 0;
        let mut j: usize = 0;
        while j < block.extrinsics.len()
            invariant
                j <= block.extrinsics@.len(),
                count <= j,
                count == submissions(block.extrinsics@.take(j as int), who@),
            decreases block.extrinsics@.len() - j,
        {
            proof {
                assert(block.extrinsics@.take(j + 1).drop_last() =~= block.extrinsics@.take(
                    j as int,
                ));
            }
            if block.extrinsics[j].caller.same(who) {
                count += 1;
            }
            j += 1;
        }
        assert(block.extrinsics@.take(j as int) =~= block.extrinsics@);
        count
    }

    /// Tells whether `number` is the number of the block that comes next.
    fn is_next(&self, number: types::BlockNumber) -> (r: bool)
        ensures
            r == (number == self@.block_number + 1),
    {
        let current = self.system.block_number();
        !current.at_limit() && current.succ().equals(&number)
    }

    /// Tells whether `block` can be handed to `execute_block`: whether, if the
    /// block is accepted, every nonce stays within its limit.
    pub fn can_execute(&self, block: &types::Block) -> (ok: bool)
        ensures
            ok == executable(self@, *block),
    {
        if !self.is_next(block.header.block_number) {
            return true;
        }
        let mut i: usize = 0;
        while i < block.extrinsics.len()
            invariant
                i <= block.extrinsics@.len(),
                block.header.block_number == self@.block_number + 1,
                forall|k: int|
                    0 <= k < i ==> nonce_in(self@.nonces, block.extrinsics@[k].caller@)
                        + #[trigger] submissions(block.extrinsics@, block.extrinsics@[k].caller@)
                        <= nonce_limit(),
            decreases block.extrinsics@.len() - i,
        {
            let who = &block.extrinsics[i].caller;
            let count = Self::count_submissions(block, who);
            let nonce = self.system.get_nonce(who);
            if count as u128 + nonce as u128 > u32::MAX as u128 {
                return false;
            }
            i += 1;
        }
        proof {
            self.system.lemma_counters_bounded();
            assert forall|who: Seq<char>|
                nonce_in(self@.nonces, who) + #[trigger] submissions(block.extrinsics@, who)
                    <= nonce_limit() by {
                if submissions(block.extrinsics@, who) > 0 {
                    lemma_submissions_witness(block.extrinsics@, who);
                    let k = choose|k: int|
                        0 <= k < block.extrinsics@.len() && (#[trigger] block.extrinsics@[k]).caller@
                            == who;
                    assert(submissions(block.extrinsics@, block.extrinsics@[k].caller@)
                        == submissions(block.extrinsics@, who));
                } else {
                    assert(self.system.nonce_of(who) <= nonce_limit());
                }
            }
        }
        true
    }

    /// Executes a block. The block is accepted exactly when its header carries
    /// the number that follows the current block number; a block that is not
    /// accepted changes nothing. For an accepted block the block number is
    /// stepped up, and then the extrinsics are taken in order: the nonce of
    /// the caller is stepped up, and the call is dispatched. A call that is
    /// turned down does not stop the block; it is listed in the result, for
    /// the caller to report. No block changes the total supply.
    ///
    /// A nonce that would pass its limit is fatal, so callers rule it out.
    pub fn execute_block(&mut self, block: types::Block) -> (r: Result<
        Vec<ExtrinsicFailure>,
        StructuralError,
    >)
        requires
            executable(old(self)@, block),
        ensures
            r is Ok <==> block.header.block_number == old(self)@.block_number + 1,
            r is Err ==> r == Err::<Vec<ExtrinsicFailure>, StructuralError>(
                StructuralError::BlockNumberMismatch,
            ) && *final(self) == *old(self),
            r matches Ok(reports) ==> {
                &&& final(self)@ == submit_all(begin_block(old(self)@), block.extrinsics@)
                &&& reports@ == failures(
                    begin_block(old(self)@),
                    block.header.block_number,
                    block.extrinsics@,
                )
                &&& final(self)@.block_number == old(self)@.block_number + 1
                &&& total_supply(final(self)@.balances) == total_supply(old(self)@.balances)
                &&& forall|who: Seq<char>|
                    nonce_in(final(self)@.nonces, who) == nonce_in(old(self)@.nonces, who)
                        + #[trigger] submissions(block.extrinsics@, who)
            },
    {
        let number = block.header.block_number;
        if !self.is_next(number) {
            return Err(StructuralError::BlockNumberMismatch);
        }
        proof {
            self.balances.lemma_balances_bounded();
            lemma_submit_all_keeps_supply(begin_block(self@), block.extrinsics@);
        }
        self.system.inc_block_number();
        let ghost start = self@;
        let ghost extrinsics = block.extrinsics@;
        assert(extrinsics.len() == block.extrinsics.len());
        let mut reports: Vec<ExtrinsicFailure> = Vec::new();
        let mut index: usize = 0;
        for extrinsic in it: block.extrinsics.into_iter()
            invariant
                it.seq() == extrinsics,
                extrinsics.len() <= usize::MAX,
                index == it.index(),
                nonces_have_room(start.nonces, extrinsics),
                self@ == submit_all(start, extrinsics.take(index as int)),
                reports@ == failures(start, number, extrinsics.take(index as int)),
        {
            let ghost done = extrinsics.take(index as int);
            let ghost now = extrinsics.take(index + 1);
            proof {
                assert(now.drop_last() =~= done);
                lemma_submit_all_counts(start, done);
                lemma_submissions_grow(extrinsics, index + 1, extrinsic.caller@);
                assert(submissions(now, extrinsic.caller@) == submissions(
                    done,
                    extrinsic.caller@,
                ) + 1);
            }
            let crate::support::Extrinsic { caller, call } = extrinsic;
            self.system.inc_nonce(&caller);
            match self.dispatch(caller, call) {
                Ok(_) => {},
                Err(error) => {
                    reports.push(ExtrinsicFailure { block_number: number, index, error });
                },
            }
            index += 1;
        }
        proof {
            assert(extrinsics.take(index as int) =~= extrinsics);
            lemma_submit_all_counts(start, extrinsics);
        }
        Ok(reports)
    }
}

impl Dispatch for Runtime {
    type Caller = types::AccountId;

    type Call = RuntimeCall;

    /// Routes `call` to the module that owns it, on behalf of `caller`, and
    /// hands back what the module's operation returns. The block number, the
    /// nonces and the total supply are not touched.
    fn dispatch(&mut self, caller: Self::Caller, call: Self::Call) -> (r: DispatchResult)
        ensures
            r == dispatch_check(old(self)@, caller@, call),
            final(self)@ == dispatch_effect(old(self)@, caller@, call),
            total_supply(final(self)@.balances) == total_supply(old(self)@.balances),
    {
        proof {
            self.balances.lemma_balances_bounded();
            lemma_dispatch_keeps_supply(self@, caller@, call);
        }
        match call {
            RuntimeCall::balances(call) => self.balances.dispatch(caller, call),
            RuntimeCall::proof_of_existence(call) => self.proof_of_existence.dispatch(caller, call),
        }
    }
}

} // verus!
