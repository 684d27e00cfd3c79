use state_runtime::system::{Config, Pallet};

struct TestConfig;

impl Config for TestConfig {
    type AccountId = String;
    type BlockNumber = u32;
    type Nonce = u32;
}

#[test]
fn init_system() {
    let mut system = Pallet::<TestConfig>::new();
    system.inc_block_number();
    system.inc_nonce(&"Alice".to_string());
    system.inc_nonce(&"Alice".to_string());
    system.inc_nonce(&"Alice".to_string());

    assert_eq!(system.block_number(), 1);
    assert_eq!(system.get_nonce(&"Alice".to_string()), 3);
}

#[test]
fn fresh_system_is_at_zero() {
    let system = Pallet::<TestConfig>::new();
    assert_eq!(system.block_number(), 0);
    assert_eq!(system.get_nonce(&"Alice".to_string()), 0);
    assert_eq!(system.get_nonce(&"".to_string()), 0);
}

#[test]
fn nonces_are_counted_by_account() {
    let mut system = Pallet::<TestConfig>::new();
    let alice = "Alice".to_string();
    let bob = "Bob".to_string();
    for n in 1..=5u32 {
        system.inc_nonce(&alice);
        assert_eq!(system.get_nonce(&alice), n);
        assert_eq!(system.get_nonce(&bob), 0);
    }
    system.inc_nonce(&bob);
    assert_eq!(system.get_nonce(&alice), 5);
    assert_eq!(system.get_nonce(&bob), 1);
    assert_eq!(system.block_number(), 0);
}

#[test]
fn block_number_counts_up() {
    let mut system = Pallet::<TestConfig>::new();
    system.inc_nonce(&"Alice".to_string());
    for n in 1..=4u32 {
        system.inc_block_number();
        assert_eq!(system.block_number(), n);
    }
    assert_eq!(system.get_nonce(&"Alice".to_string()), 1);
}
