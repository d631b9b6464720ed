use gitarch_poap::ids::AccountId;
use gitarch_poap::ledger::GitArchPOAP;

fn alice() -> AccountId {
    let accounts = ink::env::test::default_accounts::<ink::env::DefaultEnvironment>();
    let bytes: &[u8; 32] = accounts.alice.as_ref();
    AccountId::new(*bytes)
}

#[test]
fn new_works() {
    let contract = GitArchPOAP::new(alice());
    assert_eq!(contract.get_value(), false);
    assert_eq!(contract.get_total_poaps(), 0);
}

#[test]
fn flip_works() {
    let mut contract = GitArchPOAP::new(alice());
    assert_eq!(contract.get_value(), false);
    contract.flip();
    assert_eq!(contract.get_value(), true);
}

#[test]
fn mint_works() {
    let mut contract = GitArchPOAP::new(alice());
    assert_eq!(contract.get_total_poaps(), 0);
    contract.mint_dummy_poap();
    assert_eq!(contract.get_total_poaps(), 1);
}

#[test]
fn owner_works() {
    let contract = GitArchPOAP::new(alice());
    let accounts = ink::env::test::default_accounts::<ink::env::DefaultEnvironment>();
    let expected: &[u8; 32] = accounts.alice.as_ref();
    assert_eq!(contract.get_owner().as_bytes(), *expected);
    assert_eq!(contract.get_owner(), AccountId::new([0x01; 32]));
}

#[test]
fn flip_twice_restores_the_value() {
    let mut contract = GitArchPOAP::new(alice());
    contract.flip();
    contract.flip();
    assert_eq!(contract.get_value(), false);
}

#[test]
fn dummy_mint_counts_without_minting_a_token() {
    let mut contract = GitArchPOAP::new(alice());
    contract.mint_dummy_poap();
    contract.mint_dummy_poap();
    assert_eq!(contract.get_total_poaps(), 2);
    assert_eq!(contract.total_issued(), 0);
    assert_eq!(contract.get_metadata(0), None);
    assert!(contract.events().is_empty());
}
