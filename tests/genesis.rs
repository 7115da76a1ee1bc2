use ionova_core::genesis::{burn_from, mint_to, Account, BurnError, GenesisState, IONX_DECIMALS};
use ionova_core::table::AddressTable;

#[test]
fn test_genesis_creation() {
    let genesis = GenesisState::create();
    // 21 * 95_238 + 10_000_000 + 100_000: the per-validator share is rounded down.
    assert_eq!(genesis.get_total_ionx(), 12_099_998);
    assert_eq!(genesis.accounts.len(), 23);
}

#[test]
fn test_validator_balances() {
    let genesis = GenesisState::create();
    let val0 = genesis.accounts.get("ionova1validator0qqqqqqqqqqqqqqqqqqqqqqqqqq").unwrap();
    assert_eq!(val0.balance, 95_238 * IONX_DECIMALS);
}

#[test]
fn test_mint() {
    let mut accounts = AddressTable::new();
    let address = "ionova1test".to_string();
    mint_to(&mut accounts, &address, 100 * IONX_DECIMALS);
    assert_eq!(accounts.get(&address).unwrap().balance, 100 * IONX_DECIMALS);
    mint_to(&mut accounts, &address, 50 * IONX_DECIMALS);
    assert_eq!(accounts.get(&address).unwrap().balance, 150 * IONX_DECIMALS);
}

#[test]
fn test_burn() {
    let mut accounts = AddressTable::new();
    let address = "ionova1test".to_string();
    accounts.insert(address.clone(), Account::new(100));
    burn_from(&mut accounts, &address, 30 * IONX_DECIMALS).unwrap();
    assert_eq!(accounts.get(&address).unwrap().balance, 70 * IONX_DECIMALS);
}

#[test]
fn genesis_funds_and_last_validator() {
    let genesis = GenesisState::create();
    assert_eq!(
        genesis.accounts.get("ionova1airdropqqqqqqqqqqqqqqqqqqqqqqqqqqqqq").unwrap().balance,
        10_000_000 * IONX_DECIMALS
    );
    assert_eq!(
        genesis.accounts.get("ionova1reservedqqqqqqqqqqqqqqqqqqqqqqqqqqqqq").unwrap().balance,
        100_000 * IONX_DECIMALS
    );
    assert_eq!(
        genesis.accounts.get("ionova1validator20qqqqqqqqqqqqqqqqqqqqqqqqqq").unwrap().balance,
        95_238 * IONX_DECIMALS
    );
    assert_eq!(
        genesis.accounts.get("ionova1validator18qqqqqqqqqqqqqqqqqqqqqqqqqq").unwrap().balance,
        95_238 * IONX_DECIMALS
    );
    assert!(!genesis.accounts.contains_key("ionova1validator21qqqqqqqqqqqqqqqqqqqqqqqqqq"));
}

#[test]
fn burn_fails_without_account_or_balance() {
    let mut accounts = AddressTable::new();
    assert_eq!(burn_from(&mut accounts, "nobody", 1), Err(BurnError::AccountNotFound));
    accounts.insert("a".to_string(), Account::new(1));
    assert_eq!(burn_from(&mut accounts, "a", 2 * IONX_DECIMALS), Err(BurnError::InsufficientBalance));
    assert_eq!(accounts.get("a").unwrap().balance, IONX_DECIMALS);
    assert_eq!(BurnError::InsufficientBalance.message(), "Insufficient balance");
}

#[test]
fn mint_opens_account_with_nonce_zero() {
    let mut accounts = AddressTable::new();
    mint_to(&mut accounts, "fresh", 5);
    assert_eq!(*accounts.get("fresh").unwrap(), Account { balance: 5, nonce: 0 });
    assert_eq!(accounts.len(), 1);
}
