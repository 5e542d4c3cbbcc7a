use balance_ledger::balance::{Balance, Balances};
use balance_ledger::balance_error::BalanceError;

#[test]
fn create_opens_an_account_with_amount_zero() {
    let mut ledger = Balances::new();
    assert!(ledger.create_balance(1).is_ok());
    let account = ledger.get_balance(1).unwrap();
    assert_eq!(account.id(), 1);
    assert_eq!(account.amount(), 0);
}

#[test]
fn create_twice_is_refused() {
    let mut ledger = Balances::new();
    assert!(ledger.create_balance(1).is_ok());
    assert!(matches!(
        ledger.create_balance(1),
        Err(BalanceError::BalanceAlreadyExists(1))
    ));
    assert_eq!(ledger.get_balance(1).unwrap().amount(), 0);
}

#[test]
fn get_of_an_unknown_account_is_not_found() {
    let ledger = Balances::default();
    assert!(matches!(
        ledger.get_balance(7),
        Err(BalanceError::BalanceNotFound(7))
    ));
}

#[test]
fn deposit_adds_the_amount() {
    let mut ledger = Balances::new();
    ledger.create_balance(1).unwrap();
    ledger.deposit(1, 100).unwrap();
    ledger.deposit(1, 23).unwrap();
    assert_eq!(ledger.get_balance(1).unwrap().amount(), 123);
}

#[test]
fn deposit_to_an_unknown_account_is_not_found() {
    let mut ledger = Balances::new();
    assert!(matches!(
        ledger.deposit(99, 10),
        Err(BalanceError::BalanceNotFound(99))
    ));
}

#[test]
fn deposit_of_zero_is_accepted() {
    let mut ledger = Balances::new();
    ledger.create_balance(1).unwrap();
    ledger.deposit(1, 5).unwrap();
    assert!(ledger.deposit(1, 0).is_ok());
    assert_eq!(ledger.get_balance(1).unwrap().amount(), 5);
}

#[test]
fn deposit_beyond_the_range_is_an_overflow_and_changes_nothing() {
    let mut ledger = Balances::new();
    ledger.create_balance(1).unwrap();
    ledger.deposit(1, u128::MAX).unwrap();
    assert!(matches!(ledger.deposit(1, 1), Err(BalanceError::Overflow)));
    assert_eq!(ledger.get_balance(1).unwrap().amount(), u128::MAX);
}

#[test]
fn withdraw_subtracts_the_amount() {
    let mut ledger = Balances::new();
    ledger.create_balance(1).unwrap();
    ledger.deposit(1, 100).unwrap();
    ledger.withdraw(1, 40).unwrap();
    assert_eq!(ledger.get_balance(1).unwrap().amount(), 60);
}

#[test]
fn withdraw_of_the_whole_amount_leaves_zero() {
    let mut ledger = Balances::new();
    ledger.create_balance(1).unwrap();
    ledger.deposit(1, 100).unwrap();
    ledger.withdraw(1, 100).unwrap();
    assert_eq!(ledger.get_balance(1).unwrap().amount(), 0);
}

#[test]
fn withdraw_of_more_than_held_is_refused() {
    let mut ledger = Balances::new();
    ledger.create_balance(1).unwrap();
    assert!(matches!(
        ledger.withdraw(1, 5),
        Err(BalanceError::InsufficientFunds {
            balance: 0,
            amount: 5
        })
    ));
    assert_eq!(ledger.get_balance(1).unwrap().amount(), 0);
}

#[test]
fn withdraw_from_an_unknown_account_is_not_found() {
    let mut ledger = Balances::new();
    assert!(matches!(
        ledger.withdraw(3, 1),
        Err(BalanceError::BalanceNotFound(3))
    ));
}

#[test]
fn deposit_then_withdraw_gives_the_amount_back() {
    let mut ledger = Balances::new();
    ledger.create_balance(4).unwrap();
    ledger.deposit(4, 77).unwrap();
    ledger.deposit(4, 1_000_000).unwrap();
    ledger.withdraw(4, 1_000_000).unwrap();
    assert_eq!(ledger.get_balance(4).unwrap().amount(), 77);
}

#[test]
fn transfer_moves_the_amount() {
    let mut ledger = Balances::new();
    ledger.create_balance(1).unwrap();
    ledger.create_balance(2).unwrap();
    ledger.deposit(1, 50).unwrap();
    ledger.transfer(1, 2, 30).unwrap();
    assert_eq!(ledger.get_balance(1).unwrap().amount(), 20);
    assert_eq!(ledger.get_balance(2).unwrap().amount(), 30);
}

#[test]
fn transfer_keeps_the_sum_of_all_amounts() {
    let mut ledger = Balances::new();
    for id in 1..=4u64 {
        ledger.create_balance(id).unwrap();
        ledger.deposit(id, 100 * id as u128).unwrap();
    }
    let sum_before: u128 = (1..=4u64)
        .map(|id| ledger.get_balance(id).unwrap().amount())
        .sum();
    ledger.transfer(4, 1, 250).unwrap();
    ledger.transfer(2, 3, 200).unwrap();
    assert!(ledger.transfer(2, 3, 1).is_err());
    let sum_after: u128 = (1..=4u64)
        .map(|id| ledger.get_balance(id).unwrap().amount())
        .sum();
    assert_eq!(sum_before, 1000);
    assert_eq!(sum_after, 1000);
}

#[test]
fn transfer_from_an_unknown_account_names_it() {
    let mut ledger = Balances::new();
    ledger.create_balance(2).unwrap();
    assert!(matches!(
        ledger.transfer(1, 2, 1),
        Err(BalanceError::BalanceNotFound(1))
    ));
}

#[test]
fn transfer_to_an_unknown_account_names_it_and_debits_nothing() {
    let mut ledger = Balances::new();
    ledger.create_balance(1).unwrap();
    ledger.deposit(1, 10).unwrap();
    assert!(matches!(
        ledger.transfer(1, 2, 1),
        Err(BalanceError::BalanceNotFound(2))
    ));
    assert_eq!(ledger.get_balance(1).unwrap().amount(), 10);
}

#[test]
fn transfer_with_both_accounts_unknown_names_the_source() {
    let mut ledger = Balances::new();
    assert!(matches!(
        ledger.transfer(8, 9, 1),
        Err(BalanceError::BalanceNotFound(8))
    ));
}

#[test]
fn transfer_of_more_than_held_is_refused() {
    let mut ledger = Balances::new();
    ledger.create_balance(1).unwrap();
    ledger.create_balance(2).unwrap();
    ledger.deposit(1, 10).unwrap();
    assert!(matches!(
        ledger.transfer(1, 2, 11),
        Err(BalanceError::InsufficientFunds {
            balance: 10,
            amount: 11
        })
    ));
    assert_eq!(ledger.get_balance(1).unwrap().amount(), 10);
    assert_eq!(ledger.get_balance(2).unwrap().amount(), 0);
}

#[test]
fn transfer_whose_credit_overflows_gives_the_debit_back() {
    let mut ledger = Balances::new();
    ledger.create_balance(1).unwrap();
    ledger.create_balance(2).unwrap();
    ledger.deposit(1, 10).unwrap();
    ledger.deposit(2, u128::MAX - 3).unwrap();
    assert!(matches!(
        ledger.transfer(1, 2, 4),
        Err(BalanceError::Overflow)
    ));
    assert_eq!(ledger.get_balance(1).unwrap().amount(), 10);
    assert_eq!(ledger.get_balance(2).unwrap().amount(), u128::MAX - 3);
    ledger.transfer(1, 2, 3).unwrap();
    assert_eq!(ledger.get_balance(1).unwrap().amount(), 7);
    assert_eq!(ledger.get_balance(2).unwrap().amount(), u128::MAX);
}

#[test]
fn transfer_to_the_same_account_changes_nothing() {
    let mut ledger = Balances::new();
    ledger.create_balance(1).unwrap();
    ledger.deposit(1, u128::MAX).unwrap();
    assert!(ledger.transfer(1, 1, 5).is_ok());
    assert_eq!(ledger.get_balance(1).unwrap().amount(), u128::MAX);
    assert!(matches!(
        ledger.transfer(1, 1, 0),
        Ok(())
    ));
}

#[test]
fn transfer_of_zero_is_accepted() {
    let mut ledger = Balances::new();
    ledger.create_balance(1).unwrap();
    ledger.create_balance(2).unwrap();
    assert!(ledger.transfer(1, 2, 0).is_ok());
    assert_eq!(ledger.get_balance(1).unwrap().amount(), 0);
    assert_eq!(ledger.get_balance(2).unwrap().amount(), 0);
}

#[test]
fn account_deposit_and_withdraw() {
    let mut account = Balance::new(9, 10);
    assert!(account.deposit(5).is_ok());
    assert_eq!(account.amount(), 15);
    assert!(account.withdraw(15).is_ok());
    assert_eq!(account.amount(), 0);
    assert!(matches!(
        account.withdraw(1),
        Err(BalanceError::InsufficientFunds {
            balance: 0,
            amount: 1
        })
    ));
    let mut full = Balance::new(9, u128::MAX);
    assert!(matches!(full.deposit(1), Err(BalanceError::Overflow)));
    assert_eq!(full.amount(), u128::MAX);
    assert_eq!(full.id(), 9);
}

#[test]
fn clone_of_a_ledger_holds_the_same_accounts() {
    let mut ledger = Balances::new();
    ledger.create_balance(1).unwrap();
    ledger.deposit(1, 12).unwrap();
    let copy = ledger.clone();
    ledger.deposit(1, 1).unwrap();
    assert_eq!(copy.get_balance(1).unwrap().amount(), 12);
    assert_eq!(ledger.get_balance(1).unwrap().amount(), 13);
}
