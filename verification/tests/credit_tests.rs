use coretime_allocator::AccountId;
use coretime_allocator::credit::{CreditAmount, CreditToStakingPot, DepositError, Ledger};

fn account(fill: u8) -> AccountId {
    AccountId::new(vec![fill; 32])
}

#[test]
fn redirect_increases_pot_by_exactly_the_amount() {
    let mut ledger = Ledger::new();
    assert!(ledger.add_account(account(1), 100));
    let redirector = CreditToStakingPot::new(account(1));
    let r = redirector.on_nonzero_unbalanced(&mut ledger, CreditAmount { amount: 25 });
    assert!(r.is_ok());
    assert_eq!(ledger.balance(&account(1)), Some(125));
}

#[test]
fn redirect_of_zero_is_a_no_op_deposit() {
    let mut ledger = Ledger::new();
    assert!(ledger.add_account(account(1), 100));
    let redirector = CreditToStakingPot::new(account(1));
    let r = redirector.on_nonzero_unbalanced(&mut ledger, CreditAmount { amount: 0 });
    assert!(r.is_ok());
    assert_eq!(ledger.balance(&account(1)), Some(100));
}

#[test]
fn redirect_to_missing_pot_returns_the_credit() {
    let mut ledger = Ledger::new();
    let redirector = CreditToStakingPot::new(account(1));
    let r = redirector.on_nonzero_unbalanced(&mut ledger, CreditAmount { amount: 25 });
    assert_eq!(r, Err(CreditAmount { amount: 25 }));
}

#[test]
fn redirect_overflow_returns_the_credit_and_keeps_the_balance() {
    let mut ledger = Ledger::new();
    assert!(ledger.add_account(account(1), u128::MAX));
    let redirector = CreditToStakingPot::new(account(1));
    let r = redirector.on_nonzero_unbalanced(&mut ledger, CreditAmount { amount: 1 });
    assert_eq!(r, Err(CreditAmount { amount: 1 }));
    assert_eq!(ledger.balance(&account(1)), Some(u128::MAX));
}

#[test]
fn redirect_leaves_other_accounts_untouched() {
    let mut ledger = Ledger::new();
    assert!(ledger.add_account(account(1), 10));
    assert!(ledger.add_account(account(2), 20));
    let redirector = CreditToStakingPot::new(account(1));
    let r = redirector.on_nonzero_unbalanced(&mut ledger, CreditAmount { amount: 5 });
    assert!(r.is_ok());
    assert_eq!(ledger.balance(&account(1)), Some(15));
    assert_eq!(ledger.balance(&account(2)), Some(20));
}

#[test]
fn deposit_reports_unknown_account() {
    let mut ledger = Ledger::new();
    assert!(ledger.add_account(account(1), 10));
    assert_eq!(ledger.deposit(&account(3), 5), Err(DepositError::UnknownAccount));
    assert_eq!(ledger.balance(&account(1)), Some(10));
}

#[test]
fn deposit_reports_overflow() {
    let mut ledger = Ledger::new();
    assert!(ledger.add_account(account(1), u128::MAX - 1));
    assert_eq!(ledger.deposit(&account(1), 2), Err(DepositError::Overflow));
    assert_eq!(ledger.deposit(&account(1), 1), Ok(()));
    assert_eq!(ledger.balance(&account(1)), Some(u128::MAX));
}

#[test]
fn add_account_refuses_duplicates() {
    let mut ledger = Ledger::new();
    assert!(ledger.add_account(account(1), 10));
    assert!(!ledger.add_account(account(1), 99));
    assert_eq!(ledger.balance(&account(1)), Some(10));
}

#[test]
fn balance_of_missing_account_is_empty() {
    let ledger = Ledger::new();
    assert_eq!(ledger.balance(&account(1)), None);
}
