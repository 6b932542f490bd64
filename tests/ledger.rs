use fusion_escrow::{DepositManager, EscrowError};

fn s(x: &str) -> String {
    x.to_string()
}

#[test]
fn empty_ledger_reads_zero() {
    let d = DepositManager::new();
    assert_eq!(d.get_total_balance(&s("a"), &s("t")), 0);
    assert_eq!(d.get_locked_balance(&s("a"), &s("t")), 0);
    assert_eq!(d.get_available_balance(&s("a"), &s("t")), 0);
    let dd = DepositManager::default();
    assert!(dd.get_all_users_with_deposits().is_empty());
}

#[test]
fn credit_lock_and_debit() {
    let mut d = DepositManager::new();
    let (a, t) = (s("alice"), s("tok"));
    d.credit_total(&a, &t, 1000);
    d.credit_locked(&a, &t, 300);
    assert_eq!(d.get_total_balance(&a, &t), 1000);
    assert_eq!(d.get_locked_balance(&a, &t), 300);
    assert_eq!(d.get_available_balance(&a, &t), 700);
    d.debit_locked(&a, &t, 100);
    assert_eq!(d.get_locked_balance(&a, &t), 200);
    d.debit_total(&a, &t, 500);
    assert_eq!(d.get_total_balance(&a, &t), 500);
    assert_eq!(d.get_available_balance(&a, &t), 300);
    // other keys untouched
    assert_eq!(d.get_total_balance(&a, &s("other")), 0);
    assert_eq!(d.get_total_balance(&s("bob"), &t), 0);
}

#[test]
fn debits_saturate_at_zero() {
    let mut d = DepositManager::new();
    let (a, t) = (s("alice"), s("tok"));
    d.credit_total(&a, &t, 10);
    d.debit_locked(&a, &t, 5);
    assert_eq!(d.get_locked_balance(&a, &t), 0);
    d.debit_total(&a, &t, 50);
    assert_eq!(d.get_total_balance(&a, &t), 0);
}

#[test]
fn availability_checks() {
    let mut d = DepositManager::new();
    let (a, t) = (s("alice"), s("tok"));
    d.credit_total(&a, &t, 100);
    d.credit_locked(&a, &t, 60);
    assert_eq!(d.assert_available_for_escrow(&a, &t, 40), Ok(()));
    assert_eq!(d.assert_available_for_escrow(&a, &t, 41), Err(EscrowError::InsufficientFunds));
    assert_eq!(d.assert_available_for_escrow(&a, &t, 0), Ok(()));
    assert_eq!(d.assert_available_for_withdrawal(&a, &t, 0), Err(EscrowError::InsufficientFunds));
    assert_eq!(d.assert_available_for_withdrawal(&a, &t, 40), Ok(()));
    assert_eq!(
        d.assert_available_for_withdrawal(&a, &t, 41),
        Err(EscrowError::InsufficientFunds)
    );
}

#[test]
fn listings_of_deposits() {
    let mut d = DepositManager::new();
    d.credit_total(&s("alice"), &s("t1"), 5);
    d.credit_total(&s("alice"), &s("t2"), 7);
    d.credit_total(&s("bob"), &s("t1"), 9);
    d.credit_total(&s("alice"), &s("t1"), 1);
    let mut mine = d.get_all_user_deposits(&s("alice"));
    mine.sort();
    assert_eq!(mine, vec![(s("t1"), 6), (s("t2"), 7)]);
    let mut users = d.get_all_users_with_deposits();
    users.sort();
    assert_eq!(users, vec![s("alice"), s("bob")]);
    assert!(d.get_all_user_deposits(&s("carol")).is_empty());
}
