use tower_defense::wallet::Wallet;

#[test]
fn fresh_wallet_is_empty() {
    let w = Wallet::default();
    assert_eq!(w.balance(), 0);
}

#[test]
fn add_money_accumulates() {
    let mut w = Wallet::default();
    w.add_money(5);
    w.add_money(7);
    assert_eq!(w.balance(), 12);
}

#[test]
fn add_money_saturates_at_max() {
    let mut w = Wallet::default();
    w.add_money(u64::MAX);
    w.add_money(10);
    assert_eq!(w.balance(), u64::MAX);
}

#[test]
fn take_money_debits_exactly() {
    let mut w = Wallet::default();
    w.add_money(10);
    assert!(w.take_money(3).is_ok());
    assert_eq!(w.balance(), 7);
}

#[test]
fn take_money_fails_without_touching_balance() {
    let mut w = Wallet::default();
    w.add_money(2);
    assert!(w.take_money(3).is_err());
    assert_eq!(w.balance(), 2);
}

#[test]
fn pay_to_do_runs_action_exactly_once_on_success() {
    let mut w = Wallet::default();
    w.add_money(10);
    let mut runs: u32 = 0;
    let r = w.pay_to_do(4, || runs += 1);
    assert!(r.is_ok());
    assert_eq!(runs, 1);
    assert_eq!(w.balance(), 6);
}

#[test]
fn pay_to_do_never_runs_action_on_failure() {
    let mut w = Wallet::default();
    w.add_money(3);
    let mut runs: u32 = 0;
    let r = w.pay_to_do(4, || runs += 1);
    assert!(r.is_err());
    assert_eq!(runs, 0);
    assert_eq!(w.balance(), 3);
}

#[test]
fn pay_to_do_whole_balance() {
    let mut w = Wallet::default();
    w.add_money(4);
    let r = w.pay_to_do(4, || ());
    assert!(r.is_ok());
    assert_eq!(w.balance(), 0);
}
