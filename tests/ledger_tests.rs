use bank_ledger::account::UserAccount;
use bank_ledger::currency::{lookup_currency, Currency};
use bank_ledger::fraud::{fraud_checker, FraudError};
use bank_ledger::ledger::{LedgerError, UserDB};

/// A ledger with two fresh accounts in `currency`, the first funded with
/// `balance`.
fn two_accounts(currency: &str, balance: u64) -> (UserDB, usize, usize) {
    let mut db = UserDB::new();
    let a = db.create_account(currency).unwrap();
    let b = db.create_account(currency).unwrap();
    if balance > 0 {
        db.deposit(a, balance).unwrap();
    }
    (db, a, b)
}

fn balances(db: &UserDB) -> Vec<i64> {
    (0..db.len()).map(|i| db.balance_of(i).unwrap()).collect()
}

#[test]
fn test_lookup() {
    assert!(lookup_currency("EUR").is_ok());
    assert!(lookup_currency("FAKE").is_err());
}

#[test]
fn lookup_finds_each_catalogue_entry() {
    assert_eq!(lookup_currency("USD"), Ok(Currency::Usd));
    assert_eq!(lookup_currency("EUR"), Ok(Currency::Eur));
    assert_eq!(lookup_currency("GBP"), Ok(Currency::Gbp));
    assert!(lookup_currency("usd").is_err());
    assert!(lookup_currency("").is_err());
    assert!(lookup_currency("USDX").is_err());
}

#[test]
fn catalogue_details() {
    let usd = Currency::Usd.detail();
    assert_eq!(usd.name, "USD");
    assert_eq!(usd.overdraft_limit, 5);
    assert_eq!(usd.transfer_charge, 2);
    assert_eq!(usd.transfer_charge_account, 1);
    let eur = Currency::Eur.detail();
    assert_eq!(eur.name, "EUR");
    assert_eq!(eur.overdraft_limit, 10);
    assert_eq!(eur.transfer_charge, 1);
    assert_eq!(eur.transfer_charge_account, 2);
    let gbp = Currency::Gbp.detail();
    assert_eq!(gbp.transfer_charge_account, 3);
    assert_eq!(Currency::Placeholder.detail().name, "FAKE");
    assert_eq!(Currency::Placeholder.overdraft_limit(), 0);
    assert_eq!(Currency::Usd.charge_account(), 1);
}

#[test]
fn charge_rounds_up() {
    assert_eq!(Currency::Usd.charge(60), 2);
    assert_eq!(Currency::Usd.charge(50), 1);
    assert_eq!(Currency::Usd.charge(100), 2);
    assert_eq!(Currency::Usd.charge(101), 3);
    assert_eq!(Currency::Eur.charge(150), 2);
    assert_eq!(Currency::Eur.charge(300), 3);
    assert_eq!(Currency::Gbp.charge(0), 0);
    assert_eq!(Currency::Eur.charge(u64::MAX), u64::MAX / 100 + 1);
}

#[test]
fn new_ledger_holds_placeholder_and_charge_accounts() {
    let db = UserDB::new();
    assert_eq!(db.len(), 4);
    assert_eq!(db.get(0).unwrap().currency(), Currency::Placeholder);
    assert_eq!(db.get(1).unwrap().currency(), Currency::Usd);
    assert_eq!(db.get(2).unwrap().currency(), Currency::Eur);
    assert_eq!(db.get(3).unwrap().currency(), Currency::Gbp);
    assert_eq!(balances(&db), vec![0, 0, 0, 0]);
    assert!(db.get(4).is_none());
}

#[test]
fn create_account_appends() {
    let mut db = UserDB::new();
    assert_eq!(db.create_account("EUR"), Ok(4));
    assert_eq!(db.create_account("GBP"), Ok(5));
    assert_eq!(db.get(4).unwrap().currency(), Currency::Eur);
    assert_eq!(db.get(5).unwrap().balance(), 0);
    assert!(db.get(5).unwrap().recent_transfers().is_empty());
}

#[test]
fn create_account_rejects_unknown_currency() {
    let mut db = UserDB::new();
    assert_eq!(db.create_account("FAKE"), Err(LedgerError::InvalidCurrency));
    assert_eq!(db.create_account("JPY"), Err(LedgerError::InvalidCurrency));
    assert_eq!(db.len(), 4);
}

#[test]
fn user_account_new_and_placeholder() {
    let a = UserAccount::new("GBP").unwrap();
    assert_eq!(a.currency(), Currency::Gbp);
    assert_eq!(a.balance(), 0);
    assert!(UserAccount::new("FAKE").is_none());
    let p = UserAccount::fakeacct();
    assert_eq!(p.currency(), Currency::Placeholder);
    assert_eq!(p.balance(), 0);
}

#[test]
fn addacct_returns_next_id() {
    let mut db = UserDB::new();
    assert_eq!(db.addacct(UserAccount::new("USD").unwrap()), 4);
    assert_eq!(db.addacct(UserAccount::fakeacct()), 5);
    assert_eq!(db.len(), 6);
}

#[test]
fn deposit_adds_to_balance() {
    let mut db = UserDB::new();
    let a = db.create_account("USD").unwrap();
    assert_eq!(db.deposit(a, 70), Ok(()));
    assert_eq!(db.deposit(a, 30), Ok(()));
    assert_eq!(db.balance_of(a), Ok(100));
}

#[test]
fn deposit_to_missing_account() {
    let mut db = UserDB::new();
    assert_eq!(db.deposit(4, 10), Err(LedgerError::AccountNotFound));
    assert_eq!(db.balance_of(4), Err(LedgerError::AccountNotFound));
}

#[test]
fn deposit_overflow_is_refused() {
    let mut db = UserDB::new();
    let a = db.create_account("USD").unwrap();
    assert_eq!(db.deposit(a, i64::MAX as u64), Ok(()));
    assert_eq!(db.deposit(a, 1), Err(LedgerError::BalanceOverflow));
    assert_eq!(db.deposit(a, u64::MAX), Err(LedgerError::BalanceOverflow));
    assert_eq!(db.balance_of(a), Ok(i64::MAX));
}

#[test]
fn get2_mut_hands_out_both_accounts() {
    let (mut db, a, b) = two_accounts("EUR", 90);
    {
        let (x, y) = db.get2_mut(b, a);
        let x = x.unwrap();
        let y = y.unwrap();
        assert_eq!(x.balance(), 0);
        assert_eq!(y.balance(), 90);
        assert_eq!(x.record_attempt(5), 50);
        assert_eq!(y.record_attempt(5), 50);
        assert_eq!(y.record_attempt(6), 100);
    }
    assert_eq!(db.get(a).unwrap().recent_transfers(), &vec![5, 6]);
    assert_eq!(db.get(b).unwrap().recent_transfers(), &vec![5]);
    let (x, y) = db.get2_mut(a, 99);
    assert!(x.is_some());
    assert!(y.is_none());
    let (x, y) = db.get2_mut(99, 98);
    assert!(x.is_none() && y.is_none());
}

#[test]
fn scenario_a_usd_transfer_with_charge() {
    let (mut db, a, b) = two_accounts("USD", 100);
    assert_eq!(db.transfer(&fraud_checker(), a, b, 60, 0), Ok(50));
    assert_eq!(db.balance_of(a), Ok(38));
    assert_eq!(db.balance_of(b), Ok(60));
    assert_eq!(db.balance_of(1), Ok(2));
}

#[test]
fn scenario_b_below_minimum() {
    let (mut db, a, b) = two_accounts("USD", 100);
    let before = balances(&db);
    assert_eq!(db.transfer(&fraud_checker(), a, b, 10, 0), Err(LedgerError::BelowMinimumTransfer));
    assert_eq!(balances(&db), before);
    assert!(db.get(a).unwrap().recent_transfers().is_empty());
}

#[test]
fn below_minimum_whatever_the_accounts() {
    let mut db = UserDB::new();
    let a = db.create_account("USD").unwrap();
    let e = db.create_account("EUR").unwrap();
    db.deposit(a, 1_000).unwrap();
    let before = balances(&db);
    for amount in 0..50u64 {
        for (from, to) in [(a, e), (a, a), (a, 77), (77, 78), (e, a), (0, 1)] {
            assert_eq!(
                db.transfer(&fraud_checker(), from, to, amount, 0),
                Err(LedgerError::BelowMinimumTransfer)
            );
            assert_eq!(db.begin_transfer(from, to, amount, 0), Err(LedgerError::BelowMinimumTransfer));
        }
    }
    assert_eq!(balances(&db), before);
}

#[test]
fn scenario_c_currency_mismatch() {
    let mut db = UserDB::new();
    let a = db.create_account("EUR").unwrap();
    let b = db.create_account("GBP").unwrap();
    db.deposit(a, 500).unwrap();
    let before = balances(&db);
    assert_eq!(db.transfer(&fraud_checker(), a, b, 100, 0), Err(LedgerError::CurrencyMismatch));
    assert_eq!(balances(&db), before);
}

#[test]
fn scenario_d_fraud_rejected() {
    let (mut db, a, b) = two_accounts("EUR", 500);
    let before = balances(&db);
    assert_eq!(db.begin_transfer(a, b, 100, 0), Ok(50));
    assert_eq!(
        db.finish_transfer(a, b, 100, Some(FraudError("sender".to_string())), None),
        Err(LedgerError::FraudRejected)
    );
    assert_eq!(balances(&db), before);
    assert_eq!(db.begin_transfer(a, b, 100, 1), Ok(100));
    assert_eq!(
        db.finish_transfer(a, b, 100, None, Some(FraudError("receiver".to_string()))),
        Err(LedgerError::FraudRejected)
    );
    assert_eq!(balances(&db), before);
}

#[test]
fn split_transfer_commits_without_verdicts() {
    let (mut db, a, b) = two_accounts("EUR", 500);
    assert_eq!(db.begin_transfer(a, b, 150, 0), Ok(50));
    assert_eq!(db.finish_transfer(a, b, 150, None, None), Ok(()));
    assert_eq!(db.balance_of(a), Ok(348));
    assert_eq!(db.balance_of(b), Ok(150));
    assert_eq!(db.balance_of(2), Ok(2));
}

#[test]
fn overdraft_covers_transfer() {
    let (mut db, a, b) = two_accounts("EUR", 41);
    assert_eq!(db.transfer(&fraud_checker(), a, b, 50, 0), Ok(50));
    assert_eq!(db.balance_of(a), Ok(-10));
    assert_eq!(db.balance_of(b), Ok(50));
    assert_eq!(db.balance_of(2), Ok(1));
    let (mut db, a, b) = two_accounts("EUR", 40);
    assert_eq!(db.transfer(&fraud_checker(), a, b, 50, 0), Err(LedgerError::InsufficientBalance));
    assert_eq!(db.balance_of(a), Ok(40));
    assert_eq!(db.balance_of(b), Ok(0));
}

#[test]
fn currency_mismatch_comes_before_the_charge() {
    let mut db = UserDB::new();
    let a = db.create_account("USD").unwrap();
    let b = db.create_account("EUR").unwrap();
    db.deposit(a, 45).unwrap();
    let before = balances(&db);
    assert_eq!(db.transfer(&fraud_checker(), a, b, 50, 0), Err(LedgerError::CurrencyMismatch));
    assert_eq!(db.transfer(&fraud_checker(), a, b, 51, 0), Err(LedgerError::InsufficientBalance));
    assert_eq!(balances(&db), before);
}

#[test]
fn charge_counts_against_the_overdraft() {
    let (mut db, a, b) = two_accounts("USD", 45);
    let before = balances(&db);
    assert_eq!(db.transfer(&fraud_checker(), a, b, 50, 0), Err(LedgerError::InsufficientBalance));
    assert_eq!(balances(&db), before);
    assert!(db.get(a).unwrap().recent_transfers().is_empty());
}

#[test]
fn within_overdraft_when_charge_is_covered() {
    let (mut db, a, b) = two_accounts("USD", 46);
    assert_eq!(db.transfer(&fraud_checker(), a, b, 50, 0), Ok(50));
    assert_eq!(db.balance_of(a), Ok(-5));
    for i in 0..db.len() {
        let acct = db.get(i).unwrap();
        assert!(acct.balance() >= -(acct.currency().overdraft_limit() as i64));
    }
}

#[test]
fn insufficient_balance_from_empty_account() {
    let (mut db, a, b) = two_accounts("GBP", 0);
    assert_eq!(db.transfer(&fraud_checker(), a, b, 50, 0), Err(LedgerError::InsufficientBalance));
    assert!(db.get(a).unwrap().recent_transfers().is_empty());
}

#[test]
fn same_account_transfer_is_refused() {
    let (mut db, a, _) = two_accounts("USD", 100);
    assert_eq!(db.transfer(&fraud_checker(), a, a, 60, 0), Err(LedgerError::DuplicateAccountId));
    assert_eq!(db.transfer(&fraud_checker(), 99, 99, 60, 0), Err(LedgerError::DuplicateAccountId));
    assert_eq!(db.balance_of(a), Ok(100));
}

#[test]
fn missing_account_transfer_is_refused() {
    let (mut db, a, _) = two_accounts("USD", 100);
    assert_eq!(db.transfer(&fraud_checker(), a, 42, 60, 0), Err(LedgerError::AccountNotFound));
    assert_eq!(db.transfer(&fraud_checker(), 42, a, 60, 0), Err(LedgerError::AccountNotFound));
    assert_eq!(db.balance_of(a), Ok(100));
}

#[test]
fn transfer_overflow_is_refused() {
    let (mut db, a, b) = two_accounts("USD", 100);
    db.deposit(b, i64::MAX as u64 - 10).unwrap();
    let before = balances(&db);
    assert_eq!(db.transfer(&fraud_checker(), a, b, 60, 0), Err(LedgerError::BalanceOverflow));
    assert_eq!(balances(&db), before);
}

#[test]
fn charge_account_as_sender_keeps_the_charge() {
    let mut db = UserDB::new();
    let b = db.create_account("USD").unwrap();
    db.deposit(1, 100).unwrap();
    assert_eq!(db.transfer(&fraud_checker(), 1, b, 60, 0), Ok(50));
    assert_eq!(db.balance_of(1), Ok(40));
    assert_eq!(db.balance_of(b), Ok(60));
}

#[test]
fn rate_limit_grows_then_resets() {
    let mut acct = UserAccount::new("USD").unwrap();
    assert_eq!(acct.record_attempt(0), 50);
    assert_eq!(acct.record_attempt(1_000), 100);
    assert_eq!(acct.record_attempt(2_000), 150);
    assert_eq!(acct.record_attempt(61_500), 100);
    assert_eq!(acct.recent_transfers(), &vec![2_000, 61_500]);
    assert_eq!(acct.record_attempt(200_000), 50);
    assert_eq!(acct.recent_transfers(), &vec![200_000]);
}

#[test]
fn rate_limit_is_capped() {
    let mut acct = UserAccount::new("EUR").unwrap();
    let mut last = 0;
    for i in 0..100u64 {
        let wait = acct.record_attempt(i);
        assert!(wait >= last);
        assert!(wait > last || wait == 4000);
        last = wait;
    }
    assert_eq!(last, 4000);
    assert_eq!(acct.recent_transfers().len(), 100);
}

#[test]
fn transfer_wait_counts_sender_attempts_only() {
    let (mut db, a, b) = two_accounts("EUR", 10_000);
    assert_eq!(db.transfer(&fraud_checker(), a, b, 50, 0), Ok(50));
    assert_eq!(db.transfer(&fraud_checker(), a, b, 50, 10), Ok(100));
    assert_eq!(db.transfer(&fraud_checker(), a, b, 50, 20), Ok(150));
    assert!(db.get(b).unwrap().recent_transfers().is_empty());
    assert_eq!(db.transfer(&fraud_checker(), a, b, 50, 100_000), Ok(50));
}

#[test]
fn fraud_checker_passes_accounts() {
    let acct = UserAccount::new("USD").unwrap();
    assert!(fraud_checker().check(&acct).is_none());
}
