use vstd::prelude::*;

use crate::account::{
    after_attempt, is_recent, lemma_prune_none_recent, lemma_wait_grows_within_window, wait_for,
    AccountView, UserAccount, MAX_WAIT_MILLIS, MS_PER_REQ_RATE,
};
use crate::currency::{currency_named, Currency, MINIMUM_TRANSFER_AMOUNT};
use crate::fraud::{FraudChecker, FraudError};

verus! {

/// The ways in which a ledger operation can be turned down.  None of them
/// changes a balance.
#[derive(Clone, Copy, Debug, PartialEq, Eq, Structural)]
pub enum LedgerError {
    /// The currency name is not in the catalogue.
    InvalidCurrency,
    /// An account id names no account.
    AccountNotFound,
    /// The sender's balance and overdraft together do not cover the amount,
    /// or, between accounts of one currency, the amount and its charge.
    InsufficientBalance,
    /// Sender and receiver hold different currencies.
    CurrencyMismatch,
    /// The amount is below the minimum transfer.
    BelowMinimumTransfer,
    /// The fraud check turned down one of the parties.
    FraudRejected,
    /// The same account was named as both parties of a transfer.
    DuplicateAccountId,
    /// A balance would leave the range of a 64-bit signed integer.
    BalanceOverflow,
}

/// A value that a balance can hold.
pub open spec fn fits_i64(x: int) -> bool {
    i64::MIN <= x <= i64::MAX
}

/// The charge that a transfer of `amount` out of `s[from]` carries.
pub open spec fn charge_of(s: Seq<AccountView>, from: int, amount: int) -> int {
    s[from].currency.spec_charge(amount)
}

/// The sender's balance after it pays `amount` and the charge.
pub open spec fn debited(s: Seq<AccountView>, from: int, amount: int) -> Seq<AccountView> {
    s.update(from, s[from].with_balance(s[from].balance - amount - charge_of(s, from, amount)))
}

/// The receiver's balance after it is paid `amount`.
pub open spec fn credited(s: Seq<AccountView>, from: int, to: int, amount: int) -> Seq<
    AccountView,
> {
    let s1 = debited(s, from, amount);
    s1.update(to, s1[to].with_balance(s1[to].balance + amount))
}

/// The ledger after a committed transfer: the sender pays the amount and
/// the charge, the receiver gets the amount, and then the currency's charge
/// account gets the charge.  The three updates apply in this order, so an
/// account that is both a party and the charge account sees both.
pub open spec fn committed(s: Seq<AccountView>, from: int, to: int, amount: int) -> Seq<
    AccountView,
> {
    let ca = s[from].currency.spec_charge_account();
    let s2 = credited(s, from, to, amount);
    s2.update(ca, s2[ca].with_balance(s2[ca].balance + charge_of(s, from, amount)))
}

/// Every balance that a committed transfer passes through fits in an `i64`.
pub open spec fn commit_fits(s: Seq<AccountView>, from: int, to: int, amount: int) -> bool {
    let ca = s[from].currency.spec_charge_account();
    &&& fits_i64(debited(s, from, amount)[from].balance)
    &&& fits_i64(credited(s, from, to, amount)[to].balance)
    &&& fits_i64(committed(s, from, to, amount)[ca].balance)
}

/// The ledger after the sender's attempt at `now` is on record.
pub open spec fn attempted(s: Seq<AccountView>, from: int, now: u64) -> Seq<AccountView> {
    s.update(from, s[from].with_recent(after_attempt(s[from].recent, now)))
}

/// Why a transfer of `amount` from `from` to `to` is turned down before any
/// fraud check, checked in this order; `None` where it may go ahead.
pub open spec fn transfer_rejection(s: Seq<AccountView>, from: int, to: int, amount: int) -> Option<
    LedgerError,
> {
    if amount < MINIMUM_TRANSFER_AMOUNT {
        Some(LedgerError::BelowMinimumTransfer)
    } else if from == to {
        Some(LedgerError::DuplicateAccountId)
    } else if !(0 <= from < s.len() && 0 <= to < s.len()) {
        Some(LedgerError::AccountNotFound)
    } else if s[from].balance + s[from].currency.spec_overdraft_limit() < amount {
        Some(LedgerError::InsufficientBalance)
    } else if s[from].currency != s[to].currency {
        Some(LedgerError::CurrencyMismatch)
    } else if !covers_with_charge(s, from, amount) {
        Some(LedgerError::InsufficientBalance)
    } else if !commit_fits(s, from, to, amount) {
        Some(LedgerError::BalanceOverflow)
    } else {
        None
    }
}

/// Every account lies within its currency's overdraft limit.
pub open spec fn all_within_overdraft(s: Seq<AccountView>) -> bool {
    forall|i: int| 0 <= i < s.len() ==> (#[trigger] s[i]).within_overdraft()
}

/// The sender's balance and overdraft cover the amount and the charge
/// together.
pub open spec fn covers_with_charge(s: Seq<AccountView>, from: int, amount: int) -> bool {
    s[from].balance + s[from].currency.spec_overdraft_limit() >= amount + charge_of(s, from, amount)
}

/// An amount below the minimum is turned down as such, whatever the
/// accounts and their balances and currencies.
pub proof fn lemma_below_minimum_rejected(s: Seq<AccountView>, from: int, to: int, amount: int)
    requires
        amount < MINIMUM_TRANSFER_AMOUNT,
    ensures
        transfer_rejection(s, from, to, amount) == Some(LedgerError::BelowMinimumTransfer),
{
}

/// Recording an attempt changes no balance or currency, so it changes no
/// verdict of the checks before the fraud check, nor what a commit does to
/// the balances.
pub proof fn lemma_attempt_keeps_rejection(s: Seq<AccountView>, from: int, to: int, amount: int, now: u64)
    requires
        0 <= from < s.len(),
        s.len() >= 4,
    ensures
        transfer_rejection(attempted(s, from, now), from, to, amount) == transfer_rejection(
            s,
            from,
            to,
            amount,
        ),
{
    let t = attempted(s, from, now);
    assert(t.len() == s.len());
    assert(forall|i: int|
        0 <= i < s.len() ==> (#[trigger] t[i]).balance == s[i].balance && t[i].currency
            == s[i].currency);
    if 0 <= to < s.len() && from != to {
        let ca = s[from].currency.spec_charge_account();
        assert(debited(t, from, amount)[from].balance == debited(s, from, amount)[from].balance);
        assert(credited(t, from, to, amount)[to].balance == credited(s, from, to, amount)[to].balance);
        assert(committed(t, from, to, amount)[ca].balance == committed(
            s,
            from,
            to,
            amount,
        )[ca].balance);
    }
}

/// A committed transfer moves exactly the amount and the charge: where the
/// charge account is neither party, the sender loses the amount and the
/// charge, the receiver gains the amount, the charge account gains the
/// charge, and every other account stays as it was.
pub proof fn lemma_committed_balances(s: Seq<AccountView>, from: int, to: int, amount: int)
    requires
        transfer_rejection(s, from, to, amount) is None,
        s[from].currency.spec_charge_account() != from,
        s[from].currency.spec_charge_account() != to,
        s.len() >= 4,
    ensures
        ({
            let t = committed(s, from, to, amount);
            let ca = s[from].currency.spec_charge_account();
            let charge = s[from].currency.spec_charge(amount);
            &&& t.len() == s.len()
            &&& t[from].balance == s[from].balance - amount - charge
            &&& t[to].balance == s[to].balance + amount
            &&& t[ca].balance == s[ca].balance + charge
            &&& forall|i: int| 0 <= i < s.len() && i != from && i != to && i != ca ==> #[trigger] t[i] == s[i]
        }),
{
}

/// A transfer that passes the checks keeps every account within its
/// overdraft limit: the sender's balance and overdraft cover the amount and
/// the charge, and the other two updates only add.
pub proof fn lemma_commit_within_overdraft(s: Seq<AccountView>, from: int, to: int, amount: int)
    requires
        transfer_rejection(s, from, to, amount) is None,
        all_within_overdraft(s),
        0 <= s[from].currency.spec_charge_account() < s.len(),
    ensures
        all_within_overdraft(committed(s, from, to, amount)),
{
    let t = committed(s, from, to, amount);
    assert(charge_of(s, from, amount) >= 0) by (nonlinear_arith)
        requires
            amount >= 0,
            s[from].currency.spec_charge_percent() >= 0,
            charge_of(s, from, amount) == (s[from].currency.spec_charge_percent() * amount + 99) / 100,
    ;
    assert forall|i: int| 0 <= i < t.len() implies (#[trigger] t[i]).within_overdraft() by {
        assert(s[i].within_overdraft());
    }
}

/// A commit changes balances only: every account keeps its currency and
/// its attempt history.
pub proof fn lemma_committed_keeps_history(s: Seq<AccountView>, from: int, to: int, amount: int)
    requires
        transfer_rejection(s, from, to, amount) is None,
        s.len() >= 4,
    ensures
        committed(s, from, to, amount).len() == s.len(),
        forall|i: int|
            0 <= i < s.len() ==> (#[trigger] committed(s, from, to, amount)[i]).recent == s[i].recent
                && committed(s, from, to, amount)[i].currency == s[i].currency,
{
}

/// Two transfers from one sender within one window: where the first passes
/// its checks at `t1` and every attempt then on record still counts at
/// `t2`, the transfer at `t2` owes at least the first one's wait, and more
/// unless the cap is reached.  The receiver's history plays no part.
pub proof fn lemma_transfer_waits_grow(
    s: Seq<AccountView>,
    from: int,
    to: int,
    amount: int,
    t1: u64,
    t2: u64,
)
    requires
        s.len() >= 4,
        transfer_rejection(s, from, to, amount) is None,
        forall|k: int|
            0 <= k < after_attempt(s[from].recent, t1).len() ==> is_recent(
                t2,
                #[trigger] after_attempt(s[from].recent, t1)[k],
            ),
    ensures
        ({
            let s1 = committed(attempted(s, from, t1), from, to, amount);
            let w1 = wait_for(after_attempt(s[from].recent, t1).len() as int);
            let w2 = wait_for(after_attempt(s1[from].recent, t2).len() as int);
            &&& w2 >= w1
            &&& w2 > w1 || w2 == MAX_WAIT_MILLIS
        }),
{
    lemma_attempt_keeps_rejection(s, from, to, amount, t1);
    lemma_committed_keeps_history(attempted(s, from, t1), from, to, amount);
    lemma_wait_grows_within_window(s[from].recent, t1, t2);
}

/// A sender with no attempt inside the window before `now` starts over: a
/// transfer that passes its checks leaves `now` as the sender's only
/// attempt on record and owes the wait of a single attempt, and the
/// receiver's history stays as it was.
pub proof fn lemma_transfer_resets_after_window(
    s: Seq<AccountView>,
    from: int,
    to: int,
    amount: int,
    now: u64,
)
    requires
        s.len() >= 4,
        transfer_rejection(s, from, to, amount) is None,
        forall|k: int|
            0 <= k < s[from].recent.len() ==> !is_recent(now, #[trigger] s[from].recent[k]),
    ensures
        attempted(s, from, now)[from].recent == seq![now],
        attempted(s, from, now)[to].recent == s[to].recent,
        wait_for(after_attempt(s[from].recent, now).len() as int) == MS_PER_REQ_RATE,
{
    lemma_prune_none_recent(s[from].recent, now);
    assert(after_attempt(s[from].recent, now) =~= seq![now]);
}

/// A shortfall that the overdraft covers: between two distinct accounts of
/// one currency, an amount of at least the minimum whose charge the
/// sender's balance and overdraft cover passes the checks (balances staying
/// representable), and the sender ends no lower than its overdraft limit.
pub proof fn lemma_overdraft_covers(s: Seq<AccountView>, from: int, to: int, amount: int)
    requires
        s.len() >= 4,
        0 <= from < s.len(),
        0 <= to < s.len(),
        from != to,
        amount >= MINIMUM_TRANSFER_AMOUNT,
        s[from].currency == s[to].currency,
        covers_with_charge(s, from, amount),
        commit_fits(s, from, to, amount),
        s[from].currency.spec_charge_account() != from,
    ensures
        transfer_rejection(s, from, to, amount) is None,
        committed(s, from, to, amount)[from].balance == s[from].balance - amount - charge_of(
            s,
            from,
            amount,
        ),
        committed(s, from, to, amount)[from].balance >= -s[from].currency.spec_overdraft_limit(),
{
}

/// The store of all accounts.  An account's id is its place in the store;
/// accounts are only ever added.  The first four places hold the
/// placeholder account and the charge accounts of the catalogue.
pub struct UserDB {
    accts: Vec<UserAccount>,
}

impl View for UserDB {
    type V = Seq<AccountView>;

    closed spec fn view(&self) -> Seq<AccountView> {
        self.accts@.map_values(|a: UserAccount| a@)
    }
}

impl UserDB {
    /// Every charge account of the catalogue exists, and every balance is
    /// one that an `i64` holds.
    pub open spec fn wf(&self) -> bool {
        &&& self@.len() >= 4
        &&& forall|i: int| 0 <= i < self@.len() ==> fits_i64(#[trigger] self@[i].balance)
    }

    /// A store that holds just the placeholder account and the empty
    /// charge accounts of USD, EUR and GBP, in that order.
    pub fn new() -> (r: UserDB)
        ensures
            r.wf(),
            r@.len() == 4,
            r@[0].currency == Currency::Placeholder,
            r@[1].currency == Currency::Usd,
            r@[2].currency == Currency::Eur,
            r@[3].currency == Currency::Gbp,
            forall|i: int| 0 <= i < 4 ==> (#[trigger] r@[i]).balance == 0 && r@[i].recent.len() == 0,
            all_within_overdraft(r@),
    {
        let mut accts: Vec<UserAccount> = Vec::new();
        accts.push(UserAccount::fakeacct());
        accts.push(UserAccount::with_currency(Currency::Usd));
        accts.push(UserAccount::with_currency(Currency::Eur));
        accts.push(UserAccount::with_currency(Currency::Gbp));
        let r = UserDB { accts };
        assert(r@.len() == 4);
        r
    }

    /// Number of accounts in the store.
    pub fn len(&self) -> (r: usize)
        ensures
            r == self@.len(),
    {
        self.accts.len()
    }

    /// Appends `acct` and returns its id.
    pub fn addacct(&mut self, acct: UserAccount) -> (id: usize)
        requires
            old(self).wf(),
        ensures
            final(self).wf(),
            id == old(self)@.len(),
            final(self)@ == old(self)@.push(acct@),
    {
        proof {
            acct.lemma_balance_fits();
        }
        let id = self.accts.len();
        self.accts.push(acct);
        assert(self@ =~= old(self)@.push(acct@));
        id
    }

    /// The account with id `id`, if there is one.
    pub fn get(&self, id: usize) -> (r: Option<&UserAccount>)
        ensures
            r is Some <==> id < self@.len(),
            r matches Some(a) ==> a@ == self@[id as int],
    {
        if id < self.accts.len() {
            Some(&self.accts[id])
        } else {
            None
        }
    }

    /// The account with id `id`, if there is one, to change in place.
    pub fn get_mut(&mut self, id: usize) -> (r: Option<&mut UserAccount>)
        ensures
            r is Some <==> id < old(self)@.len(),
            r matches Some(a) ==> a@ == old(self)@[id as int] && final(self)@ == old(self)@.update(
                id as int,
                final(a)@,
            ),
            r is None ==> final(self)@ == old(self)@,
    {
        if id < self.accts.len() {
            Some(&mut self.accts[id])
        } else {
            None
        }
    }

    /// The accounts with ids `id1` and `id2`, each if there is one, to
    /// change in place side by side.  Asking twice for the same account is
    /// a caller's mistake and is ruled out.
    pub fn get2_mut(&mut self, id1: usize, id2: usize) -> (r: (
        Option<&mut UserAccount>,
        Option<&mut UserAccount>,
    ))
        requires
            id1 != id2,
        ensures
            r.0 is Some <==> id1 < old(self)@.len(),
            r.1 is Some <==> id2 < old(self)@.len(),
            r.0 matches Some(a) ==> a@ == old(self)@[id1 as int],
            r.1 matches Some(b) ==> b@ == old(self)@[id2 as int],
            final(self)@ == ({
                let s1 = if r.0 is Some {
                    old(self)@.update(id1 as int, final(r.0.unwrap())@)
                } else {
                    old(self)@
                };
                if r.1 is Some {
                    s1.update(id2 as int, final(r.1.unwrap())@)
                } else {
                    s1
                }
            }),
    {
        let len = self.accts.len();
        if id1 < len && id2 < len {
            let lo_id = if id1 < id2 { id1 } else { id2 };
            let hi_id = if id1 < id2 { id2 } else { id1 };
            let (lo, hi) = self.accts.split_at_mut(hi_id);
            let (_, mid) = lo.split_at_mut(lo_id);
            let lo_ref = mid.first_mut();
            let hi_ref = hi.first_mut();
            if id1 < id2 {
                (lo_ref, hi_ref)
            } else {
                (hi_ref, lo_ref)
            }
        } else if id1 < len {
            (Some(&mut self.accts[id1]), None)
        } else if id2 < len {
            (None, Some(&mut self.accts[id2]))
        } else {
            (None, None)
        }
    }

    /// Opens an empty account in the client-visible currency named
    /// `currency` and returns its id.
    pub fn create_account(&mut self, currency: &str) -> (r: Result<usize, LedgerError>)
        requires
            old(self).wf(),
        ensures
            final(self).wf(),
            currency_named(currency@) is None ==> r == Err::<usize, LedgerError>(
                LedgerError::InvalidCurrency,
            ) && final(self)@ == old(self)@,
            currency_named(currency@) matches Some(c) ==> r == Ok::<usize, LedgerError>(
                old(self)@.len() as usize,
            ) && final(self)@ == old(self)@.push(
                AccountView { balance: 0, currency: c, recent: Seq::empty() },
            ),
            r is Ok ==> final(self)@.last().currency != Currency::Placeholder,
            all_within_overdraft(old(self)@) ==> all_within_overdraft(final(self)@),
    {
        match UserAccount::new(currency) {
            Some(acct) => {
                assert(acct@.recent =~= Seq::<u64>::empty());
                Ok(self.addacct(acct))
            },
            None => Err(LedgerError::InvalidCurrency),
        }
    }

    /// The balance of account `id`.
    pub fn balance_of(&self, id: usize) -> (r: Result<i64, LedgerError>)
        ensures
            id < self@.len() ==> r == Ok::<i64, LedgerError>(self@[id as int].balance as i64),
            id >= self@.len() ==> r == Err::<i64, LedgerError>(LedgerError::AccountNotFound),
    {
        match self.get(id) {
            Some(a) => Ok(a.balance()),
            None => Err(LedgerError::AccountNotFound),
        }
    }

    /// Adds `amount` to the balance of account `id`.
    pub fn deposit(&mut self, id: usize, amount: u64) -> (r: Result<(), LedgerError>)
        requires
            old(self).wf(),
        ensures
            final(self).wf(),
            id >= old(self)@.len() ==> r == Err::<(), LedgerError>(LedgerError::AccountNotFound)
                && final(self)@ == old(self)@,
            id < old(self)@.len() && !fits_i64(old(self)@[id as int].balance + amount) ==> r == Err::<
                (),
                LedgerError,
            >(LedgerError::BalanceOverflow) && final(self)@ == old(self)@,
            id < old(self)@.len() && fits_i64(old(self)@[id as int].balance + amount) ==> r is Ok
                && final(self)@ == old(self)@.update(
                id as int,
                old(self)@[id as int].with_balance(old(self)@[id as int].balance + amount),
            ),
            all_within_overdraft(old(self)@) ==> all_within_overdraft(final(self)@),
    {
        match self.get_mut(id) {
            Some(a) => {
                let sum: i128 = a.balance() as i128 + amount as i128;
                if sum > i64::MAX as i128 {
                    Err(LedgerError::BalanceOverflow)
                } else {
                    a.set_balance(sum as i64);
                    Ok(())
                }
            },
            None => Err(LedgerError::AccountNotFound),
        }
    }

    /// Whether every balance that a transfer from `from` to `to` passes
    /// through fits in an `i64`.
    fn commit_fits_exec(&self, from: usize, to: usize, amount: u64) -> (r: bool)
        requires
            self.wf(),
            from != to,
            from < self@.len(),
            to < self@.len(),
        ensures
            r == commit_fits(self@, from as int, to as int, amount as int),
    {
        let cur = self.accts[from].currency();
        let charge = cur.charge(amount) as i128;
        let ca = cur.charge_account();
        assert(self@[from as int] == self.accts@[from as int]@);
        assert(self@[to as int] == self.accts@[to as int]@);
        assert(self@[ca as int] == self.accts@[ca as int]@);
        let v1: i128 = self.accts[from].balance() as i128 - amount as i128 - charge;
        let v2: i128 = self.accts[to].balance() as i128 + amount as i128;
        let base: i128 = if ca == to {
            v2
        } else if ca == from {
            v1
        } else {
            self.accts[ca].balance() as i128
        };
        let v3: i128 = base + charge;
        let lo = i64::MIN as i128;
        let hi = i64::MAX as i128;
        lo <= v1 && v1 <= hi && lo <= v2 && v2 <= hi && lo <= v3 && v3 <= hi
    }

    /// Replaces the balance of account `id` with `balance`.
    fn set_balance_of(&mut self, id: usize, balance: i64)
        requires
            id < old(self)@.len(),
        ensures
            final(self)@ == old(self)@.update(id as int, old(self)@[id as int].with_balance(balance as int)),
    {
        match self.get_mut(id) {
            Some(a) => a.set_balance(balance),
            None => {},
        }
    }

    /// The checks that come before the fraud check, and the sender's rate
    /// limit.  The amount floor comes first and looks at nothing else; then
    /// both ids must differ and name accounts, the sender's balance and
    /// overdraft must cover the amount, the currencies must agree, the
    /// balance and overdraft must also cover the charge, and the balances
    /// must stay representable.  On success the sender's attempt at
    /// `now` is on record and the result is the wait in milliseconds that the
    /// transfer owes before it may commit.  No balance changes here.
    pub fn begin_transfer(&mut self, from: usize, to: usize, amount: u64, now: u64) -> (r: Result<
        u64,
        LedgerError,
    >)
        requires
            old(self).wf(),
        ensures
            final(self).wf(),
            transfer_rejection(old(self)@, from as int, to as int, amount as int) matches Some(e)
                ==> r == Err::<u64, LedgerError>(e) && final(self)@ == old(self)@,
            transfer_rejection(old(self)@, from as int, to as int, amount as int) is None ==> {
                &&& final(self)@ == attempted(old(self)@, from as int, now)
                &&& r == Ok::<u64, LedgerError>(
                    wait_for(after_attempt(old(self)@[from as int].recent, now).len() as int) as u64,
                )
            },
            all_within_overdraft(old(self)@) ==> all_within_overdraft(final(self)@),
    {
        if amount < MINIMUM_TRANSFER_AMOUNT {
            return Err(LedgerError::BelowMinimumTransfer);
        }
        if from == to {
            return Err(LedgerError::DuplicateAccountId);
        }
        let checked: Result<(), LedgerError> = match self.get2_mut(from, to) {
            (Some(acct_from), Some(acct_to)) => {
                let cur = acct_from.currency();
                let charge = cur.charge(amount);
                let cover = (acct_from.balance() as i128) + (cur.overdraft_limit() as i128);
                if cover < amount as i128 {
                    Err(LedgerError::InsufficientBalance)
                } else if cur != acct_to.currency() {
                    Err(LedgerError::CurrencyMismatch)
                } else if cover < (amount as i128) + (charge as i128) {
                    Err(LedgerError::InsufficientBalance)
                } else {
                    Ok(())
                }
            },
            _ => Err(LedgerError::AccountNotFound),
        };
        if let Err(e) = checked {
            return Err(e);
        }
        if !self.commit_fits_exec(from, to, amount) {
            return Err(LedgerError::BalanceOverflow);
        }
        match self.get_mut(from) {
            Some(a) => Ok(a.record_attempt(now)),
            None => Err(LedgerError::AccountNotFound),
        }
    }

    /// The fraud verdicts on both parties, then the commit.  A verdict
    /// against either party turns the transfer down with nothing changed;
    /// otherwise the sender pays the amount and the charge, the receiver
    /// gets the amount and the currency's charge account gets the charge.
    pub fn finish_transfer(
        &mut self,
        from: usize,
        to: usize,
        amount: u64,
        from_verdict: Option<FraudError>,
        to_verdict: Option<FraudError>,
    ) -> (r: Result<(), LedgerError>)
        requires
            old(self).wf(),
            transfer_rejection(old(self)@, from as int, to as int, amount as int) is None,
        ensures
            final(self).wf(),
            from_verdict is Some || to_verdict is Some ==> r == Err::<(), LedgerError>(
                LedgerError::FraudRejected,
            ) && final(self)@ == old(self)@,
            from_verdict is None && to_verdict is None ==> r is Ok && final(self)@ == committed(
                old(self)@,
                from as int,
                to as int,
                amount as int,
            ),
            all_within_overdraft(old(self)@) ==> all_within_overdraft(final(self)@),
    {
        proof {
            if all_within_overdraft(old(self)@) {
                lemma_commit_within_overdraft(old(self)@, from as int, to as int, amount as int);
            }
        }
        if from_verdict.is_some() || to_verdict.is_some() {
            return Err(LedgerError::FraudRejected);
        }
        let cur = self.accts[from].currency();
        let charge = cur.charge(amount);
        let ca = cur.charge_account();
        assert(self@[from as int] == self.accts@[from as int]@);
        let v1: i128 = self.accts[from].balance() as i128 - amount as i128 - charge as i128;
        self.set_balance_of(from, v1 as i64);
        assert(self@[to as int] == self.accts@[to as int]@);
        let v2: i128 = self.accts[to].balance() as i128 + amount as i128;
        self.set_balance_of(to, v2 as i64);
        assert(self@[ca as int] == self.accts@[ca as int]@);
        let v3: i128 = self.accts[ca].balance() as i128 + charge as i128;
        self.set_balance_of(ca, v3 as i64);
        Ok(())
    }

    /// A whole transfer in one call, with `checker` judging both parties
    /// after the sender's attempt at `now` is on record.  Returns the wait
    /// in milliseconds that the sender's rate limit asks for.
    pub fn transfer(&mut self, checker: &FraudChecker, from: usize, to: usize, amount: u64, now: u64) -> (r:
        Result<u64, LedgerError>)
        requires
            old(self).wf(),
        ensures
            final(self).wf(),
            transfer_rejection(old(self)@, from as int, to as int, amount as int) matches Some(e)
                ==> r == Err::<u64, LedgerError>(e) && final(self)@ == old(self)@,
            transfer_rejection(old(self)@, from as int, to as int, amount as int) is None ==> {
                &&& final(self)@ == committed(
                    attempted(old(self)@, from as int, now),
                    from as int,
                    to as int,
                    amount as int,
                )
                &&& r == Ok::<u64, LedgerError>(
                    wait_for(after_attempt(old(self)@[from as int].recent, now).len() as int) as u64,
                )
            },
            all_within_overdraft(old(self)@) ==> all_within_overdraft(final(self)@),
    {
        let wait = match self.begin_transfer(from, to, amount, now) {
            Ok(w) => w,
            Err(e) => return Err(e),
        };
        proof {
            lemma_attempt_keeps_rejection(old(self)@, from as int, to as int, amount as int, now);
        }
        let from_verdict = match self.get(from) {
            Some(a) => checker.check(a),
            None => None,
        };
        let to_verdict = match self.get(to) {
            Some(a) => checker.check(a),
            None => None,
        };
        match self.finish_transfer(from, to, amount, from_verdict, to_verdict) {
            Ok(()) => Ok(wait),
            Err(e) => Err(e),
        }
    }
}

} // verus!
