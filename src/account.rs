use vstd::prelude::*;

use crate::currency::{currency_named, lookup_currency, Currency};

verus! {

/// Attempts made within this many milliseconds count towards rate limiting.
pub const RATE_LIMIT_MILLIS: u64 = 60_000;

/// Each recent attempt adds this many milliseconds to the wait.
pub const MS_PER_REQ_RATE: u64 = 50;

/// The wait never exceeds this many milliseconds.
pub const MAX_WAIT_MILLIS: u64 = 4000;

/// Milliseconds from `t` to `now`; a time stamp that lies ahead of `now`
/// counts as no time at all.
pub open spec fn elapsed(now: u64, t: u64) -> int {
    if t <= now {
        now - t
    } else {
        0
    }
}

/// A time stamp that still lies inside the window ending at `now`.
pub open spec fn is_recent(now: u64, t: u64) -> bool {
    elapsed(now, t) < RATE_LIMIT_MILLIS
}

/// The attempts of `times` that still count at `now`, in their order.
pub open spec fn prune(times: Seq<u64>, now: u64) -> Seq<u64> {
    times.filter(|t: u64| is_recent(now, t))
}

/// The attempt history after one more attempt at `now`.
pub open spec fn after_attempt(times: Seq<u64>, now: u64) -> Seq<u64> {
    prune(times, now).push(now)
}

/// The wait owed when `n` attempts lie in the window.
pub open spec fn wait_for(n: int) -> int {
    if n * MS_PER_REQ_RATE > MAX_WAIT_MILLIS {
        MAX_WAIT_MILLIS as int
    } else {
        n * MS_PER_REQ_RATE
    }
}

/// What an account holds, as plain values.
pub struct AccountView {
    pub balance: int,
    pub currency: Currency,
    pub recent: Seq<u64>,
}

impl AccountView {
    /// The same account with its balance replaced by `balance`.
    pub open spec fn with_balance(self, balance: int) -> AccountView {
        AccountView { balance, ..self }
    }

    /// The same account with its attempt history replaced by `recent`.
    pub open spec fn with_recent(self, recent: Seq<u64>) -> AccountView {
        AccountView { recent, ..self }
    }

    /// The balance lies no further below zero than the currency allows.
    pub open spec fn within_overdraft(self) -> bool {
        self.balance >= -self.currency.spec_overdraft_limit()
    }
}

/// One ledger entry: a balance in base units of its currency (for example
/// cents), which may go below zero as far as the currency's overdraft limit
/// allows, and the times of its recent transfer attempts.
#[derive(Debug, Clone)]
pub struct UserAccount {
    balance: i64,
    currency: Currency,
    recent_transfers: Vec<u64>,
}

impl View for UserAccount {
    type V = AccountView;

    closed spec fn view(&self) -> AccountView {
        AccountView {
            balance: self.balance as int,
            currency: self.currency,
            recent: self.recent_transfers@,
        }
    }
}

proof fn lemma_prune_step(times: Seq<u64>, now: u64, i: int)
    requires
        0 <= i < times.len(),
    ensures
        prune(times.subrange(0, i + 1), now) == if is_recent(now, times[i]) {
            prune(times.subrange(0, i), now).push(times[i])
        } else {
            prune(times.subrange(0, i), now)
        },
{
    reveal(Seq::filter);
    assert(times.subrange(0, i + 1).drop_last() =~= times.subrange(0, i));
}

/// Pruning keeps a history whose entries all still count.
pub proof fn lemma_prune_all_recent(times: Seq<u64>, now: u64)
    requires
        forall|k: int| 0 <= k < times.len() ==> is_recent(now, #[trigger] times[k]),
    ensures
        prune(times, now) == times,
    decreases times.len(),
{
    reveal(Seq::filter);
    if times.len() > 0 {
        lemma_prune_all_recent(times.drop_last(), now);
        assert(times.drop_last().push(times.last()) =~= times);
    }
}

/// Pruning empties a history whose entries have all run out.
pub proof fn lemma_prune_none_recent(times: Seq<u64>, now: u64)
    requires
        forall|k: int| 0 <= k < times.len() ==> !is_recent(now, #[trigger] times[k]),
    ensures
        prune(times, now).len() == 0,
    decreases times.len(),
{
    reveal(Seq::filter);
    if times.len() > 0 {
        lemma_prune_none_recent(times.drop_last(), now);
    }
}

/// Within one window the wait only grows: where every attempt on record
/// after an attempt at `t1` still counts at `t2`, the attempt at `t2` owes
/// at least the wait of the one at `t1`, and more unless the cap is reached.
pub proof fn lemma_wait_grows_within_window(times: Seq<u64>, t1: u64, t2: u64)
    requires
        forall|k: int|
            0 <= k < after_attempt(times, t1).len() ==> is_recent(
                t2,
                #[trigger] after_attempt(times, t1)[k],
            ),
    ensures
        wait_for(after_attempt(after_attempt(times, t1), t2).len() as int) >= wait_for(
            after_attempt(times, t1).len() as int,
        ),
        wait_for(after_attempt(after_attempt(times, t1), t2).len() as int) > wait_for(
            after_attempt(times, t1).len() as int,
        ) || wait_for(after_attempt(after_attempt(times, t1), t2).len() as int)
            == MAX_WAIT_MILLIS,
{
    lemma_prune_all_recent(after_attempt(times, t1), t2);
}

/// Once a whole window has passed without attempts, the wait starts over
/// at the wait of a single attempt.
pub proof fn lemma_wait_resets_after_window(times: Seq<u64>, now: u64)
    requires
        forall|k: int| 0 <= k < times.len() ==> !is_recent(now, #[trigger] times[k]),
    ensures
        wait_for(after_attempt(times, now).len() as int) == MS_PER_REQ_RATE,
{
    lemma_prune_none_recent(times, now);
}

impl UserAccount {
    /// A fresh account in the client-visible currency named `currency`,
    /// with no money and no history; `None` where no such currency exists.
    pub fn new(currency: &str) -> (r: Option<UserAccount>)
        ensures
            r is Some <==> currency_named(currency@) is Some,
            r matches Some(a) ==> a@.balance == 0 && a@.recent.len() == 0 && Some(a@.currency)
                == currency_named(currency@),
    {
        match lookup_currency(currency) {
            Ok(cur) => Some(UserAccount { balance: 0, currency: cur, recent_transfers: Vec::new() }),
            Err(_) => None,
        }
    }

    /// An empty account in the internal placeholder currency.
    pub fn fakeacct() -> (r: UserAccount)
        ensures
            r@.balance == 0,
            r@.currency == Currency::Placeholder,
            r@.recent.len() == 0,
    {
        UserAccount { balance: 0, currency: Currency::Placeholder, recent_transfers: Vec::new() }
    }

    /// An empty account in `currency`.
    pub(crate) fn with_currency(currency: Currency) -> (r: UserAccount)
        ensures
            r@.balance == 0,
            r@.currency == currency,
            r@.recent.len() == 0,
    {
        UserAccount { balance: 0, currency, recent_transfers: Vec::new() }
    }

    /// A balance is always one that an `i64` holds.
    pub proof fn lemma_balance_fits(&self)
        ensures
            i64::MIN <= self@.balance <= i64::MAX,
    {
    }

    pub fn balance(&self) -> (r: i64)
        ensures
            r == self@.balance,
    {
        self.balance
    }

    pub fn currency(&self) -> (r: Currency)
        ensures
            r == self@.currency,
    {
        self.currency
    }

    /// Times of the attempts still on record, oldest first.
    pub fn recent_transfers(&self) -> (r: &Vec<u64>)
        ensures
            r@ == self@.recent,
    {
        &self.recent_transfers
    }

    /// Replaces the balance with `balance`.
    pub(crate) fn set_balance(&mut self, balance: i64)
        ensures
            final(self)@ == old(self)@.with_balance(balance as int),
    {
        self.balance = balance;
    }

    /// Counts a transfer attempt made at `now`: drops the attempts that
    /// have left the window, appends `now`, and returns the wait in
    /// milliseconds that the attempt owes, 50 per attempt in the window,
    /// at most 4000.  The balance and currency stay as they were.
    pub fn record_attempt(&mut self, now: u64) -> (wait: u64)
        ensures
            final(self)@ == old(self)@.with_recent(after_attempt(old(self)@.recent, now)),
            wait == wait_for(final(self)@.recent.len() as int),
    {
        let ghost times = self.recent_transfers@;
        let mut kept: Vec<u64> = Vec::new();
        let mut i: usize = 0;
        while i < self.recent_transfers.len()
            invariant
                self.recent_transfers@ == times,
                0 <= i <= times.len(),
                kept@ == prune(times.subrange(0, i as int), now),
            decreases times.len() - i,
        {
            let t = self.recent_transfers[i];
            proof {
                lemma_prune_step(times, now, i as int);
            }
            let age: u64 = if t <= now {
                now - t
            } else {
                0
            };
            if age < RATE_LIMIT_MILLIS {
                kept.push(t);
            }
            i = i + 1;
        }
        assert(times.subrange(0, times.len() as int) =~= times);
        proof {
            times.lemma_filter_len(|t: u64| is_recent(now, t));
        }
        kept.push(now);
        self.recent_transfers = kept;
        let n = self.recent_transfers.len();
        if n > (MAX_WAIT_MILLIS / MS_PER_REQ_RATE) as usize {
            MAX_WAIT_MILLIS
        } else {
            (n as u64) * MS_PER_REQ_RATE
        }
    }
}

} // verus!
