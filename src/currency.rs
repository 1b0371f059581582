use vstd::prelude::*;

verus! {

/// Smallest number of base units that a single transfer may move.
pub const MINIMUM_TRANSFER_AMOUNT: u64 = 50;

/// Ledger slot of the placeholder account, which also collects the
/// (never applied) charges of the placeholder currency.
pub const PLACEHOLDER_CHARGE_ACCT: usize = 0;

/// Ledger slot that receives the charges on USD transfers.
pub const USD_CHARGE_ACCT: usize = 1;

/// Ledger slot that receives the charges on EUR transfers.
pub const EUR_CHARGE_ACCT: usize = 2;

/// Ledger slot that receives the charges on GBP transfers.
pub const GBP_CHARGE_ACCT: usize = 3;

/// An entry of the fixed currency catalogue.  Two currencies are the same
/// exactly when they are the same catalogue entry, whatever their names.
///
/// `Placeholder` is internal: `lookup_currency` never returns it, so no
/// account that a client creates can hold it.
#[derive(Clone, Copy, Debug, PartialEq, Eq, Structural)]
pub enum Currency {
    Placeholder,
    Usd,
    Eur,
    Gbp,
}

/// The metadata that the catalogue holds for one currency.
#[derive(Clone, Copy, Debug)]
pub struct CurrencyDetail {
    /// Name under which clients ask for the currency.
    pub name: &'static str,
    /// How far below zero a balance in this currency may be taken.
    pub overdraft_limit: u64,
    /// Charge on a transfer, as a whole percentage of the amount.
    pub transfer_charge: u64,
    /// Ledger slot that receives the charges.
    pub transfer_charge_account: usize,
}

/// A currency name that is not in the catalogue.
#[derive(Clone, Copy, Debug, PartialEq, Eq, Structural)]
pub struct CurrencyError;

/// `a / b` rounded up, for a positive `b`.
pub open spec fn ceil_div(a: int, b: int) -> int
    recommends
        b > 0,
{
    (a + b - 1) / b
}

/// What a transfer of `amount` costs at a charge of `percent` per cent:
/// the exact fraction, rounded up to a whole unit.
pub open spec fn charge_for(percent: int, amount: int) -> int {
    ceil_div(percent * amount, 100)
}

impl Currency {
    pub open spec fn spec_overdraft_limit(self) -> int {
        match self {
            Currency::Placeholder => 0,
            Currency::Usd => 5,
            Currency::Eur => 10,
            Currency::Gbp => 10,
        }
    }

    pub open spec fn spec_charge_percent(self) -> int {
        match self {
            Currency::Placeholder => 0,
            Currency::Usd => 2,
            Currency::Eur => 1,
            Currency::Gbp => 1,
        }
    }

    pub open spec fn spec_charge_account(self) -> int {
        match self {
            Currency::Placeholder => PLACEHOLDER_CHARGE_ACCT as int,
            Currency::Usd => USD_CHARGE_ACCT as int,
            Currency::Eur => EUR_CHARGE_ACCT as int,
            Currency::Gbp => GBP_CHARGE_ACCT as int,
        }
    }

    pub open spec fn spec_name(self) -> Seq<char> {
        match self {
            Currency::Placeholder => "FAKE"@,
            Currency::Usd => "USD"@,
            Currency::Eur => "EUR"@,
            Currency::Gbp => "GBP"@,
        }
    }

    /// The charge on a transfer of `amount` in this currency.
    pub open spec fn spec_charge(self, amount: int) -> int {
        charge_for(self.spec_charge_percent(), amount)
    }

    /// The catalogue entry of this currency.
    pub fn detail(self) -> (r: CurrencyDetail)
        ensures
            r.name@ == self.spec_name(),
            r.overdraft_limit == self.spec_overdraft_limit(),
            r.transfer_charge == self.spec_charge_percent(),
            r.transfer_charge_account == self.spec_charge_account(),
    {
        match self {
            Currency::Placeholder => CurrencyDetail {
                name: "FAKE",
                overdraft_limit: 0,
                transfer_charge: 0,
                transfer_charge_account: PLACEHOLDER_CHARGE_ACCT,
            },
            Currency::Usd => CurrencyDetail {
                name: "USD",
                overdraft_limit: 5,
                transfer_charge: 2,
                transfer_charge_account: USD_CHARGE_ACCT,
            },
            Currency::Eur => CurrencyDetail {
                name: "EUR",
                overdraft_limit: 10,
                transfer_charge: 1,
                transfer_charge_account: EUR_CHARGE_ACCT,
            },
            Currency::Gbp => CurrencyDetail {
                name: "GBP",
                overdraft_limit: 10,
                transfer_charge: 1,
                transfer_charge_account: GBP_CHARGE_ACCT,
            },
        }
    }

    /// How far below zero an account in this currency may go.
    pub fn overdraft_limit(self) -> (r: u64)
        ensures
            r == self.spec_overdraft_limit(),
    {
        self.detail().overdraft_limit
    }

    /// The ledger slot that collects this currency's transfer charges.
    pub fn charge_account(self) -> (r: usize)
        ensures
            r == self.spec_charge_account(),
    {
        self.detail().transfer_charge_account
    }

    /// The charge on a transfer of `amount`: the currency's percentage of
    /// it, rounded up so that the operator never absorbs a fraction.
    pub fn charge(self, amount: u64) -> (r: u64)
        ensures
            r == self.spec_charge(amount as int),
            r <= amount,
    {
        let pct = self.detail().transfer_charge as u128;
        let amt = amount as u128;
        assert(pct * amt <= 2 * amt) by (nonlinear_arith)
            requires
                pct <= 2,
        ;
        let scaled: u128 = pct * amt + 99;
        let r = scaled / 100;
        assert(r <= amount) by (nonlinear_arith)
            requires
                r == scaled / 100,
                scaled <= 2 * amt + 99,
                amt == amount,
        ;
        r as u64
    }
}

/// The catalogue entry that clients may ask for under `name`, if any.
pub open spec fn currency_named(name: Seq<char>) -> Option<Currency> {
    if name == "USD"@ {
        Some(Currency::Usd)
    } else if name == "EUR"@ {
        Some(Currency::Eur)
    } else if name == "GBP"@ {
        Some(Currency::Gbp)
    } else {
        None
    }
}

fn same_text(a: &String, b: &str) -> (r: bool)
    ensures
        r == (a@ == b@),
{
    let b = b.to_owned();
    *a == b
}

/// Finds the client-visible catalogue entry named `currency_name`.
pub fn lookup_currency(currency_name: &str) -> (r: Result<Currency, CurrencyError>)
    ensures
        r matches Ok(c) ==> currency_named(currency_name@) == Some(c) && c
            != Currency::Placeholder,
        r is Err <==> currency_named(currency_name@) is None,
{
    let name = currency_name.to_owned();
    if same_text(&name, "USD") {
        Ok(Currency::Usd)
    } else if same_text(&name, "EUR") {
        Ok(Currency::Eur)
    } else if same_text(&name, "GBP") {
        Ok(Currency::Gbp)
    } else {
        Err(CurrencyError)
    }
}

} // verus!
