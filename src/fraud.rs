use vstd::prelude::*;

use crate::account::UserAccount;

verus! {

/// Why the fraud check turned an account down.
#[derive(Debug)]
pub struct FraudError(pub String);

/// The verdict policy of the fraud coordinator.  It judges a snapshot of an
/// account; the account itself stays in the ledger while it is judged.
/// The policy in force passes every account.
#[derive(Debug, Clone, Copy)]
pub struct FraudChecker;

impl FraudChecker {
    /// The verdict on `acct`: `None` where the account may take part in a
    /// transfer.
    pub fn check(&self, acct: &UserAccount) -> (r: Option<FraudError>)
        ensures
            r is None,
    {
        None
    }
}

/// The policy that the coordinator applies.
pub fn fraud_checker() -> (r: FraudChecker) {
    FraudChecker
}

} // verus!
