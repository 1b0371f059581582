//! An in-memory ledger of accounts in a small fixed catalogue of
//! currencies, with deposits and transfers.  A transfer passes an amount
//! floor and the balance and currency checks, counts towards the sender's
//! sliding-window rate limit, waits for a fraud verdict on both parties and
//! then moves the amount and the currency's percentage charge.

pub mod account;
pub mod currency;
pub mod fraud;
pub mod ledger;
