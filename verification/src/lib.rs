//! A small payments engine: it ingests a stream of ledger events (deposits,
//! withdrawals, disputes, resolves, chargebacks) keyed by client and globally
//! unique transaction id, and maintains per-client account balances through
//! the dispute lifecycle.
//!
//! Money is a fixed-precision decimal ([`amount::Amount`]), recorded
//! transaction facts live in a [`ledger::LedgerStore`], per-client balances in
//! an [`account::Account`], and [`processor::Processor`] applies one event at
//! a time, in arrival order, reporting a [`tx::Outcome`] for each.
//!
//! The transition relation itself is a specification function,
//! [`processor::Processor::spec_apply`], which the executable processor is
//! proved to implement exactly; [`laws`] states and proves the global
//! guarantees (balance consistency, frozen locked accounts, duplicate
//! rejection, exact round trips) on top of it.

pub mod account;
pub mod amount;
pub mod laws;
pub mod ledger;
pub mod processor;
pub mod tx;
