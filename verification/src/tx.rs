use vstd::prelude::*;
use crate::amount::Amount;

verus! {

/// The five kinds of ledger events.
#[derive(Clone, Copy, Debug, PartialEq, Eq, Structural)]
pub enum TxKind {
    Deposit,
    Withdrawal,
    Dispute,
    Resolve,
    Chargeback,
}

/// The amount column of an incoming event, as handed over by the ingestion
/// layer. A deposit or withdrawal must carry a valid amount; dispute,
/// resolve and chargeback carry none and have their amount derived from the
/// referenced ledger entry. `Invalid` stands for an input the ingestion layer
/// could not represent as an [`Amount`] (such as a non-finite number).
#[derive(Clone, Copy, Debug, PartialEq, Eq, Structural)]
pub enum AmountField {
    Missing,
    Invalid,
    Value(Amount),
}

/// One already-parsed incoming event, in arrival order.
#[derive(Clone, Copy, Debug, PartialEq, Eq, Structural)]
pub struct Transaction {
    pub kind: TxKind,
    /// The client whose account the event targets.
    pub client: u16,
    /// Globally unique transaction id; for dispute, resolve and chargeback it
    /// references the deposit or withdrawal in question.
    pub tx: u32,
    pub amount: AmountField,
}

/// Why an event was rejected. Each error is scoped to its single event and
/// never aborts processing of subsequent events.
#[derive(Clone, Copy, Debug, PartialEq, Eq, Structural)]
pub enum TxError {
    /// A deposit or withdrawal carried an amount that could not be
    /// represented as a decimal value.
    InvalidAmount,
    /// A deposit or withdrawal reused an already-recorded transaction id.
    DuplicateTx,
    /// A dispute, resolve or chargeback referenced an id that was never
    /// recorded.
    UnknownReference,
    /// A deposit or withdrawal carried no amount.
    MissingAmount,
}

/// Why an event was deliberately ignored. No-ops are not errors: the caller
/// may log them, but nothing about the run is wrong.
#[derive(Clone, Copy, Debug, PartialEq, Eq, Structural)]
pub enum NoOpReason {
    /// The target account is locked by an earlier chargeback; every later
    /// event for that client is silently ignored.
    AccountLocked,
    /// A withdrawal asked for more than `available`; it is ignored and never
    /// recorded, so it can never be disputed later.
    InsufficientFunds,
    /// A resolve or chargeback referenced a transaction not currently under
    /// dispute.
    NotUnderDispute,
    /// A dispute referenced a transaction already under dispute.
    AlreadyUnderDispute,
    /// Applying the event would push a balance outside the representable
    /// range of [`Amount`]; the event is ignored rather than applied
    /// partially.
    BalanceOutOfRange,
}

/// What applying one event did.
#[derive(Clone, Copy, Debug, PartialEq, Eq, Structural)]
pub enum Outcome {
    /// Balances (and, for deposit/withdrawal, the ledger) were updated.
    Applied,
    /// The event was deliberately ignored; nothing changed.
    NoOp(NoOpReason),
    /// The event was ill-formed or referenced the wrong state; nothing
    /// changed beyond lazy account creation.
    Rejected(TxError),
}

} // verus!
