use vstd::prelude::*;
use std::collections::HashMap;
use crate::amount::Amount;
use crate::tx::{TxError, TxKind};

verus! {

broadcast use vstd::std_specs::hash::group_hash_axioms;

/// The facts recorded about one deposit or withdrawal, looked up later by
/// dispute, resolve and chargeback events.
#[derive(Clone, Copy, Debug, PartialEq, Eq, Structural)]
pub struct TxRecord {
    /// Always `Deposit` or `Withdrawal`: only those two kinds ever become
    /// lookupable ledger facts.
    pub kind: TxKind,
    /// The client the recorded transaction belonged to.
    pub client: u16,
    /// The recorded amount, already validated and exact.
    pub amount: Amount,
    /// True while a dispute on this transaction is open; set by a dispute,
    /// cleared again by the resolve or chargeback that closes it.
    pub under_dispute: bool,
}

/// The append-mostly map from transaction id to recorded facts, shared
/// across all accounts. Entries are inserted once, never removed, and
/// mutated only by toggling `under_dispute`.
pub struct LedgerStore {
    map: HashMap<u32, TxRecord>,
}

impl View for LedgerStore {
    type V = Map<u32, TxRecord>;

    closed spec fn view(&self) -> Map<u32, TxRecord> {
        self.map@
    }
}

/// What may be recorded at all: only deposits and withdrawals enter the
/// ledger, and an entry is recorded with its dispute flag clear.
pub open spec fn recordable(rec: TxRecord) -> bool {
    rec.kind == TxKind::Deposit || rec.kind == TxKind::Withdrawal
}

/// Every recorded entry is a deposit or a withdrawal.
pub open spec fn ledger_wf(m: Map<u32, TxRecord>) -> bool {
    forall|id: u32| m.contains_key(id) ==> recordable(#[trigger] m[id])
}

impl LedgerStore {
    /// Every recorded entry of this store is a deposit or a withdrawal.
    pub open spec fn wf(self) -> bool {
        ledger_wf(self@)
    }

    /// An empty store.
    pub fn new() -> (r: LedgerStore)
        ensures
            r@ == Map::<u32, TxRecord>::empty(),
            r.wf(),
    {
        LedgerStore { map: HashMap::new() }
    }

    /// Inserts the facts of a deposit or withdrawal under an unseen id.
    /// A reused id is rejected with `DuplicateTx` and never silently
    /// overwritten.
    pub fn record(&mut self, tx_id: u32, rec: TxRecord) -> (r: Result<(), TxError>)
        requires
            old(self).wf(),
            recordable(rec),
            !rec.under_dispute,
        ensures
            final(self).wf(),
            old(self)@.contains_key(tx_id) ==> r == Err::<(), TxError>(TxError::DuplicateTx)
                && final(self)@ == old(self)@,
            !old(self)@.contains_key(tx_id) ==> r == Ok::<(), TxError>(())
                && final(self)@ == old(self)@.insert(tx_id, rec),
    {
        if self.map.contains_key(&tx_id) {
            Err(TxError::DuplicateTx)
        } else {
            self.map.insert(tx_id, rec);
            proof {
                assert forall|id: u32| self@.contains_key(id) implies recordable(
                    #[trigger] self@[id],
                ) by {
                    if id != tx_id {
                        assert(old(self)@.contains_key(id));
                    }
                }
            }
            Ok(())
        }
    }

    /// Read-only fetch of the recorded facts for an id.
    pub fn lookup(&self, tx_id: u32) -> (r: Option<TxRecord>)
        ensures
            self@.contains_key(tx_id) ==> r == Some(self@[tx_id]),
            !self@.contains_key(tx_id) ==> r is None,
    {
        match self.map.get(&tx_id) {
            Some(rec) => Some(*rec),
            None => None,
        }
    }

    /// Sets the `under_dispute` flag of an existing entry, leaving every
    /// other recorded fact as it was. An absent id is rejected with
    /// `UnknownReference` (the id was not found).
    pub fn mark_disputed(&mut self, tx_id: u32, value: bool) -> (r: Result<(), TxError>)
        requires
            old(self).wf(),
        ensures
            final(self).wf(),
            !old(self)@.contains_key(tx_id) ==> r == Err::<(), TxError>(TxError::UnknownReference)
                && final(self)@ == old(self)@,
            old(self)@.contains_key(tx_id) ==> r == Ok::<(), TxError>(())
                && final(self)@ == old(self)@.insert(tx_id, (TxRecord {
                    under_dispute: value,
                    ..old(self)@[tx_id]
                })),
    {
        let rec = match self.map.get(&tx_id) {
            Some(rec) => *rec,
            None => {
                return Err(TxError::UnknownReference);
            },
        };
        self.map.insert(tx_id, TxRecord { under_dispute: value, ..rec });
        Ok(())
    }
}

} // verus!
