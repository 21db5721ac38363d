use vstd::prelude::*;
use std::collections::HashMap;
use crate::account::Account;
use crate::amount::{amount_from_int, fits_amount, Amount};
use crate::ledger::{ledger_wf, LedgerStore, TxRecord};
use crate::tx::{AmountField, NoOpReason, Outcome, Transaction, TxError, TxKind};

verus! {

broadcast use vstd::std_specs::hash::group_hash_axioms;

/// One row of a read-only snapshot of all known accounts.
#[derive(Clone, Copy, Debug, PartialEq, Eq, Structural)]
pub struct AccountSummary {
    pub client: u16,
    pub available: Amount,
    pub held: Amount,
    pub total: Amount,
    pub locked: bool,
}

/// The snapshot row for one client's account.
pub open spec fn summary_of(client: u16, a: Account) -> AccountSummary {
    AccountSummary {
        client,
        available: a.available,
        held: a.held,
        total: a.total,
        locked: a.locked,
    }
}

/// The state machine applying one incoming event at a time, in arrival
/// order, to the relevant [`Account`] and to the shared [`LedgerStore`].
/// Each event's outcome is isolated: an error never aborts processing of
/// subsequent events, and a single event's effects are applied in full or
/// not at all.
///
/// The whole transition relation is the specification function
/// [`Processor::spec_apply`]; [`Processor::apply_transaction`] is proved to
/// implement it exactly.
pub struct Processor {
    accounts: HashMap<u16, Account>,
    /// The known client ids, in order of first reference, matching the
    /// domain of `accounts` exactly.
    clients: Vec<u16>,
    ledger: LedgerStore,
}

impl Processor {
    /// All per-client balance states, keyed by client id.
    pub closed spec fn accounts_view(self) -> Map<u16, Account> {
        self.accounts@
    }

    /// All recorded transaction facts, keyed by transaction id.
    pub closed spec fn ledger_view(self) -> Map<u32, TxRecord> {
        self.ledger@
    }

    /// The known client ids, in order of first reference.
    pub closed spec fn clients_view(self) -> Seq<u16> {
        self.clients@
    }

    /// Consistency of a processor state: every account satisfies its
    /// balance invariant, and the ledger holds only deposits and
    /// withdrawals.
    pub open spec fn state_wf(accounts: Map<u16, Account>, ledger: Map<u32, TxRecord>) -> bool {
        &&& forall|c: u16| accounts.contains_key(c) ==> (#[trigger] accounts[c]).inv()
        &&& ledger_wf(ledger)
    }

    /// The client list names each known account exactly once.
    pub open spec fn clients_ok(clients: Seq<u16>, accounts: Map<u16, Account>) -> bool {
        &&& clients.no_duplicates()
        &&& forall|c: u16|
            #![trigger accounts.contains_key(c)]
            #![trigger clients.contains(c)]
            accounts.contains_key(c) <==> clients.contains(c)
    }

    /// Well-formedness of the processor, established by [`Processor::new`]
    /// and preserved by every operation.
    pub open spec fn wf(self) -> bool {
        &&& Self::state_wf(self.accounts_view(), self.ledger_view())
        &&& Self::clients_ok(self.clients_view(), self.accounts_view())
    }

    /// The account an event for `client` starts from: the stored one, or a
    /// fresh zeroed account on first reference.
    pub open spec fn spec_account_of(accounts: Map<u16, Account>, client: u16) -> Account {
        if accounts.contains_key(client) {
            accounts[client]
        } else {
            Account::spec_new()
        }
    }

    /// The transition of a deposit on its client's account: checked in
    /// order, a locked account ignores the event; the amount must be
    /// present and valid; the transaction id must be unseen; the updated
    /// balances must stay representable. On success `available` and `total`
    /// grow by the amount and the deposit is recorded.
    pub open spec fn spec_deposit(acct: Account, ledger: Map<u32, TxRecord>, t: Transaction) -> (
        Account,
        Map<u32, TxRecord>,
        Outcome,
    ) {
        if acct.locked {
            (acct, ledger, Outcome::NoOp(NoOpReason::AccountLocked))
        } else {
            match t.amount {
                AmountField::Missing => (acct, ledger, Outcome::Rejected(TxError::MissingAmount)),
                AmountField::Invalid => (acct, ledger, Outcome::Rejected(TxError::InvalidAmount)),
                AmountField::Value(a) => {
                    if ledger.contains_key(t.tx) {
                        (acct, ledger, Outcome::Rejected(TxError::DuplicateTx))
                    } else if !(fits_amount(acct.available@ + a@) && fits_amount(
                        acct.total@ + a@,
                    )) {
                        (acct, ledger, Outcome::NoOp(NoOpReason::BalanceOutOfRange))
                    } else {
                        (
                            Account {
                                available: amount_from_int(acct.available@ + a@),
                                held: acct.held,
                                total: amount_from_int(acct.total@ + a@),
                                locked: acct.locked,
                            },
                            ledger.insert(
                                t.tx,
                                TxRecord {
                                    kind: TxKind::Deposit,
                                    client: t.client,
                                    amount: a,
                                    under_dispute: false,
                                },
                            ),
                            Outcome::Applied,
                        )
                    }
                },
            }
        }
    }

    /// The transition of a withdrawal: as for a deposit, but a request for
    /// more than `available` is an insufficient-funds no-op — it changes
    /// nothing and is never recorded, so it can never be disputed later. On
    /// success `available` and `total` shrink by the amount and the
    /// withdrawal is recorded.
    pub open spec fn spec_withdraw(acct: Account, ledger: Map<u32, TxRecord>, t: Transaction) -> (
        Account,
        Map<u32, TxRecord>,
        Outcome,
    ) {
        if acct.locked {
            (acct, ledger, Outcome::NoOp(NoOpReason::AccountLocked))
        } else {
            match t.amount {
                AmountField::Missing => (acct, ledger, Outcome::Rejected(TxError::MissingAmount)),
                AmountField::Invalid => (acct, ledger, Outcome::Rejected(TxError::InvalidAmount)),
                AmountField::Value(a) => {
                    if acct.available@ < a@ {
                        (acct, ledger, Outcome::NoOp(NoOpReason::InsufficientFunds))
                    } else if ledger.contains_key(t.tx) {
                        (acct, ledger, Outcome::Rejected(TxError::DuplicateTx))
                    } else if !(fits_amount(acct.available@ - a@) && fits_amount(
                        acct.total@ - a@,
                    )) {
                        (acct, ledger, Outcome::NoOp(NoOpReason::BalanceOutOfRange))
                    } else {
                        (
                            Account {
                                available: amount_from_int(acct.available@ - a@),
                                held: acct.held,
                                total: amount_from_int(acct.total@ - a@),
                                locked: acct.locked,
                            },
                            ledger.insert(
                                t.tx,
                                TxRecord {
                                    kind: TxKind::Withdrawal,
                                    client: t.client,
                                    amount: a,
                                    under_dispute: false,
                                },
                            ),
                            Outcome::Applied,
                        )
                    }
                },
            }
        }
    }

    /// The transition of a dispute: the amount is derived from the
    /// referenced ledger entry (a carried amount column is ignored). An
    /// unknown reference is rejected; a reference already under dispute is
    /// a no-op. On success the amount moves from `available` to `held` —
    /// `available` may deliberately go negative here — and the entry is
    /// marked under dispute.
    pub open spec fn spec_dispute(acct: Account, ledger: Map<u32, TxRecord>, t: Transaction) -> (
        Account,
        Map<u32, TxRecord>,
        Outcome,
    ) {
        if acct.locked {
            (acct, ledger, Outcome::NoOp(NoOpReason::AccountLocked))
        } else if !ledger.contains_key(t.tx) {
            (acct, ledger, Outcome::Rejected(TxError::UnknownReference))
        } else {
            let rec = ledger[t.tx];
            if rec.under_dispute {
                (acct, ledger, Outcome::NoOp(NoOpReason::AlreadyUnderDispute))
            } else if !(fits_amount(acct.available@ - rec.amount@) && fits_amount(
                acct.held@ + rec.amount@,
            )) {
                (acct, ledger, Outcome::NoOp(NoOpReason::BalanceOutOfRange))
            } else {
                (
                    Account {
                        available: amount_from_int(acct.available@ - rec.amount@),
                        held: amount_from_int(acct.held@ + rec.amount@),
                        total: acct.total,
                        locked: acct.locked,
                    },
                    ledger.insert(t.tx, TxRecord { under_dispute: true, ..rec }),
                    Outcome::Applied,
                )
            }
        }
    }

    /// The transition of a resolve: an unknown reference is rejected; a
    /// reference not under dispute is a no-op. On success the amount moves
    /// back from `held` to `available` and the dispute flag clears.
    pub open spec fn spec_resolve(acct: Account, ledger: Map<u32, TxRecord>, t: Transaction) -> (
        Account,
        Map<u32, TxRecord>,
        Outcome,
    ) {
        if acct.locked {
            (acct, ledger, Outcome::NoOp(NoOpReason::AccountLocked))
        } else if !ledger.contains_key(t.tx) {
            (acct, ledger, Outcome::Rejected(TxError::UnknownReference))
        } else {
            let rec = ledger[t.tx];
            if !rec.under_dispute {
                (acct, ledger, Outcome::NoOp(NoOpReason::NotUnderDispute))
            } else if !(fits_amount(acct.available@ + rec.amount@) && fits_amount(
                acct.held@ - rec.amount@,
            )) {
                (acct, ledger, Outcome::NoOp(NoOpReason::BalanceOutOfRange))
            } else {
                (
                    Account {
                        available: amount_from_int(acct.available@ + rec.amount@),
                        held: amount_from_int(acct.held@ - rec.amount@),
                        total: acct.total,
                        locked: acct.locked,
                    },
                    ledger.insert(t.tx, TxRecord { under_dispute: false, ..rec }),
                    Outcome::Applied,
                )
            }
        }
    }

    /// The transition of a chargeback: an unknown reference is rejected; a
    /// reference not under dispute is a no-op. On success the disputed
    /// funds leave the account for good (`held` and `total` shrink,
    /// `available` is untouched), the dispute closes, and the account locks
    /// permanently.
    pub open spec fn spec_chargeback(acct: Account, ledger: Map<u32, TxRecord>, t: Transaction) -> (
        Account,
        Map<u32, TxRecord>,
        Outcome,
    ) {
        if acct.locked {
            (acct, ledger, Outcome::NoOp(NoOpReason::AccountLocked))
        } else if !ledger.contains_key(t.tx) {
            (acct, ledger, Outcome::Rejected(TxError::UnknownReference))
        } else {
            let rec = ledger[t.tx];
            if !rec.under_dispute {
                (acct, ledger, Outcome::NoOp(NoOpReason::NotUnderDispute))
            } else if !(fits_amount(acct.held@ - rec.amount@) && fits_amount(
                acct.total@ - rec.amount@,
            )) {
                (acct, ledger, Outcome::NoOp(NoOpReason::BalanceOutOfRange))
            } else {
                (
                    Account {
                        available: acct.available,
                        held: amount_from_int(acct.held@ - rec.amount@),
                        total: amount_from_int(acct.total@ - rec.amount@),
                        locked: true,
                    },
                    ledger.insert(t.tx, TxRecord { under_dispute: false, ..rec }),
                    Outcome::Applied,
                )
            }
        }
    }

    /// The full transition of one incoming event: the target account is
    /// created lazily (it exists afterwards whatever the outcome), the
    /// event is dispatched by kind, and the updated account is stored back.
    pub open spec fn spec_apply(
        accounts: Map<u16, Account>,
        ledger: Map<u32, TxRecord>,
        t: Transaction,
    ) -> (Map<u16, Account>, Map<u32, TxRecord>, Outcome) {
        let acct = Self::spec_account_of(accounts, t.client);
        let step = match t.kind {
            TxKind::Deposit => Self::spec_deposit(acct, ledger, t),
            TxKind::Withdrawal => Self::spec_withdraw(acct, ledger, t),
            TxKind::Dispute => Self::spec_dispute(acct, ledger, t),
            TxKind::Resolve => Self::spec_resolve(acct, ledger, t),
            TxKind::Chargeback => Self::spec_chargeback(acct, ledger, t),
        };
        (accounts.insert(t.client, step.0), step.1, step.2)
    }

    /// A processor with no accounts and an empty ledger.
    pub fn new() -> (r: Processor)
        ensures
            r.wf(),
            r.accounts_view() == Map::<u16, Account>::empty(),
            r.ledger_view() == Map::<u32, TxRecord>::empty(),
            r.clients_view() == Seq::<u16>::empty(),
    {
        Processor { accounts: HashMap::new(), clients: Vec::new(), ledger: LedgerStore::new() }
    }

    /// The current balance state of one client, if the client has been
    /// referenced before.
    pub fn account(&self, client: u16) -> (r: Option<Account>)
        ensures
            self.accounts_view().contains_key(client) ==> r == Some(
                self.accounts_view()[client],
            ),
            !self.accounts_view().contains_key(client) ==> r is None,
    {
        match self.accounts.get(&client) {
            Some(a) => Some(*a),
            None => None,
        }
    }

    fn do_deposit(acct: &mut Account, ledger: &mut LedgerStore, t: &Transaction) -> (o: Outcome)
        requires
            old(acct).inv(),
            old(ledger).wf(),
        ensures
            final(acct).inv(),
            final(ledger).wf(),
            ({
                let step = Self::spec_deposit(*old(acct), old(ledger)@, *t);
                *final(acct) == step.0 && final(ledger)@ == step.1 && o == step.2
            }),
    {
        if acct.locked {
            return Outcome::NoOp(NoOpReason::AccountLocked);
        }
        let a = match t.amount {
            AmountField::Missing => {
                return Outcome::Rejected(TxError::MissingAmount);
            },
            AmountField::Invalid => {
                return Outcome::Rejected(TxError::InvalidAmount);
            },
            AmountField::Value(a) => a,
        };
        match ledger.lookup(t.tx) {
            Some(_) => {
                return Outcome::Rejected(TxError::DuplicateTx);
            },
            None => {},
        }
        if !acct.credit(a) {
            return Outcome::NoOp(NoOpReason::BalanceOutOfRange);
        }
        let _ = ledger.record(
            t.tx,
            TxRecord { kind: TxKind::Deposit, client: t.client, amount: a, under_dispute: false },
        );
        Outcome::Applied
    }

    fn do_withdraw(acct: &mut Account, ledger: &mut LedgerStore, t: &Transaction) -> (o: Outcome)
        requires
            old(acct).inv(),
            old(ledger).wf(),
        ensures
            final(acct).inv(),
            final(ledger).wf(),
            ({
                let step = Self::spec_withdraw(*old(acct), old(ledger)@, *t);
                *final(acct) == step.0 && final(ledger)@ == step.1 && o == step.2
            }),
    {
        if acct.locked {
            return Outcome::NoOp(NoOpReason::AccountLocked);
        }
        let a = match t.amount {
            AmountField::Missing => {
                return Outcome::Rejected(TxError::MissingAmount);
            },
            AmountField::Invalid => {
                return Outcome::Rejected(TxError::InvalidAmount);
            },
            AmountField::Value(a) => a,
        };
        if acct.available.lt(a) {
            return Outcome::NoOp(NoOpReason::InsufficientFunds);
        }
        match ledger.lookup(t.tx) {
            Some(_) => {
                return Outcome::Rejected(TxError::DuplicateTx);
            },
            None => {},
        }
        if !acct.debit(a) {
            return Outcome::NoOp(NoOpReason::BalanceOutOfRange);
        }
        let _ = ledger.record(
            t.tx,
            TxRecord {
                kind: TxKind::Withdrawal,
                client: t.client,
                amount: a,
                under_dispute: false,
            },
        );
        Outcome::Applied
    }

    fn do_dispute(acct: &mut Account, ledger: &mut LedgerStore, t: &Transaction) -> (o: Outcome)
        requires
            old(acct).inv(),
            old(ledger).wf(),
        ensures
            final(acct).inv(),
            final(ledger).wf(),
            ({
                let step = Self::spec_dispute(*old(acct), old(ledger)@, *t);
                *final(acct) == step.0 && final(ledger)@ == step.1 && o == step.2
            }),
    {
        if acct.locked {
            return Outcome::NoOp(NoOpReason::AccountLocked);
        }
        let rec = match ledger.lookup(t.tx) {
            None => {
                return Outcome::Rejected(TxError::UnknownReference);
            },
            Some(rec) => rec,
        };
        if rec.under_dispute {
            return Outcome::NoOp(NoOpReason::AlreadyUnderDispute);
        }
        if !acct.hold(rec.amount) {
            return Outcome::NoOp(NoOpReason::BalanceOutOfRange);
        }
        let _ = ledger.mark_disputed(t.tx, true);
        Outcome::Applied
    }

    fn do_resolve(acct: &mut Account, ledger: &mut LedgerStore, t: &Transaction) -> (o: Outcome)
        requires
            old(acct).inv(),
            old(ledger).wf(),
        ensures
            final(acct).inv(),
            final(ledger).wf(),
            ({
                let step = Self::spec_resolve(*old(acct), old(ledger)@, *t);
                *final(acct) == step.0 && final(ledger)@ == step.1 && o == step.2
            }),
    {
        if acct.locked {
            return Outcome::NoOp(NoOpReason::AccountLocked);
        }
        let rec = match ledger.lookup(t.tx) {
            None => {
                return Outcome::Rejected(TxError::UnknownReference);
            },
            Some(rec) => rec,
        };
        if !rec.under_dispute {
            return Outcome::NoOp(NoOpReason::NotUnderDispute);
        }
        if !acct.release(rec.amount) {
            return Outcome::NoOp(NoOpReason::BalanceOutOfRange);
        }
        let _ = ledger.mark_disputed(t.tx, false);
        Outcome::Applied
    }

    fn do_chargeback(acct: &mut Account, ledger: &mut LedgerStore, t: &Transaction) -> (o: Outcome)
        requires
            old(acct).inv(),
            old(ledger).wf(),
        ensures
            final(acct).inv(),
            final(ledger).wf(),
            ({
                let step = Self::spec_chargeback(*old(acct), old(ledger)@, *t);
                *final(acct) == step.0 && final(ledger)@ == step.1 && o == step.2
            }),
    {
        if acct.locked {
            return Outcome::NoOp(NoOpReason::AccountLocked);
        }
        let rec = match ledger.lookup(t.tx) {
            None => {
                return Outcome::Rejected(TxError::UnknownReference);
            },
            Some(rec) => rec,
        };
        if !rec.under_dispute {
            return Outcome::NoOp(NoOpReason::NotUnderDispute);
        }
        if !acct.charge_off(rec.amount) {
            return Outcome::NoOp(NoOpReason::BalanceOutOfRange);
        }
        let _ = ledger.mark_disputed(t.tx, false);
        Outcome::Applied
    }

    /// Applies one incoming event: exactly the transition
    /// [`Processor::spec_apply`] on the current state. The target account
    /// exists afterwards whatever the outcome, and the client list grows by
    /// the client id exactly on first reference.
    pub fn apply_transaction(&mut self, tx: &Transaction) -> (o: Outcome)
        requires
            old(self).wf(),
        ensures
            final(self).wf(),
            ({
                let step = Self::spec_apply(
                    old(self).accounts_view(),
                    old(self).ledger_view(),
                    *tx,
                );
                final(self).accounts_view() == step.0 && final(self).ledger_view() == step.1
                    && o == step.2
            }),
            final(self).clients_view() == (if old(self).accounts_view().contains_key(tx.client) {
                old(self).clients_view()
            } else {
                old(self).clients_view().push(tx.client)
            }),
    {
        let ghost old_accounts = self.accounts@;
        let ghost old_clients = self.clients@;
        let mut acct = match self.accounts.get(&tx.client) {
            Some(a) => *a,
            None => Account::new(),
        };
        let known = self.accounts.contains_key(&tx.client);
        if !known {
            self.clients.push(tx.client);
        }
        let o = match tx.kind {
            TxKind::Deposit => Self::do_deposit(&mut acct, &mut self.ledger, tx),
            TxKind::Withdrawal => Self::do_withdraw(&mut acct, &mut self.ledger, tx),
            TxKind::Dispute => Self::do_dispute(&mut acct, &mut self.ledger, tx),
            TxKind::Resolve => Self::do_resolve(&mut acct, &mut self.ledger, tx),
            TxKind::Chargeback => Self::do_chargeback(&mut acct, &mut self.ledger, tx),
        };
        self.accounts.insert(tx.client, acct);
        proof {
            assert forall|c: u16| self.accounts@.contains_key(c) implies (
            #[trigger] self.accounts@[c]).inv() by {
                if c != tx.client {
                    assert(old_accounts.contains_key(c));
                }
            }
            if !old_accounts.contains_key(tx.client) {
                assert(!old_clients.contains(tx.client));
                lemma_push_keeps_no_duplicates(old_clients, tx.client);
                assert forall|c: u16| self.accounts@.contains_key(c) <==> self.clients@.contains(
                    c,
                ) by {
                    lemma_push_contains(old_clients, tx.client, c);
                }
            }
        }
        o
    }

    /// A read-only, order-irrelevant view of all known accounts: one row
    /// per client, in order of first reference.
    pub fn snapshot(&self) -> (r: Vec<AccountSummary>)
        requires
            self.wf(),
        ensures
            r@.len() == self.clients_view().len(),
            forall|i: int|
                0 <= i < r@.len() ==> (#[trigger] r@[i]) == summary_of(
                    self.clients_view()[i],
                    self.accounts_view()[self.clients_view()[i]],
                ),
    {
        let mut r: Vec<AccountSummary> = Vec::new();
        let n = self.clients.len();
        for i in 0..n
            invariant
                self.wf(),
                n == self.clients@.len(),
                r@.len() == i,
                forall|j: int|
                    0 <= j < i as int ==> (#[trigger] r@[j]) == summary_of(
                        self.clients@[j],
                        self.accounts@[self.clients@[j]],
                    ),
        {
            let c = self.clients[i];
            proof {
                assert(self.clients@.contains(c)) by {
                    assert(self.clients@[i as int] == c);
                }
            }
            let a = match self.accounts.get(&c) {
                Some(a) => *a,
                None => {
                    proof {
                        assert(false);
                    }
                    Account::new()
                },
            };
            r.push(
                AccountSummary {
                    client: c,
                    available: a.available,
                    held: a.held,
                    total: a.total,
                    locked: a.locked,
                },
            );
        }
        r
    }
}

/// Pushing a fresh element keeps a sequence free of duplicates.
proof fn lemma_push_keeps_no_duplicates<A>(s: Seq<A>, x: A)
    requires
        s.no_duplicates(),
        !s.contains(x),
    ensures
        s.push(x).no_duplicates(),
{
    assert forall|i: int, j: int|
        0 <= i < s.push(x).len() && 0 <= j < s.push(x).len() && i != j implies s.push(x)[i]
        != s.push(x)[j] by {
        if i < s.len() && j < s.len() {
        } else if i < s.len() {
            assert(s.push(x)[i] == s[i]);
            assert(s.contains(s[i]));
        } else if j < s.len() {
            assert(s.push(x)[j] == s[j]);
            assert(s.contains(s[j]));
        }
    }
}

/// Membership in a sequence after a push.
proof fn lemma_push_contains<A>(s: Seq<A>, x: A, y: A)
    ensures
        s.push(x).contains(y) <==> s.contains(y) || y == x,
{
    if s.push(x).contains(y) {
        let i = choose|i: int| 0 <= i < s.push(x).len() && s.push(x)[i] == y;
        if i < s.len() {
            assert(s[i] == y);
            assert(s.contains(y));
        }
    }
    if s.contains(y) {
        let i = choose|i: int| 0 <= i < s.len() && s[i] == y;
        assert(s.push(x)[i] == y);
        assert(s.push(x).contains(y));
    }
    if y == x {
        assert(s.push(x)[s.len() as int] == y);
        assert(s.push(x).contains(y));
    }
}

} // verus!
