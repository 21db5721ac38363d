use vstd::prelude::*;
use crate::account::Account;
use crate::amount::{fits_amount, Amount};
use crate::ledger::{recordable, TxRecord};
use crate::processor::Processor;
use crate::tx::{AmountField, Outcome, Transaction, TxError, TxKind};

verus! {

/// For every account at every point in time, `total == available + held`:
/// the balance invariant holds of every account of a well-formed state, and
/// every transition preserves well-formedness, so it can never be violated.
pub proof fn lemma_total_is_available_plus_held(accounts: Map<u16, Account>, c: u16)
    requires
        forall|k: u16| accounts.contains_key(k) ==> (#[trigger] accounts[k]).inv(),
        accounts.contains_key(c),
    ensures
        accounts[c].total@ == accounts[c].available@ + accounts[c].held@,
{
}

/// Every transition keeps the state well-formed: all accounts stay
/// consistent (`total == available + held`) and the ledger keeps holding
/// only deposits and withdrawals.
pub proof fn lemma_apply_preserves_wf(
    accounts: Map<u16, Account>,
    ledger: Map<u32, TxRecord>,
    t: Transaction,
)
    requires
        Processor::state_wf(accounts, ledger),
    ensures
        ({
            let step = Processor::spec_apply(accounts, ledger, t);
            Processor::state_wf(step.0, step.1)
        }),
{
    let step = Processor::spec_apply(accounts, ledger, t);
    assert forall|c: u16| step.0.contains_key(c) implies (#[trigger] step.0[c]).inv() by {
        if c != t.client {
            assert(accounts.contains_key(c));
        }
    }
    assert forall|id: u32| step.1.contains_key(id) implies recordable(#[trigger] step.1[id]) by {
        if id != t.tx {
            assert(ledger.contains_key(id));
        }
    }
}

/// Once an account is locked, no subsequent event of any kind, for any
/// client, changes that client's `available`, `held`, `total` — or its
/// locked flag, so the account stays frozen forever.
pub proof fn lemma_locked_account_is_frozen(
    accounts: Map<u16, Account>,
    ledger: Map<u32, TxRecord>,
    t: Transaction,
    c: u16,
)
    requires
        accounts.contains_key(c),
        accounts[c].locked,
    ensures
        ({
            let step = Processor::spec_apply(accounts, ledger, t);
            step.0.contains_key(c) && step.0[c] == accounts[c]
        }),
{
}

/// The state reached by applying a whole sequence of events in arrival
/// order.
pub open spec fn spec_apply_all(
    accounts: Map<u16, Account>,
    ledger: Map<u32, TxRecord>,
    ts: Seq<Transaction>,
) -> (Map<u16, Account>, Map<u32, TxRecord>)
    decreases ts.len(),
{
    if ts.len() == 0 {
        (accounts, ledger)
    } else {
        let step = Processor::spec_apply(accounts, ledger, ts[0]);
        spec_apply_all(step.0, step.1, ts.subrange(1, ts.len() as int))
    }
}

/// Once an account is locked, no sequence of subsequent events, of any
/// kinds and for any clients, changes that client's account at all.
pub proof fn lemma_locked_account_stays_frozen(
    accounts: Map<u16, Account>,
    ledger: Map<u32, TxRecord>,
    ts: Seq<Transaction>,
    c: u16,
)
    requires
        accounts.contains_key(c),
        accounts[c].locked,
    ensures
        ({
            let end = spec_apply_all(accounts, ledger, ts);
            end.0.contains_key(c) && end.0[c] == accounts[c]
        }),
    decreases ts.len(),
{
    if ts.len() > 0 {
        lemma_locked_account_is_frozen(accounts, ledger, ts[0], c);
        let step = Processor::spec_apply(accounts, ledger, ts[0]);
        lemma_locked_account_stays_frozen(step.0, step.1, ts.subrange(1, ts.len() as int), c);
    }
}

/// Recording the same transaction id twice as a deposit or withdrawal is
/// rejected with `DuplicateTx` the second time, and that second attempt
/// changes no balance and no ledger entry. (On a locked account the locked
/// no-op takes precedence, and a withdrawal without sufficient funds is the
/// insufficient-funds no-op instead; both also leave everything unchanged.)
pub proof fn lemma_duplicate_tx_rejected(
    accounts: Map<u16, Account>,
    ledger: Map<u32, TxRecord>,
    t: Transaction,
)
    requires
        ledger.contains_key(t.tx),
        t.kind == TxKind::Deposit || t.kind == TxKind::Withdrawal,
        t.amount is Value,
        !Processor::spec_account_of(accounts, t.client).locked,
        t.kind == TxKind::Withdrawal ==> Processor::spec_account_of(accounts, t.client).available@
            >= t.amount->Value_0@,
    ensures
        ({
            let step = Processor::spec_apply(accounts, ledger, t);
            &&& step.2 == Outcome::Rejected(TxError::DuplicateTx)
            &&& step.1 == ledger
            &&& forall|k: u16| accounts.contains_key(k) ==> #[trigger] step.0[k] == accounts[k]
        }),
{
}

/// Depositing an amount and then withdrawing the same amount (with
/// sufficient funds, here: a non-negative starting balance) returns
/// `available`, `held` and `total` to their prior values exactly, with no
/// residual drift, for any representable amount.
pub proof fn lemma_deposit_withdraw_round_trip(
    accounts: Map<u16, Account>,
    ledger: Map<u32, TxRecord>,
    t1: Transaction,
    t2: Transaction,
    a: Amount,
)
    requires
        Processor::state_wf(accounts, ledger),
        t1.kind == TxKind::Deposit,
        t2.kind == TxKind::Withdrawal,
        t1.client == t2.client,
        t1.amount == AmountField::Value(a),
        t2.amount == AmountField::Value(a),
        !ledger.contains_key(t1.tx),
        !ledger.contains_key(t2.tx),
        t1.tx != t2.tx,
        !Processor::spec_account_of(accounts, t1.client).locked,
        Processor::spec_account_of(accounts, t1.client).available@ >= 0,
        fits_amount(Processor::spec_account_of(accounts, t1.client).available@ + a@),
        fits_amount(Processor::spec_account_of(accounts, t1.client).total@ + a@),
    ensures
        ({
            let acct0 = Processor::spec_account_of(accounts, t1.client);
            let step1 = Processor::spec_apply(accounts, ledger, t1);
            let step2 = Processor::spec_apply(step1.0, step1.1, t2);
            &&& step1.2 == Outcome::Applied
            &&& step2.2 == Outcome::Applied
            &&& step2.0[t1.client].available == acct0.available
            &&& step2.0[t1.client].held == acct0.held
            &&& step2.0[t1.client].total == acct0.total
        }),
{
}

/// A dispute, resolve or chargeback referencing an unknown transaction id
/// changes no balance and no ledger entry; on an unlocked account it is
/// rejected with `UnknownReference` (on a locked one the locked no-op takes
/// precedence).
pub proof fn lemma_unknown_reference_rejected(
    accounts: Map<u16, Account>,
    ledger: Map<u32, TxRecord>,
    t: Transaction,
)
    requires
        t.kind == TxKind::Dispute || t.kind == TxKind::Resolve || t.kind == TxKind::Chargeback,
        !ledger.contains_key(t.tx),
    ensures
        ({
            let step = Processor::spec_apply(accounts, ledger, t);
            &&& step.1 == ledger
            &&& forall|k: u16| accounts.contains_key(k) ==> #[trigger] step.0[k] == accounts[k]
            &&& !Processor::spec_account_of(accounts, t.client).locked ==> step.2
                == Outcome::Rejected(TxError::UnknownReference)
        }),
{
}

} // verus!
