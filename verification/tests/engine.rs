use payments::account::Account;
use payments::amount::Amount;
use payments::processor::Processor;
use payments::tx::{AmountField, NoOpReason, Outcome, Transaction, TxError, TxKind};

fn deposit(client: u16, tx: u32, units: i64) -> Transaction {
    Transaction { kind: TxKind::Deposit, client, tx, amount: AmountField::Value(Amount::new(units)) }
}

fn withdrawal(client: u16, tx: u32, units: i64) -> Transaction {
    Transaction {
        kind: TxKind::Withdrawal,
        client,
        tx,
        amount: AmountField::Value(Amount::new(units)),
    }
}

fn dispute(client: u16, tx: u32) -> Transaction {
    Transaction { kind: TxKind::Dispute, client, tx, amount: AmountField::Missing }
}

fn resolve(client: u16, tx: u32) -> Transaction {
    Transaction { kind: TxKind::Resolve, client, tx, amount: AmountField::Missing }
}

fn chargeback(client: u16, tx: u32) -> Transaction {
    Transaction { kind: TxKind::Chargeback, client, tx, amount: AmountField::Missing }
}

fn account_of(p: &Processor, client: u16) -> Account {
    p.account(client).expect("account should exist")
}

#[test]
fn simple_deposit_withdraw() {
    let mut p = Processor::new();
    assert_eq!(p.apply_transaction(&deposit(1, 1, 50_000)), Outcome::Applied);
    assert_eq!(p.apply_transaction(&withdrawal(1, 2, 50_000)), Outcome::Applied);
    assert_eq!(account_of(&p, 1).available, Amount::new(0));
}

#[test]
fn bad_withdrawal() {
    let mut p = Processor::new();
    assert_eq!(p.apply_transaction(&deposit(1, 1, 20_000)), Outcome::Applied);
    assert_eq!(
        p.apply_transaction(&withdrawal(1, 2, 50_000)),
        Outcome::NoOp(NoOpReason::InsufficientFunds)
    );
    assert_eq!(account_of(&p, 1).available, Amount::new(20_000));
}

#[test]
fn simple_dispute() {
    let mut p = Processor::new();
    assert_eq!(p.apply_transaction(&deposit(1, 1, 50_000)), Outcome::Applied);
    assert_eq!(p.apply_transaction(&dispute(1, 1)), Outcome::Applied);
    assert_eq!(account_of(&p, 1).available, Amount::new(0));
    assert_eq!(account_of(&p, 1).held, Amount::new(50_000));
}

#[test]
fn simple_resolve() {
    let mut p = Processor::new();
    assert_eq!(p.apply_transaction(&deposit(1, 1, 50_000)), Outcome::Applied);
    assert_eq!(p.apply_transaction(&withdrawal(1, 2, 50_000)), Outcome::Applied);
    assert_eq!(p.apply_transaction(&dispute(1, 1)), Outcome::Applied);
    assert_eq!(p.apply_transaction(&resolve(1, 1)), Outcome::Applied);
    assert_eq!(account_of(&p, 1).available, Amount::new(0));
    assert_eq!(account_of(&p, 1).held, Amount::new(0));
}

#[test]
fn large() {
    let mut p = Processor::new();
    for i in 0..500u32 {
        let client = (i % 50) as u16;
        assert_eq!(p.apply_transaction(&deposit(client, i, 10_000)), Outcome::Applied);
    }
    let rows = p.snapshot();
    assert!(!rows.is_empty());
    assert_eq!(rows.len(), 50);
    for row in rows {
        assert_eq!(row.available, Amount::new(100_000));
        assert_eq!(row.total, Amount::new(100_000));
    }
}

#[test]
fn deposit_reflects_in_available() {
    let mut p = Processor::new();
    assert_eq!(p.apply_transaction(&deposit(1, 1, 50_000)), Outcome::Applied);
    let a = account_of(&p, 1);
    assert_eq!(a.available, Amount::new(50_000));
    assert_eq!(a.held, Amount::new(0));
    assert!(!a.locked);
}

#[test]
fn dispute_holds_funds() {
    let mut p = Processor::new();
    assert_eq!(p.apply_transaction(&deposit(1, 1, 50_000)), Outcome::Applied);
    assert_eq!(p.apply_transaction(&dispute(1, 1)), Outcome::Applied);
    let a = account_of(&p, 1);
    assert_eq!(a.available, Amount::new(0));
    assert_eq!(a.held, Amount::new(50_000));
    assert_eq!(a.total, Amount::new(50_000));
}

#[test]
fn resolve_releases_funds() {
    let mut p = Processor::new();
    assert_eq!(p.apply_transaction(&deposit(1, 1, 50_000)), Outcome::Applied);
    assert_eq!(p.apply_transaction(&dispute(1, 1)), Outcome::Applied);
    assert_eq!(p.apply_transaction(&resolve(1, 1)), Outcome::Applied);
    let a = account_of(&p, 1);
    assert_eq!(a.available, Amount::new(50_000));
    assert_eq!(a.held, Amount::new(0));
    assert_eq!(a.total, Amount::new(50_000));
    assert!(!a.locked);
}

#[test]
fn chargeback_locks_account() {
    let mut p = Processor::new();
    assert_eq!(p.apply_transaction(&deposit(1, 1, 50_000)), Outcome::Applied);
    assert_eq!(p.apply_transaction(&dispute(1, 1)), Outcome::Applied);
    assert_eq!(p.apply_transaction(&chargeback(1, 1)), Outcome::Applied);
    let a = account_of(&p, 1);
    assert_eq!(a.held, Amount::new(0));
    assert_eq!(a.available, Amount::new(0));
    assert_eq!(a.total, Amount::new(0));
    assert!(a.locked);
    assert_eq!(
        p.apply_transaction(&deposit(1, 2, 10_000)),
        Outcome::NoOp(NoOpReason::AccountLocked)
    );
    assert_eq!(account_of(&p, 1), a);
}

#[test]
fn locked_account_ignores_every_event() {
    let mut p = Processor::new();
    assert_eq!(p.apply_transaction(&deposit(1, 1, 50_000)), Outcome::Applied);
    assert_eq!(p.apply_transaction(&deposit(1, 2, 30_000)), Outcome::Applied);
    assert_eq!(p.apply_transaction(&dispute(1, 1)), Outcome::Applied);
    assert_eq!(p.apply_transaction(&chargeback(1, 1)), Outcome::Applied);
    let frozen = account_of(&p, 1);
    assert!(frozen.locked);
    let locked = Outcome::NoOp(NoOpReason::AccountLocked);
    assert_eq!(p.apply_transaction(&deposit(1, 3, 10_000)), locked);
    assert_eq!(p.apply_transaction(&withdrawal(1, 4, 10_000)), locked);
    assert_eq!(p.apply_transaction(&dispute(1, 2)), locked);
    assert_eq!(p.apply_transaction(&resolve(1, 2)), locked);
    assert_eq!(p.apply_transaction(&chargeback(1, 2)), locked);
    assert_eq!(account_of(&p, 1), frozen);
}

#[test]
fn dispute_unknown_reference() {
    let mut p = Processor::new();
    assert_eq!(p.apply_transaction(&deposit(1, 1, 50_000)), Outcome::Applied);
    let before = account_of(&p, 1);
    assert_eq!(
        p.apply_transaction(&dispute(1, 99)),
        Outcome::Rejected(TxError::UnknownReference)
    );
    assert_eq!(account_of(&p, 1), before);
}

#[test]
fn resolve_unknown_reference() {
    let mut p = Processor::new();
    assert_eq!(
        p.apply_transaction(&resolve(1, 99)),
        Outcome::Rejected(TxError::UnknownReference)
    );
    let a = account_of(&p, 1);
    assert_eq!(a.total, Amount::new(0));
}

#[test]
fn duplicate_deposit_rejected() {
    let mut p = Processor::new();
    assert_eq!(p.apply_transaction(&deposit(1, 1, 50_000)), Outcome::Applied);
    let before = account_of(&p, 1);
    assert_eq!(
        p.apply_transaction(&deposit(1, 1, 30_000)),
        Outcome::Rejected(TxError::DuplicateTx)
    );
    assert_eq!(account_of(&p, 1), before);
}

#[test]
fn duplicate_withdrawal_rejected() {
    let mut p = Processor::new();
    assert_eq!(p.apply_transaction(&deposit(1, 1, 50_000)), Outcome::Applied);
    assert_eq!(
        p.apply_transaction(&withdrawal(1, 1, 10_000)),
        Outcome::Rejected(TxError::DuplicateTx)
    );
    assert_eq!(account_of(&p, 1).available, Amount::new(50_000));
}

#[test]
fn missing_amount_rejected() {
    let mut p = Processor::new();
    let t = Transaction { kind: TxKind::Deposit, client: 1, tx: 1, amount: AmountField::Missing };
    assert_eq!(p.apply_transaction(&t), Outcome::Rejected(TxError::MissingAmount));
    assert_eq!(account_of(&p, 1).total, Amount::new(0));
}

#[test]
fn invalid_amount_rejected() {
    let mut p = Processor::new();
    let t = Transaction {
        kind: TxKind::Withdrawal,
        client: 1,
        tx: 1,
        amount: AmountField::Invalid,
    };
    assert_eq!(p.apply_transaction(&t), Outcome::Rejected(TxError::InvalidAmount));
    assert_eq!(account_of(&p, 1).total, Amount::new(0));
}

#[test]
fn resolve_not_disputed_is_noop() {
    let mut p = Processor::new();
    assert_eq!(p.apply_transaction(&deposit(1, 1, 50_000)), Outcome::Applied);
    assert_eq!(
        p.apply_transaction(&resolve(1, 1)),
        Outcome::NoOp(NoOpReason::NotUnderDispute)
    );
    assert_eq!(account_of(&p, 1).available, Amount::new(50_000));
}

#[test]
fn chargeback_not_disputed_is_noop() {
    let mut p = Processor::new();
    assert_eq!(p.apply_transaction(&deposit(1, 1, 50_000)), Outcome::Applied);
    assert_eq!(
        p.apply_transaction(&chargeback(1, 1)),
        Outcome::NoOp(NoOpReason::NotUnderDispute)
    );
    let a = account_of(&p, 1);
    assert_eq!(a.available, Amount::new(50_000));
    assert!(!a.locked);
}

#[test]
fn dispute_already_disputed_is_noop() {
    let mut p = Processor::new();
    assert_eq!(p.apply_transaction(&deposit(1, 1, 50_000)), Outcome::Applied);
    assert_eq!(p.apply_transaction(&dispute(1, 1)), Outcome::Applied);
    assert_eq!(
        p.apply_transaction(&dispute(1, 1)),
        Outcome::NoOp(NoOpReason::AlreadyUnderDispute)
    );
    assert_eq!(account_of(&p, 1).held, Amount::new(50_000));
}

#[test]
fn insufficient_withdrawal_never_disputable() {
    let mut p = Processor::new();
    assert_eq!(p.apply_transaction(&deposit(1, 1, 50_000)), Outcome::Applied);
    assert_eq!(
        p.apply_transaction(&withdrawal(1, 2, 70_000)),
        Outcome::NoOp(NoOpReason::InsufficientFunds)
    );
    assert_eq!(
        p.apply_transaction(&dispute(1, 2)),
        Outcome::Rejected(TxError::UnknownReference)
    );
}

#[test]
fn deposit_withdraw_round_trip_is_exact() {
    let mut p = Processor::new();
    assert_eq!(p.apply_transaction(&deposit(1, 1, 70_007)), Outcome::Applied);
    assert_eq!(p.apply_transaction(&deposit(1, 2, 20_002)), Outcome::Applied);
    assert_eq!(p.apply_transaction(&withdrawal(1, 3, 20_002)), Outcome::Applied);
    assert_eq!(account_of(&p, 1).available, Amount::new(70_007));
    assert_eq!(account_of(&p, 1).total, Amount::new(70_007));
}

#[test]
fn deposit_out_of_range_is_noop() {
    let mut p = Processor::new();
    assert_eq!(p.apply_transaction(&deposit(1, 1, i64::MAX)), Outcome::Applied);
    assert_eq!(
        p.apply_transaction(&deposit(1, 2, 1)),
        Outcome::NoOp(NoOpReason::BalanceOutOfRange)
    );
    assert_eq!(account_of(&p, 1).available, Amount::new(i64::MAX));
}

#[test]
fn snapshot_lists_all_accounts() {
    let mut p = Processor::new();
    assert_eq!(p.apply_transaction(&deposit(7, 1, 10_000)), Outcome::Applied);
    assert_eq!(p.apply_transaction(&deposit(3, 2, 20_000)), Outcome::Applied);
    assert_eq!(p.apply_transaction(&dispute(3, 2)), Outcome::Applied);
    let rows = p.snapshot();
    assert_eq!(rows.len(), 2);
    assert_eq!(rows[0].client, 7);
    assert_eq!(rows[0].available, Amount::new(10_000));
    assert_eq!(rows[0].held, Amount::new(0));
    assert_eq!(rows[1].client, 3);
    assert_eq!(rows[1].available, Amount::new(0));
    assert_eq!(rows[1].held, Amount::new(20_000));
    assert_eq!(rows[1].total, Amount::new(20_000));
}
