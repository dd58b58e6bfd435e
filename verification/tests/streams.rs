use std::str::FromStr;

use payment_engine::ledger::in_memory::InMemoryLedger;
use payment_engine::Amount;
use payment_engine::ClientId;
use payment_engine::Engine;
use payment_engine::Event;
use payment_engine::TransactionId;
use rust_decimal::Decimal;

fn d(s: &str) -> Decimal {
    Decimal::from_str(s).unwrap()
}

fn amt(s: &str) -> Amount {
    Amount::from_decimal(&d(s)).unwrap()
}

fn dep(c: u16, t: u32, a: &str) -> Event {
    Event::Deposit { client_id: ClientId(c), transaction_id: TransactionId(t), amount: amt(a) }
}

fn wd(c: u16, t: u32, a: &str) -> Event {
    Event::Withdraw { client_id: ClientId(c), transaction_id: TransactionId(t), amount: amt(a) }
}

fn disp(c: u16, t: u32) -> Event {
    Event::Dispute { client_id: ClientId(c), transaction_id: TransactionId(t) }
}

fn res(c: u16, t: u32) -> Event {
    Event::Resolve { client_id: ClientId(c), transaction_id: TransactionId(t) }
}

fn cb(c: u16, t: u32) -> Event {
    Event::Chargeback { client_id: ClientId(c), transaction_id: TransactionId(t) }
}

/// Applies the events in order, stopping at the first error as the
/// surrounding reader does, and returns the engine or the error text.
fn run(events: Vec<Event>) -> Result<Engine<InMemoryLedger>, String> {
    let mut engine = Engine::new(InMemoryLedger::new());
    for e in events {
        if let Err(err) = engine.apply(e) {
            return Err(err.message());
        }
    }
    Ok(engine)
}

/// The output rows: client, available, held, total, locked.
fn rows(engine: &Engine<InMemoryLedger>) -> Vec<(u16, Decimal, Decimal, Decimal, bool)> {
    engine
        .accounts_ordered()
        .into_iter()
        .map(|a| {
            (
                a.client_id.as_inner(),
                a.available.as_decimal(),
                a.held().as_decimal(),
                a.total.as_decimal(),
                a.is_locked,
            )
        })
        .collect()
}

#[test]
fn empty() {
    let engine = run(vec![]).unwrap();
    assert_eq!(rows(&engine), vec![]);
}

#[test]
fn basic_operations_basic() {
    let engine = run(vec![
        dep(1, 1, "1.0"),
        dep(2, 2, "5.0"),
        dep(1, 3, "2.0"),
        wd(1, 4, "1.5"),
        wd(2, 5, "3.0"),
    ])
    .unwrap();
    assert_eq!(
        rows(&engine),
        vec![
            (1, d("1.5"), d("0.0"), d("1.5"), false),
            (2, d("2"), d("0"), d("2"), false),
        ]
    );
}

#[test]
fn deposit() {
    let engine = run(vec![dep(1, 1, "4.1"), dep(1, 2, "3.5")]).unwrap();
    assert_eq!(rows(&engine), vec![(1, d("7.6"), d("0.0"), d("7.6"), false)]);
}

/// Up to four decimal digits are kept; a fifth digit is rounded.
#[test]
fn decimal_points() {
    let engine = run(vec![dep(1, 1, "1.1234")]).unwrap();
    assert_eq!(rows(&engine), vec![(1, d("1.1234"), d("0.0000"), d("1.1234"), false)]);

    let engine = run(vec![dep(1, 1, "1.12349")]).unwrap();
    assert_eq!(rows(&engine), vec![(1, d("1.1235"), d("0.0000"), d("1.1235"), false)]);
}

/// A negative amount is not allowed in input data.
#[test]
fn negative_amount() {
    let err = run(vec![dep(1, 1, "-3.0")]).unwrap_err();
    assert_eq!(err, "Invalid event: Amount must be positive");
}

/// A dispute resulting in a chargeback reverses the funds and locks
/// the account.
#[test]
fn dispute_chargeback() {
    let engine = run(vec![dep(1, 1, "3.0"), disp(1, 1), cb(1, 1)]).unwrap();
    assert_eq!(rows(&engine), vec![(1, d("0"), d("0"), d("0"), true)]);
}

/// A transaction must be disputed before a chargeback.
#[test]
fn chargeback_without_dispute() {
    let err = run(vec![dep(1, 1, "3.0"), cb(1, 1)]).unwrap_err();
    assert_eq!(
        err,
        "Transaction is in invalid status: Operation doesn't apply to this transaction. Transition from Settled to ChargedBack"
    );
}

/// Once an account is locked, no further activity is allowed.
#[test]
fn locked_account_activity() {
    let err = run(vec![
        dep(1, 1, "3.0"),
        disp(1, 1),
        cb(1, 1),
        dep(1, 2, "20.0"),
    ])
    .unwrap_err();
    assert_eq!(err, "Client 1 account is locked, no further activity is allowed");
}

#[test]
fn duplicate_data() {
    let err = run(vec![dep(1, 1, "4.1"), dep(1, 1, "3.5")]).unwrap_err();
    assert_eq!(err, "Invalid event: Transaction already exist but with different details");
}

/// A second client cannot use a transaction identity that belongs to
/// the first.
#[test]
fn transaction_belong_to_another_client() {
    let err = run(vec![dep(1, 1, "4.1"), dep(2, 1, "3.5")]).unwrap_err();
    assert_eq!(err, "Invalid event: Transaction belong to a different client");
}

/// A client disputing their own deposit succeeds.
#[test]
fn dispute() {
    let engine = run(vec![dep(1, 1, "3.0"), disp(1, 1)]).unwrap();
    assert_eq!(rows(&engine), vec![(1, d("0"), d("3"), d("3"), false)]);
}

/// Disputing once the funds have been withdrawn is refused.
#[test]
fn dispute_insufficient_funds() {
    let err = run(vec![dep(1, 1, "3.0"), wd(1, 2, "2.0"), disp(1, 1)]).unwrap_err();
    assert_eq!(err, "Insufficient funds");
}

/// Disputing a transaction that belongs to a different client is
/// reported as not found.
#[test]
fn dispute_wrong_transaction() {
    let err = run(vec![dep(1, 1, "3.0"), disp(2, 1)]).unwrap_err();
    assert_eq!(err, "Invalid event: transaction not found");
}

/// A dispute does not apply to withdrawals.
#[test]
fn dispute_withdrawals() {
    let err = run(vec![dep(1, 1, "3.0"), wd(1, 2, "3.0"), disp(1, 2)]).unwrap_err();
    assert_eq!(err, "Invalid associated transaction: Dispute must be on a deposit");
}

/// A dispute is resolved: the funds return to the available balance.
#[test]
fn dispute_resolve() {
    let engine = run(vec![dep(1, 1, "3.0"), disp(1, 1), res(1, 1)]).unwrap();
    assert_eq!(rows(&engine), vec![(1, d("3"), d("0"), d("3"), false)]);
}

/// A transaction must be disputed before resolving.
#[test]
fn resolve_without_dispute() {
    let err = run(vec![dep(1, 1, "3.0"), res(1, 1)]).unwrap_err();
    assert_eq!(
        err,
        "Transaction is in invalid status: Operation doesn't apply to this transaction. Transition from Settled to Resolved"
    );
}

#[test]
fn withdrawals_basic() {
    let engine = run(vec![dep(1, 1, "4.0"), wd(1, 2, "3.0")]).unwrap();
    assert_eq!(rows(&engine), vec![(1, d("1"), d("0"), d("1"), false)]);
}

/// A withdrawal with insufficient funds errors.
#[test]
fn insufficient_funds() {
    let err = run(vec![wd(2, 5, "3.0")]).unwrap_err();
    assert_eq!(err, "Insufficient funds");
}
