use std::str::FromStr;

use payment_engine::app::App;
use payment_engine::ledger::in_memory::InMemoryLedger;
use payment_engine::ledger::transactions::Transaction;
use payment_engine::ledger::Ledger;
use payment_engine::ledger::LedgerError;
use payment_engine::engine::events::event_from_row;
use payment_engine::engine::events::EntryType;
use payment_engine::Amount;
use payment_engine::ClientId;
use payment_engine::Engine;
use payment_engine::Event;
use payment_engine::TransactionId;
use rust_decimal::Decimal;

#[test]
fn test_amount_try_sub() {
    let mut a1 = Amount::from_minor(150); // 1.50
    let a2 = Amount::from_minor(50); // 0.50

    a1.try_subtract(a2).expect("Subtraction should succeed");
    assert_eq!(a1.as_decimal(), Decimal::new(100, 2));
}

#[test]
fn amount_in_minor() {
    let a1 = Amount::from_minor(150); // 1.50

    assert_eq!(a1.in_minor().unwrap(), 150);
}

#[test]
fn try_subtract_prevent_negative() {
    let mut a1 = Amount::from_minor(1); // 0.01
    assert!(a1.try_subtract(Amount::from_minor(2)).is_none());

    assert_eq!(a1.in_minor().unwrap(), 1);
}

#[test]
fn display_upto_4_decimals() {
    let a1 = Amount::from_decimal(&Decimal::new(123456, 4)).unwrap();

    assert_eq!(a1.to_display_string(), "12.3456");
}

/// A transaction must belong to a single client.
#[test]
fn transaction_id_is_globally_unique() {
    let mut ledger = InMemoryLedger::new();

    let client_a = ClientId::from(1);
    let client_b = ClientId::from(2);

    let transaction = Transaction::new_settled_inbound(
        TransactionId::from(1),
        client_a,
        Amount::from_minor(100),
    );
    assert!(ledger.add(client_a, transaction).is_ok());

    let err = ledger
        .add(client_b, transaction)
        .expect_err("same transaction to different client must fail");

    assert_eq!(err, LedgerError::Conflict("Transaction belong to a different client"));
}

fn d(s: &str) -> Decimal {
    Decimal::from_str(s).unwrap()
}

fn amt(s: &str) -> Amount {
    Amount::from_decimal(&d(s)).unwrap()
}

/// A half-way fifth digit rounds away from zero, in both directions.
#[test]
fn rounding_half_away_from_zero() {
    assert_eq!(amt("0.00005").to_display_string(), "0.0001");
    assert_eq!(amt("-0.00005").to_display_string(), "-0.0001");
    assert_eq!(amt("0.00004").to_display_string(), "0.0000");
    assert_eq!(amt("2.5").to_display_string(), "2.5000");
}

/// Rounding from the raw mantissa and scale pair.
#[test]
fn from_parts_rounds() {
    assert_eq!(Amount::from_parts(112349, 5).unwrap().to_display_string(), "1.1235");
    assert_eq!(Amount::from_parts(5, 5).unwrap().to_display_string(), "0.0001");
    assert_eq!(Amount::from_parts(-7, 0).unwrap().to_display_string(), "-7.0000");
    assert_eq!(Amount::from_parts(42, 2).unwrap().as_decimal(), d("0.42"));
}

#[test]
fn in_minor_refuses_negative_and_large() {
    assert!(amt("-1").in_minor().is_none());
    assert_eq!(amt("0.019").in_minor().unwrap(), 1);
}

#[test]
fn zero_amount_deposit_is_accepted() {
    let mut engine = Engine::new(InMemoryLedger::new());
    let e = Event::Deposit {
        client_id: ClientId(1),
        transaction_id: TransactionId(1),
        amount: amt("0"),
    };
    assert!(engine.apply(e).is_ok());
}

/// Re-submitting the identical deposit yields the duplicate error and
/// no state change.
#[test]
fn duplicate_identical_deposit() {
    let mut engine = Engine::new(InMemoryLedger::new());
    let e = Event::Deposit {
        client_id: ClientId(1),
        transaction_id: TransactionId(1),
        amount: amt("4.1"),
    };
    assert!(engine.apply(e).is_ok());
    let err = engine.apply(e).unwrap_err();
    assert_eq!(err.message(), "Duplicate event");
    let accounts = engine.accounts();
    assert_eq!(accounts.len(), 1);
    assert_eq!(accounts[0].available.as_decimal(), d("4.1"));
    assert_eq!(accounts[0].total.as_decimal(), d("4.1"));
}

/// A failed withdrawal leaves its row in the ledger: the identical
/// retry is then refused as a duplicate.
#[test]
fn failed_withdrawal_leaves_ledger_row() {
    let mut engine = Engine::new(InMemoryLedger::new());
    let w = Event::Withdraw {
        client_id: ClientId(1),
        transaction_id: TransactionId(9),
        amount: amt("5"),
    };
    assert_eq!(engine.apply(w).unwrap_err().message(), "Insufficient funds");
    assert_eq!(engine.apply(w).unwrap_err().message(), "Duplicate event");
}

/// A resolved dispute is terminal: it cannot be disputed again.
#[test]
fn resolved_is_terminal() {
    let mut engine = Engine::new(InMemoryLedger::new());
    let c = ClientId(1);
    let t = TransactionId(1);
    engine
        .apply(Event::Deposit { client_id: c, transaction_id: t, amount: amt("3") })
        .unwrap();
    engine.apply(Event::Dispute { client_id: c, transaction_id: t }).unwrap();
    engine.apply(Event::Resolve { client_id: c, transaction_id: t }).unwrap();
    let err = engine.apply(Event::Dispute { client_id: c, transaction_id: t }).unwrap_err();
    assert_eq!(
        err.message(),
        "Transaction is in invalid status: Operation doesn't apply to this transaction. Transition from Resolved to Disputed"
    );
}

#[test]
fn accounts_ordered_sorts_by_client() {
    let mut engine = Engine::new(InMemoryLedger::new());
    for (c, t) in [(7u16, 1u32), (2, 2), (5, 3)] {
        engine
            .apply(Event::Deposit {
                client_id: ClientId(c),
                transaction_id: TransactionId(t),
                amount: amt("1"),
            })
            .unwrap();
    }
    let ids: Vec<u16> = engine.accounts_ordered().into_iter().map(|a| a.client_id.0).collect();
    assert_eq!(ids, vec![2, 5, 7]);
}

#[test]
fn message_renders_client_number() {
    let e = payment_engine::errors::EngineError::AccountLocked(ClientId(65535));
    assert_eq!(e.message(), "Client 65535 account is locked, no further activity is allowed");
    let s = payment_engine::errors::EngineError::SystemError("broken");
    assert_eq!(s.message(), "System error: broken");
}

#[test]
fn event_from_row_requires_amounts() {
    let e = event_from_row(EntryType::Deposit, 1, 2, Some(amt("3"))).unwrap();
    assert!(matches!(e, Event::Deposit { .. }));
    assert_eq!(
        event_from_row(EntryType::Deposit, 1, 2, None).unwrap_err(),
        "Amount is required for Deposit"
    );
    assert_eq!(
        event_from_row(EntryType::Withdrawal, 1, 2, None).unwrap_err(),
        "Amount is required for Withdrawal"
    );
    assert!(matches!(
        event_from_row(EntryType::Dispute, 1, 2, None).unwrap(),
        Event::Dispute { .. }
    ));
}

/// The stream driver reports each event's outcome and keeps going
/// after partner errors.
#[test]
fn process_events_reports_each_outcome() {
    let app = App::new();
    let mut engine = Engine::new(InMemoryLedger::new());
    let events = vec![
        Event::Deposit { client_id: ClientId(1), transaction_id: TransactionId(1), amount: amt("2") },
        Event::Withdraw { client_id: ClientId(1), transaction_id: TransactionId(2), amount: amt("5") },
        Event::Withdraw { client_id: ClientId(1), transaction_id: TransactionId(3), amount: amt("1") },
    ];
    let (results, stopped) = app.process_events(&mut engine, &events);
    assert!(!stopped);
    assert_eq!(results.len(), 3);
    assert!(results[0].is_ok());
    assert_eq!(results[1].as_ref().unwrap_err().message(), "Insufficient funds");
    assert!(results[2].is_ok());
    let accounts = engine.accounts();
    assert_eq!(accounts[0].total.as_decimal(), d("1"));
}

/// Held is always the difference between total and available.
#[test]
fn held_is_total_minus_available() {
    let mut engine = Engine::new(InMemoryLedger::new());
    engine
        .apply(Event::Deposit {
            client_id: ClientId(1),
            transaction_id: TransactionId(1),
            amount: amt("5"),
        })
        .unwrap();
    engine
        .apply(Event::Deposit {
            client_id: ClientId(1),
            transaction_id: TransactionId(2),
            amount: amt("2"),
        })
        .unwrap();
    engine.apply(Event::Dispute { client_id: ClientId(1), transaction_id: TransactionId(2) }).unwrap();
    let a = &engine.accounts()[0];
    assert_eq!(a.held().as_decimal(), a.total.as_decimal() - a.available.as_decimal());
    assert_eq!(a.held().as_decimal(), d("2"));
}
