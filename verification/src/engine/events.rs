//! The five partner-visible events, their validation, and the
//! conversion from a plain input row.

use vstd::prelude::*;

use crate::engine::errors::EngineError;
use crate::types::Amount;
use crate::types::ClientId;
use crate::types::TransactionId;

verus! {

/// One partner-visible action on an account.
#[derive(Clone, Copy, Debug)]
pub enum Event {
    Deposit { client_id: ClientId, transaction_id: TransactionId, amount: Amount },
    Withdraw { client_id: ClientId, transaction_id: TransactionId, amount: Amount },
    Dispute { client_id: ClientId, transaction_id: TransactionId },
    Resolve { client_id: ClientId, transaction_id: TransactionId },
    Chargeback { client_id: ClientId, transaction_id: TransactionId },
}

impl Event {
    /// Validates the event: a deposit or withdrawal must not carry a
    /// negative amount. Zero is accepted; events without an amount
    /// have no pre-check.
    pub fn validate(&self) -> (r: Result<(), EngineError>)
        ensures
            match *self {
                Event::Deposit { amount, .. } | Event::Withdraw { amount, .. } => {
                    if amount@ < 0 {
                        r matches Err(EngineError::InvalidEvent(m)) && m@
                            == "Amount must be positive"@
                    } else {
                        r is Ok
                    }
                },
                _ => r is Ok,
            },
    {
        match self {
            Event::Deposit { amount, .. } | Event::Withdraw { amount, .. } => {
                if amount.is_negative() {
                    return Err(EngineError::InvalidEvent("Amount must be positive"));
                }
                Ok(())
            },
            _ => Ok(()),
        }
    }
}

/// The kind of one input row, as the surrounding reader names it.
#[derive(Clone, Copy, Debug, PartialEq, Eq, Structural)]
pub enum EntryType {
    Deposit,
    Withdrawal,
    Dispute,
    Resolve,
    Chargeback,
}

/// Builds the event a plain input row describes. A deposit or a
/// withdrawal row must carry an amount; the other kinds ignore one.
pub fn event_from_row(ty: EntryType, client: u16, tx: u32, amount: Option<Amount>) -> (r: Result<
    Event,
    &'static str,
>)
    ensures
        match ty {
            EntryType::Deposit => {
                match amount {
                    Some(a) => r == Ok::<Event, &'static str>(
                        Event::Deposit {
                            client_id: ClientId(client),
                            transaction_id: TransactionId(tx),
                            amount: a,
                        },
                    ),
                    None => r matches Err(m) && m@ == "Amount is required for Deposit"@,
                }
            },
            EntryType::Withdrawal => {
                match amount {
                    Some(a) => r == Ok::<Event, &'static str>(
                        Event::Withdraw {
                            client_id: ClientId(client),
                            transaction_id: TransactionId(tx),
                            amount: a,
                        },
                    ),
                    None => r matches Err(m) && m@ == "Amount is required for Withdrawal"@,
                }
            },
            EntryType::Dispute => r == Ok::<Event, &'static str>(
                Event::Dispute { client_id: ClientId(client), transaction_id: TransactionId(tx) },
            ),
            EntryType::Resolve => r == Ok::<Event, &'static str>(
                Event::Resolve { client_id: ClientId(client), transaction_id: TransactionId(tx) },
            ),
            EntryType::Chargeback => r == Ok::<Event, &'static str>(
                Event::Chargeback {
                    client_id: ClientId(client),
                    transaction_id: TransactionId(tx),
                },
            ),
        },
{
    let client_id = ClientId(client);
    let transaction_id = TransactionId(tx);
    match ty {
        EntryType::Deposit => {
            match amount {
                Some(a) => Ok(Event::Deposit { client_id, transaction_id, amount: a }),
                None => Err("Amount is required for Deposit"),
            }
        },
        EntryType::Withdrawal => {
            match amount {
                Some(a) => Ok(Event::Withdraw { client_id, transaction_id, amount: a }),
                None => Err("Amount is required for Withdrawal"),
            }
        },
        EntryType::Dispute => Ok(Event::Dispute { client_id, transaction_id }),
        EntryType::Resolve => Ok(Event::Resolve { client_id, transaction_id }),
        EntryType::Chargeback => Ok(Event::Chargeback { client_id, transaction_id }),
    }
}

} // verus!
