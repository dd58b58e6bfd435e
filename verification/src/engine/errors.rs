//! The engine's error taxonomy.
//!
//! Every error but `SystemError` is a partner-data error: it concerns
//! one event and leaves the engine fit to process the next one. A
//! `SystemError` signals a violated invariant and ends the stream.

use vstd::prelude::*;

use crate::ledger::transactions::status_name;
use crate::ledger::transactions::TransactionStatus;
use crate::ledger::transactions::TransitionError;
use crate::ledger::LedgerError;
use crate::numfmt::dec_digits;
use crate::numfmt::u16_to_dec_string;
use crate::types::ClientId;

verus! {

/// Why an event was refused.
#[derive(Debug)]
pub enum EngineError {
    InvalidAssociatedTransaction(&'static str),
    InsufficientFunds,
    InvalidTransactionStatus(String),
    DuplicateEvent,
    AccountLocked(ClientId),
    InvalidEvent(&'static str),
    SystemError(&'static str),
}

/// The text of the message reporting an invalid status transition.
pub open spec fn transition_message(from: TransactionStatus, to: TransactionStatus) -> Seq<char> {
    "Operation doesn't apply to this transaction. Transition from "@ + status_name(from) + " to "@
        + status_name(to)
}

impl EngineError {
    /// The full report text of this error.
    pub open spec fn spec_message(self) -> Seq<char> {
        match self {
            EngineError::InvalidAssociatedTransaction(m) => "Invalid associated transaction: "@
                + m@,
            EngineError::InsufficientFunds => "Insufficient funds"@,
            EngineError::InvalidTransactionStatus(s) => "Transaction is in invalid status: "@
                + s@,
            EngineError::DuplicateEvent => "Duplicate event"@,
            EngineError::AccountLocked(c) => "Client "@ + dec_digits(c@ as nat)
                + " account is locked, no further activity is allowed"@,
            EngineError::InvalidEvent(m) => "Invalid event: "@ + m@,
            EngineError::SystemError(m) => "System error: "@ + m@,
        }
    }

    /// Renders the full report text of this error.
    pub fn message(&self) -> (r: String)
        ensures
            r@ == self.spec_message(),
    {
        match self {
            EngineError::InvalidAssociatedTransaction(m) => {
                let mut r = String::from_str("Invalid associated transaction: ");
                r.append(m);
                r
            },
            EngineError::InsufficientFunds => String::from_str("Insufficient funds"),
            EngineError::InvalidTransactionStatus(s) => {
                let mut r = String::from_str("Transaction is in invalid status: ");
                r.append(s.as_str());
                r
            },
            EngineError::DuplicateEvent => String::from_str("Duplicate event"),
            EngineError::AccountLocked(c) => {
                let mut r = String::from_str("Client ");
                let id = u16_to_dec_string(c.0);
                r.append(id.as_str());
                r.append(" account is locked, no further activity is allowed");
                r
            },
            EngineError::InvalidEvent(m) => {
                let mut r = String::from_str("Invalid event: ");
                r.append(m);
                r
            },
            EngineError::SystemError(m) => {
                let mut r = String::from_str("System error: ");
                r.append(m);
                r
            },
        }
    }

    /// Builds the engine error reporting a refused status transition.
    pub fn from_transition_error(err: TransitionError) -> (r: EngineError)
        ensures
            err matches TransitionError::InvalidTransition(from, to) ==> (
            r matches EngineError::InvalidTransactionStatus(s) && s@ == transition_message(
                from,
                to,
            )),
            err is InvalidDirection ==> (r matches EngineError::InvalidEvent(m) && m@
                == "Invalid transaction"@),
    {
        match err {
            TransitionError::InvalidTransition(from, to) => {
                let mut s = String::from_str(
                    "Operation doesn't apply to this transaction. Transition from ",
                );
                s.append(from.label());
                s.append(" to ");
                s.append(to.label());
                EngineError::InvalidTransactionStatus(s)
            },
            TransitionError::InvalidDirection => EngineError::InvalidEvent("Invalid transaction"),
        }
    }
}

impl From<LedgerError> for EngineError {
    /// Maps a ledger refusal onto the engine's taxonomy: a duplicate
    /// record is a duplicate event, a conflict is a partner-data error.
    fn from(err: LedgerError) -> (r: Self) {
        match err {
            LedgerError::AlreadyExists => EngineError::DuplicateEvent,
            LedgerError::Conflict(message) => EngineError::InvalidEvent(message),
        }
    }
}

impl vstd::std_specs::convert::FromSpecImpl<LedgerError> for EngineError {
    open spec fn obeys_from_spec() -> bool {
        true
    }

    open spec fn from_spec(err: LedgerError) -> Self {
        match err {
            LedgerError::AlreadyExists => EngineError::DuplicateEvent,
            LedgerError::Conflict(message) => EngineError::InvalidEvent(message),
        }
    }
}

} // verus!
