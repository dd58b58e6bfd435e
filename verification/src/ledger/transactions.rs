//! Transaction records and their status state machine.
//!
//! A transaction is either inbound (a deposit) or outbound (a
//! withdrawal). An inbound transaction moves through the statuses
//! `Settled -> Disputed -> Resolved | ChargedBack`; an outbound
//! transaction stays `Settled` forever.

use vstd::prelude::*;

use crate::types::Amount;
use crate::types::ClientId;
use crate::types::TransactionId;

verus! {

/// The immutable payload of a transaction.
#[derive(Clone, Copy, Debug, PartialEq, Eq, Structural)]
pub struct TransactionInfo {
    pub id: TransactionId,
    pub client_id: ClientId,
    pub amount: Amount,
}

/// An inbound transaction, tagged by its current status.
#[derive(Clone, Copy, Debug, PartialEq, Eq, Structural)]
pub enum InboundTransaction {
    Settled(TransactionInfo),
    Disputed(TransactionInfo),
    Resolved(TransactionInfo),
    ChargedBack(TransactionInfo),
}

/// An outbound transaction; its only status is settled.
#[derive(Clone, Copy, Debug, PartialEq, Eq, Structural)]
pub enum OutboundTransaction {
    Settled(TransactionInfo),
}

/// A transaction record: direction plus status plus payload.
#[derive(Clone, Copy, Debug, PartialEq, Eq, Structural)]
pub enum Transaction {
    Inbound(InboundTransaction),
    Outbound(OutboundTransaction),
}

/// The direction of a transaction.
#[derive(Clone, Copy, Debug, PartialEq, Eq, Structural)]
pub enum Direction {
    Inbound,
    Outbound,
}

/// The status of a transaction.
#[derive(Clone, Copy, Debug, PartialEq, Eq, Structural)]
pub enum TransactionStatus {
    Settled,
    Disputed,
    Resolved,
    ChargedBack,
}

/// Why a status transition was refused.
#[derive(Clone, Copy, Debug, PartialEq, Eq, Structural)]
pub enum TransitionError {
    InvalidTransition(TransactionStatus, TransactionStatus),
    InvalidDirection,
}

/// The reporting name of a status.
pub open spec fn status_name(s: TransactionStatus) -> Seq<char> {
    match s {
        TransactionStatus::Settled => "Settled"@,
        TransactionStatus::Disputed => "Disputed"@,
        TransactionStatus::Resolved => "Resolved"@,
        TransactionStatus::ChargedBack => "ChargedBack"@,
    }
}

impl TransactionStatus {
    /// The reporting name of this status.
    pub fn label(&self) -> (r: &'static str)
        ensures
            r@ == status_name(*self),
    {
        match self {
            TransactionStatus::Settled => "Settled",
            TransactionStatus::Disputed => "Disputed",
            TransactionStatus::Resolved => "Resolved",
            TransactionStatus::ChargedBack => "ChargedBack",
        }
    }
}

/// The transitions the inbound state machine allows.
pub open spec fn transition_allowed(from: TransactionStatus, to: TransactionStatus) -> bool {
    ||| (from == TransactionStatus::Settled && to == TransactionStatus::Disputed)
    ||| (from == TransactionStatus::Disputed && to == TransactionStatus::Resolved)
    ||| (from == TransactionStatus::Disputed && to == TransactionStatus::ChargedBack)
}

/// The inbound transaction with payload `info` and status `to`.
pub open spec fn inbound_with_status(info: TransactionInfo, to: TransactionStatus) -> Transaction {
    match to {
        TransactionStatus::Settled => Transaction::Inbound(InboundTransaction::Settled(info)),
        TransactionStatus::Disputed => Transaction::Inbound(InboundTransaction::Disputed(info)),
        TransactionStatus::Resolved => Transaction::Inbound(InboundTransaction::Resolved(info)),
        TransactionStatus::ChargedBack => Transaction::Inbound(
            InboundTransaction::ChargedBack(info),
        ),
    }
}

impl Transaction {
    /// The payload of this transaction.
    pub open spec fn spec_info(self) -> TransactionInfo {
        match self {
            Transaction::Inbound(InboundTransaction::Settled(info)) => info,
            Transaction::Inbound(InboundTransaction::Disputed(info)) => info,
            Transaction::Inbound(InboundTransaction::Resolved(info)) => info,
            Transaction::Inbound(InboundTransaction::ChargedBack(info)) => info,
            Transaction::Outbound(OutboundTransaction::Settled(info)) => info,
        }
    }

    /// The current status of this transaction.
    pub open spec fn spec_status(self) -> TransactionStatus {
        match self {
            Transaction::Inbound(InboundTransaction::Settled(_)) => TransactionStatus::Settled,
            Transaction::Inbound(InboundTransaction::Disputed(_)) => TransactionStatus::Disputed,
            Transaction::Inbound(InboundTransaction::Resolved(_)) => TransactionStatus::Resolved,
            Transaction::Inbound(InboundTransaction::ChargedBack(_)) =>
                TransactionStatus::ChargedBack,
            Transaction::Outbound(OutboundTransaction::Settled(_)) => TransactionStatus::Settled,
        }
    }

    /// The direction of this transaction.
    pub open spec fn spec_direction(self) -> Direction {
        match self {
            Transaction::Inbound(_) => Direction::Inbound,
            Transaction::Outbound(_) => Direction::Outbound,
        }
    }

    /// A fresh settled inbound transaction (a deposit).
    pub fn new_settled_inbound(id: TransactionId, client_id: ClientId, amount: Amount) -> (r: Self)
        ensures
            r == Transaction::Inbound(
                InboundTransaction::Settled(TransactionInfo { id, client_id, amount }),
            ),
    {
        Transaction::Inbound(InboundTransaction::Settled(TransactionInfo { id, client_id, amount }))
    }

    /// A fresh settled outbound transaction (a withdrawal).
    pub fn new_settled_outbound(id: TransactionId, client_id: ClientId, amount: Amount) -> (r: Self)
        ensures
            r == Transaction::Outbound(
                OutboundTransaction::Settled(TransactionInfo { id, client_id, amount }),
            ),
    {
        Transaction::Outbound(
            OutboundTransaction::Settled(TransactionInfo { id, client_id, amount }),
        )
    }

    /// The payload of this transaction.
    pub fn info(&self) -> (r: TransactionInfo)
        ensures
            r == self.spec_info(),
    {
        match self {
            Transaction::Inbound(InboundTransaction::Settled(info)) => *info,
            Transaction::Inbound(InboundTransaction::Disputed(info)) => *info,
            Transaction::Inbound(InboundTransaction::Resolved(info)) => *info,
            Transaction::Inbound(InboundTransaction::ChargedBack(info)) => *info,
            Transaction::Outbound(OutboundTransaction::Settled(info)) => *info,
        }
    }

    /// The current status of this transaction.
    pub fn status(&self) -> (r: TransactionStatus)
        ensures
            r == self.spec_status(),
    {
        match self {
            Transaction::Inbound(InboundTransaction::Settled(_)) => TransactionStatus::Settled,
            Transaction::Inbound(InboundTransaction::Disputed(_)) => TransactionStatus::Disputed,
            Transaction::Inbound(InboundTransaction::Resolved(_)) => TransactionStatus::Resolved,
            Transaction::Inbound(InboundTransaction::ChargedBack(_)) =>
                TransactionStatus::ChargedBack,
            Transaction::Outbound(OutboundTransaction::Settled(_)) => TransactionStatus::Settled,
        }
    }

    /// The direction of this transaction.
    pub fn direction(&self) -> (r: Direction)
        ensures
            r == self.spec_direction(),
    {
        match self {
            Transaction::Inbound(_) => Direction::Inbound,
            Transaction::Outbound(_) => Direction::Outbound,
        }
    }

    /// Moves an inbound transaction through its state machine.
    ///
    /// The valid transitions are exactly `Settled -> Disputed`,
    /// `Disputed -> Resolved` and `Disputed -> ChargedBack`; `Resolved`
    /// and `ChargedBack` are terminal, and an outbound transaction
    /// never leaves `Settled`.
    pub fn transition_inbound(&mut self, status: TransactionStatus) -> (r: Result<
        (),
        TransitionError,
    >)
        ensures
            old(self).spec_direction() != Direction::Inbound ==> r == Err::<(), TransitionError>(
                TransitionError::InvalidDirection,
            ) && *final(self) == *old(self),
            old(self).spec_direction() == Direction::Inbound && transition_allowed(
                old(self).spec_status(),
                status,
            ) ==> r == Ok::<(), TransitionError>(()) && *final(self) == inbound_with_status(
                old(self).spec_info(),
                status,
            ),
            old(self).spec_direction() == Direction::Inbound && !transition_allowed(
                old(self).spec_status(),
                status,
            ) ==> r == Err::<(), TransitionError>(
                TransitionError::InvalidTransition(old(self).spec_status(), status),
            ) && *final(self) == *old(self),
    {
        if self.direction() != Direction::Inbound {
            return Err(TransitionError::InvalidDirection);
        }
        let old_status = self.status();
        match (old_status, status) {
            (TransactionStatus::Settled, TransactionStatus::Disputed) => {
                *self = Transaction::Inbound(InboundTransaction::Disputed(self.info()));
            },
            (TransactionStatus::Disputed, TransactionStatus::Resolved) => {
                *self = Transaction::Inbound(InboundTransaction::Resolved(self.info()));
            },
            (TransactionStatus::Disputed, TransactionStatus::ChargedBack) => {
                *self = Transaction::Inbound(InboundTransaction::ChargedBack(self.info()));
            },
            _ => {
                return Err(TransitionError::InvalidTransition(old_status, status));
            },
        }
        Ok(())
    }
}

} // verus!
