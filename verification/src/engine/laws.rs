//! Laws of the engine: consequences of the `apply` contract that hold
//! for every event stream, proved once and for all from the per-event
//! postconditions.

use vstd::prelude::*;

use crate::engine::errors::EngineError;
use crate::engine::events::Event;
use crate::engine::machine::apply_post;
use crate::engine::machine::state_unchanged;
use crate::engine::machine::Engine;
use crate::ledger::transactions::transition_allowed;
use crate::ledger::transactions::Direction;
use crate::ledger::transactions::TransactionStatus;
use crate::ledger::Ledger;
use crate::types::Amount;
use crate::types::ClientId;
use crate::types::TransactionId;

verus! {

/// At every point, every account keeps `0 <= available <= total`:
/// the bounds are part of the engine invariant, which `new`
/// establishes and `apply` preserves.
pub proof fn lemma_balances_in_range<L: Ledger>(e: Engine<L>, c: u16)
    requires
        e.inv(),
        e.accounts_map().contains_key(c),
    ensures
        0 <= e.accounts_map()[c].available@,
        e.accounts_map()[c].available@ <= e.accounts_map()[c].total@,
{
}

/// A deposit followed at once by its dispute takes the amount out of
/// the available balance, leaves the total unchanged, and freezes
/// exactly the amount: held grows by it.
pub proof fn lemma_deposit_then_dispute<L: Ledger>(
    pre: Engine<L>,
    mid: Engine<L>,
    post: Engine<L>,
    client_id: ClientId,
    transaction_id: TransactionId,
    amount: Amount,
    r1: Result<(), EngineError>,
    r2: Result<(), EngineError>,
)
    requires
        apply_post(pre, mid, Event::Deposit { client_id, transaction_id, amount }, r1),
        r1 is Ok,
        apply_post(mid, post, Event::Dispute { client_id, transaction_id }, r2),
        r2 is Ok,
    ensures
        post.avail_of(client_id@) == mid.avail_of(client_id@) - amount@,
        post.total_of(client_id@) == mid.total_of(client_id@),
        post.total_of(client_id@) - post.avail_of(client_id@) == (mid.total_of(client_id@)
            - mid.avail_of(client_id@)) + amount@,
        mid.total_of(client_id@) == mid.avail_of(client_id@) ==> post.total_of(client_id@)
            - post.avail_of(client_id@) == amount@,
{
}

/// A dispute followed by its resolution restores both balances to
/// their pre-dispute values, and the transaction ends in the terminal
/// `Resolved` status.
pub proof fn lemma_dispute_then_resolve<L: Ledger>(
    pre: Engine<L>,
    mid: Engine<L>,
    post: Engine<L>,
    client_id: ClientId,
    transaction_id: TransactionId,
    r1: Result<(), EngineError>,
    r2: Result<(), EngineError>,
)
    requires
        apply_post(pre, mid, Event::Dispute { client_id, transaction_id }, r1),
        r1 is Ok,
        apply_post(mid, post, Event::Resolve { client_id, transaction_id }, r2),
        r2 is Ok,
    ensures
        post.avail_of(client_id@) == pre.avail_of(client_id@),
        post.total_of(client_id@) == pre.total_of(client_id@),
        post.txs()[(client_id@, transaction_id@)].spec_status() == TransactionStatus::Resolved,
        forall|s: TransactionStatus| !transition_allowed(TransactionStatus::Resolved, s),
{
}

/// A dispute followed by a chargeback locks the account, takes the
/// disputed amount out of the total, and leaves the available balance
/// at its post-dispute value.
pub proof fn lemma_dispute_then_chargeback<L: Ledger>(
    pre: Engine<L>,
    mid: Engine<L>,
    post: Engine<L>,
    client_id: ClientId,
    transaction_id: TransactionId,
    r1: Result<(), EngineError>,
    r2: Result<(), EngineError>,
)
    requires
        apply_post(pre, mid, Event::Dispute { client_id, transaction_id }, r1),
        r1 is Ok,
        apply_post(mid, post, Event::Chargeback { client_id, transaction_id }, r2),
        r2 is Ok,
    ensures
        post.locked(client_id@),
        post.total_of(client_id@) == mid.total_of(client_id@) - pre.txs()[
            (client_id@, transaction_id@)
        ].spec_info().amount@,
        post.avail_of(client_id@) == mid.avail_of(client_id@),
{
}

/// Re-submitting the identical deposit after a successful one yields
/// the duplicate-event error and changes nothing.
pub proof fn lemma_duplicate_deposit<L: Ledger>(
    pre: Engine<L>,
    mid: Engine<L>,
    post: Engine<L>,
    client_id: ClientId,
    transaction_id: TransactionId,
    amount: Amount,
    r1: Result<(), EngineError>,
    r2: Result<(), EngineError>,
)
    requires
        apply_post(pre, mid, Event::Deposit { client_id, transaction_id, amount }, r1),
        r1 is Ok,
        apply_post(mid, post, Event::Deposit { client_id, transaction_id, amount }, r2),
    ensures
        r2 matches Err(EngineError::DuplicateEvent),
        state_unchanged(mid, post),
{
}

/// An event that reaches a locked account is refused with the
/// locked-account error, and no account changes. An event fails
/// earlier, with its own error, when its transaction lookup or status
/// transition is invalid; those inputs are excluded here. A deposit or
/// withdrawal still leaves its fresh row in the ledger.
pub proof fn lemma_locked_account_rejects<L: Ledger>(
    pre: Engine<L>,
    post: Engine<L>,
    event: Event,
    c: u16,
    r: Result<(), EngineError>,
)
    requires
        apply_post(pre, post, event, r),
        pre.locked(c),
        match event {
            Event::Deposit { client_id, transaction_id, amount } => {
                &&& client_id@ == c
                &&& amount@ >= 0
                &&& !pre.txs().contains_key((c, transaction_id@))
                &&& !(pre.owners().contains_key(transaction_id@) && pre.owners()[transaction_id@]
                    != c)
            },
            Event::Withdraw { client_id, transaction_id, amount } => {
                &&& client_id@ == c
                &&& amount@ >= 0
                &&& !pre.txs().contains_key((c, transaction_id@))
                &&& !(pre.owners().contains_key(transaction_id@) && pre.owners()[transaction_id@]
                    != c)
            },
            Event::Dispute { client_id, transaction_id } => {
                &&& client_id@ == c
                &&& pre.txs().contains_key((c, transaction_id@))
                &&& pre.txs()[(c, transaction_id@)].spec_direction() == Direction::Inbound
                &&& pre.txs()[(c, transaction_id@)].spec_status() == TransactionStatus::Settled
            },
            Event::Resolve { client_id, transaction_id } => {
                &&& client_id@ == c
                &&& pre.txs().contains_key((c, transaction_id@))
                &&& pre.txs()[(c, transaction_id@)].spec_direction() == Direction::Inbound
                &&& pre.txs()[(c, transaction_id@)].spec_status() == TransactionStatus::Disputed
            },
            Event::Chargeback { client_id, transaction_id } => {
                &&& client_id@ == c
                &&& pre.txs().contains_key((c, transaction_id@))
                &&& pre.txs()[(c, transaction_id@)].spec_direction() == Direction::Inbound
                &&& pre.txs()[(c, transaction_id@)].spec_status() == TransactionStatus::Disputed
            },
        },
    ensures
        r matches Err(EngineError::AccountLocked(cc)) && cc@ == c,
        post.accounts_map() == pre.accounts_map(),
        post.order() == pre.order(),
{
}

/// A transaction identity can belong to only one client: a deposit or
/// withdrawal that re-uses another client's transaction identity is
/// refused, and nothing changes.
pub proof fn lemma_transaction_id_unique<L: Ledger>(
    pre: Engine<L>,
    post: Engine<L>,
    event: Event,
    c: u16,
    t: u32,
    r: Result<(), EngineError>,
)
    requires
        apply_post(pre, post, event, r),
        match event {
            Event::Deposit { client_id, transaction_id, amount } => client_id@ == c
                && transaction_id@ == t && amount@ >= 0,
            Event::Withdraw { client_id, transaction_id, amount } => client_id@ == c
                && transaction_id@ == t && amount@ >= 0,
            _ => false,
        },
        !pre.txs().contains_key((c, t)),
        pre.owners().contains_key(t),
        pre.owners()[t] != c,
    ensures
        r matches Err(EngineError::InvalidEvent(m)) && m@
            == "Transaction belong to a different client"@,
        state_unchanged(pre, post),
{
}

/// A dispute, resolution or chargeback that names a pair `(client,
/// transaction)` with no record is refused as not found — also when
/// the transaction identity exists under another client, which the
/// pair lookup deliberately masks.
pub proof fn lemma_absent_transaction_not_found<L: Ledger>(
    pre: Engine<L>,
    post: Engine<L>,
    event: Event,
    c: u16,
    t: u32,
    r: Result<(), EngineError>,
)
    requires
        apply_post(pre, post, event, r),
        match event {
            Event::Dispute { client_id, transaction_id } => client_id@ == c && transaction_id@
                == t,
            Event::Resolve { client_id, transaction_id } => client_id@ == c && transaction_id@
                == t,
            Event::Chargeback { client_id, transaction_id } => client_id@ == c && transaction_id@
                == t,
            _ => false,
        },
        !pre.txs().contains_key((c, t)),
    ensures
        r matches Err(EngineError::InvalidEvent(m)) && m@ == "transaction not found"@,
        state_unchanged(pre, post),
{
}

} // verus!
