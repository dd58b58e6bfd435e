//! The ledger abstraction: a keyed store of transactions.
//!
//! A ledger stores transactions under the pair `(client, transaction)`
//! and keeps an auxiliary association from each transaction identity to
//! the one client that owns it, so a transaction identity can never be
//! shared by two clients.
//!
//! Every implementation must meet the contracts below; the engine is
//! verified against them alone. An in-memory implementation is provided.

use vstd::prelude::*;

use crate::ledger::transactions::Transaction;
use crate::types::ClientId;
use crate::types::TransactionId;

pub mod in_memory;
pub mod transactions;

verus! {

/// Why a ledger operation was refused.
#[derive(Clone, Copy, Debug, PartialEq, Eq)]
pub enum LedgerError {
    AlreadyExists,
    Conflict(&'static str),
}

/// What `add` does: inserting a brand-new transaction.
///
/// With `k` the pair of the given client and the transaction's own
/// identity: an existing record under `k` is refused (`AlreadyExists`
/// when it is identical, a conflict otherwise); a transaction identity
/// owned by a different client is refused as a conflict; otherwise the
/// record and its ownership are stored.
pub open spec fn add_post(
    txs: Map<(u16, u32), Transaction>,
    owner: Map<u32, u16>,
    txs2: Map<(u16, u32), Transaction>,
    owner2: Map<u32, u16>,
    c: u16,
    tx: Transaction,
    r: Result<(), LedgerError>,
) -> bool {
    let t = tx.spec_info().id@;
    let k = (c, t);
    if txs.contains_key(k) {
        &&& txs2 == txs
        &&& owner2 == owner
        &&& if txs[k] == tx {
            r == Err::<(), LedgerError>(LedgerError::AlreadyExists)
        } else {
            r matches Err(LedgerError::Conflict(m)) && m@
                == "Transaction already exist but with different details"@
        }
    } else if owner.contains_key(t) && owner[t] != c {
        &&& txs2 == txs
        &&& owner2 == owner
        &&& r matches Err(LedgerError::Conflict(m)) && m@
            == "Transaction belong to a different client"@
    } else {
        &&& txs2 == txs.insert(k, tx)
        &&& owner2 == owner.insert(t, c)
        &&& r == Ok::<(), LedgerError>(())
    }
}

/// What `update` does: replacing the record under the pair key.
///
/// A record that belongs to a different client is refused; otherwise
/// the record under the key becomes the given transaction (a missing
/// record is created), and ownership records are untouched.
pub open spec fn update_post(
    txs: Map<(u16, u32), Transaction>,
    owner: Map<u32, u16>,
    txs2: Map<(u16, u32), Transaction>,
    owner2: Map<u32, u16>,
    c: u16,
    tx: Transaction,
    r: Result<(), LedgerError>,
) -> bool {
    let t = tx.spec_info().id@;
    let k = (c, t);
    if txs.contains_key(k) && txs[k].spec_info().client_id@ != c {
        &&& txs2 == txs
        &&& owner2 == owner
        &&& r matches Err(LedgerError::Conflict(m)) && m@
            == "Transaction belong to a different client"@
    } else {
        &&& txs2 == txs.insert(k, tx)
        &&& owner2 == owner
        &&& r == Ok::<(), LedgerError>(())
    }
}

/// What `find` does: returning a copy of the record under the pair key,
/// or nothing. A record owned by another client is not revealed.
pub open spec fn find_post(
    txs: Map<(u16, u32), Transaction>,
    c: u16,
    t: u32,
    r: Result<Option<Transaction>, LedgerError>,
) -> bool {
    r == Ok::<Option<Transaction>, LedgerError>(
        if txs.contains_key((c, t)) {
            Some(txs[(c, t)])
        } else {
            None
        },
    )
}

/// A keyed store of transactions, with global uniqueness of each
/// transaction identity across clients.
pub trait Ledger: Sized {
    /// The stored transactions, keyed by `(client, transaction)`.
    spec fn txs(&self) -> Map<(u16, u32), Transaction>;

    /// Which client owns each transaction identity ever added.
    spec fn owner(&self) -> Map<u32, u16>;

    /// The implementation's own well-formedness.
    spec fn wf(&self) -> bool;

    /// Adds a brand-new transaction.
    fn add(&mut self, client_id: ClientId, transaction: Transaction) -> (r: Result<
        (),
        LedgerError,
    >)
        requires
            old(self).wf(),
        ensures
            final(self).wf(),
            add_post(
                old(self).txs(),
                old(self).owner(),
                final(self).txs(),
                final(self).owner(),
                client_id@,
                transaction,
                r,
            ),
    ;

    /// Replaces the record of an existing transaction.
    fn update(&mut self, client_id: ClientId, transaction: Transaction) -> (r: Result<
        (),
        LedgerError,
    >)
        requires
            old(self).wf(),
        ensures
            final(self).wf(),
            update_post(
                old(self).txs(),
                old(self).owner(),
                final(self).txs(),
                final(self).owner(),
                client_id@,
                transaction,
                r,
            ),
    ;

    /// Returns a copy of the stored transaction, or nothing.
    fn find(&self, client_id: ClientId, transaction_id: TransactionId) -> (r: Result<
        Option<Transaction>,
        LedgerError,
    >)
        requires
            self.wf(),
        ensures
            find_post(self.txs(), client_id@, transaction_id@, r),
    ;
}

} // verus!
