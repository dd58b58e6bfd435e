//! The in-memory ledger: transactions in a hash map keyed by the
//! packed pair `(client, transaction)`, with an auxiliary map from each
//! transaction identity to the client that owns it.

use std::collections::HashMap;

use vstd::prelude::*;

use crate::ledger::add_post;
use crate::ledger::find_post;
use crate::ledger::transactions::Transaction;
use crate::ledger::update_post;
use crate::ledger::Ledger;
use crate::ledger::LedgerError;
use crate::types::ClientId;
use crate::types::TransactionId;

verus! {

broadcast use vstd::std_specs::hash::group_hash_axioms;

/// The single storage key for the pair `(client, transaction)`:
/// the client number in the high 32 bits, the transaction number in
/// the low 32 bits.
pub open spec fn pack_key(c: u16, t: u32) -> u64 {
    (c as u64 * 0x1_0000_0000 + t as u64) as u64
}

/// Packing is injective: distinct pairs get distinct keys.
proof fn lemma_pack_injective(c1: u16, t1: u32, c2: u16, t2: u32)
    requires
        pack_key(c1, t1) == pack_key(c2, t2),
    ensures
        c1 == c2 && t1 == t2,
{
}

/// The pair-keyed view of the packed storage map.
pub open spec fn derived_txs(m: Map<u64, Transaction>) -> Map<(u16, u32), Transaction> {
    Map::new(
        |k: (u16, u32)| m.contains_key(pack_key(k.0, k.1)),
        |k: (u16, u32)| m[pack_key(k.0, k.1)],
    )
}

proof fn lemma_derived_txs_insert(m: Map<u64, Transaction>, c: u16, t: u32, tx: Transaction)
    ensures
        derived_txs(m.insert(pack_key(c, t), tx)) == derived_txs(m).insert((c, t), tx),
{
    let lhs = derived_txs(m.insert(pack_key(c, t), tx));
    let rhs = derived_txs(m).insert((c, t), tx);
    assert forall|k: (u16, u32)| lhs.contains_key(k) implies rhs.contains_key(k) by {
        if pack_key(k.0, k.1) == pack_key(c, t) {
            lemma_pack_injective(k.0, k.1, c, t);
        }
    }
    assert forall|k: (u16, u32)| rhs.contains_key(k) implies lhs.contains_key(k) by {}
    assert forall|k: (u16, u32)| lhs.contains_key(k) implies lhs[k] == rhs[k] by {
        if pack_key(k.0, k.1) == pack_key(c, t) {
            lemma_pack_injective(k.0, k.1, c, t);
        }
    }
    assert(lhs =~= rhs);
}

/// The executable storage key for a pair.
fn key_of(client_id: ClientId, transaction_id: TransactionId) -> (r: u64)
    ensures
        r == pack_key(client_id@, transaction_id@),
{
    client_id.0 as u64 * 0x1_0000_0000 + transaction_id.0 as u64
}

/// A ledger held entirely in memory.
#[derive(Debug)]
pub struct InMemoryLedger {
    transactions: HashMap<u64, Transaction>,
    transaction_id_client_id: HashMap<u32, u16>,
}

impl InMemoryLedger {
    /// An empty ledger.
    pub fn new() -> (r: Self)
        ensures
            r.wf(),
            r.txs() == Map::<(u16, u32), Transaction>::empty(),
            r.owner() == Map::<u32, u16>::empty(),
    {
        let r = InMemoryLedger {
            transactions: HashMap::new(),
            transaction_id_client_id: HashMap::new(),
        };
        proof {
            assert(r.txs() =~= Map::<(u16, u32), Transaction>::empty());
            assert(r.owner() =~= Map::<u32, u16>::empty());
        }
        r
    }
}

impl Default for InMemoryLedger {
    /// An empty ledger.
    fn default() -> (r: Self)
        ensures
            r.wf(),
            r.txs() == Map::<(u16, u32), Transaction>::empty(),
            r.owner() == Map::<u32, u16>::empty(),
    {
        InMemoryLedger::new()
    }
}

impl Ledger for InMemoryLedger {
    closed spec fn txs(&self) -> Map<(u16, u32), Transaction> {
        derived_txs(self.transactions@)
    }

    closed spec fn owner(&self) -> Map<u32, u16> {
        self.transaction_id_client_id@
    }

    closed spec fn wf(&self) -> bool {
        true
    }

    fn add(&mut self, client_id: ClientId, transaction: Transaction) -> (r: Result<
        (),
        LedgerError,
    >) {
        let info = transaction.info();
        let key = key_of(client_id, info.id);
        match self.transactions.get(&key) {
            Some(existing) => {
                if *existing == transaction {
                    Err(LedgerError::AlreadyExists)
                } else {
                    Err(LedgerError::Conflict("Transaction already exist but with different details"))
                }
            },
            None => {
                let mut belongs_elsewhere = false;
                match self.transaction_id_client_id.get(&info.id.0) {
                    Some(c) => {
                        if *c != client_id.0 {
                            belongs_elsewhere = true;
                        }
                    },
                    None => {},
                }
                if belongs_elsewhere {
                    Err(LedgerError::Conflict("Transaction belong to a different client"))
                } else {
                    self.transaction_id_client_id.insert(info.id.0, client_id.0);
                    self.transactions.insert(key, transaction);
                    proof {
                        lemma_derived_txs_insert(
                            old(self).transactions@,
                            client_id@,
                            info.id@,
                            transaction,
                        );
                    }
                    Ok(())
                }
            },
        }
    }

    fn update(&mut self, client_id: ClientId, transaction: Transaction) -> (r: Result<
        (),
        LedgerError,
    >) {
        let info = transaction.info();
        let key = key_of(client_id, info.id);
        let mut conflicting = false;
        let mut identical = false;
        match self.transactions.get(&key) {
            Some(existing) => {
                if existing.info().client_id.0 != client_id.0 {
                    conflicting = true;
                } else if *existing == transaction {
                    identical = true;
                }
            },
            None => {},
        }
        if conflicting {
            Err(LedgerError::Conflict("Transaction belong to a different client"))
        } else if identical {
            proof {
                assert(self.txs() =~= old(self).txs().insert((client_id@, info.id@), transaction));
            }
            Ok(())
        } else {
            self.transactions.insert(key, transaction);
            proof {
                lemma_derived_txs_insert(
                    old(self).transactions@,
                    client_id@,
                    info.id@,
                    transaction,
                );
            }
            Ok(())
        }
    }

    fn find(&self, client_id: ClientId, transaction_id: TransactionId) -> (r: Result<
        Option<Transaction>,
        LedgerError,
    >) {
        let key = key_of(client_id, transaction_id);
        match self.transactions.get(&key) {
            Some(tx) => Ok(Some(*tx)),
            None => Ok(None),
        }
    }
}

} // verus!
