//! The engine: applies events to the ledger and the per-client
//! accounts, classifying every failure.
//!
//! The central invariant, kept by every operation: for each client,
//! `0 <= available <= total`, and the held part `total - available`
//! equals the sum of the amounts of that client's currently disputed
//! transactions.

use std::collections::HashMap;

use vstd::prelude::*;
use vstd::set_lib::lemma_set_subset_finite;

use crate::engine::accounts::ClientAccount;
use crate::engine::errors::transition_message;
use crate::engine::errors::EngineError;
use crate::engine::events::Event;
use crate::ledger::transactions::inbound_with_status;
use crate::ledger::transactions::Direction;
use crate::ledger::transactions::InboundTransaction;
use crate::ledger::transactions::Transaction;
use crate::ledger::transactions::TransactionInfo;
use crate::ledger::transactions::TransactionStatus;
use crate::ledger::Ledger;
use crate::sums::lemma_sum_congruent;
use crate::sums::lemma_sum_element_bound;
use crate::sums::lemma_sum_empty;
use crate::sums::lemma_sum_insert;
use crate::sums::lemma_sum_remove;
use crate::sums::sum_over;
use crate::types::Amount;
use crate::types::ClientId;
use crate::types::TransactionId;
use crate::types::AMOUNT_UNITS_MAX;

verus! {

broadcast use vstd::std_specs::hash::group_hash_axioms;

/// Whether a transaction currently stands disputed.
pub open spec fn is_disputed(tx: Transaction) -> bool {
    tx matches Transaction::Inbound(InboundTransaction::Disputed(_))
}

/// The keys of the transactions of client `c` that stand disputed.
pub open spec fn disputed_keys(txs: Map<(u16, u32), Transaction>, c: u16) -> Set<(u16, u32)> {
    txs.dom().filter(|k: (u16, u32)| k.0 == c && is_disputed(txs[k]))
}

/// The amount stored under a key.
pub open spec fn amount_of(txs: Map<(u16, u32), Transaction>) -> spec_fn((u16, u32)) -> int {
    |k: (u16, u32)| txs[k].spec_info().amount@
}

/// The sum of the amounts of the disputed transactions of client `c`.
pub open spec fn held_sum(txs: Map<(u16, u32), Transaction>, c: u16) -> int {
    sum_over(disputed_keys(txs, c), amount_of(txs))
}

/// Every stored transaction is keyed by its own identities, carries an
/// amount in range, and its identity is owned by its client.
pub open spec fn ledger_entries_wf(
    txs: Map<(u16, u32), Transaction>,
    owner: Map<u32, u16>,
) -> bool {
    forall|k: (u16, u32)| #[trigger] txs.contains_key(k) ==> {
        &&& txs[k].spec_info().id@ == k.1
        &&& txs[k].spec_info().client_id@ == k.0
        &&& 0 <= txs[k].spec_info().amount@ <= AMOUNT_UNITS_MAX
        &&& owner.contains_key(k.1)
        &&& owner[k.1] == k.0
    }
}

proof fn lemma_disputed_finite(txs: Map<(u16, u32), Transaction>, c: u16)
    requires
        txs.dom().finite(),
    ensures
        disputed_keys(txs, c).finite(),
{
    lemma_set_subset_finite(txs.dom(), disputed_keys(txs, c));
}

/// Inserting a transaction that is not disputed, at a key that was not
/// disputed either, leaves every client's disputed set and held sum
/// unchanged.
proof fn lemma_held_sum_insert_undisputed(
    txs: Map<(u16, u32), Transaction>,
    k: (u16, u32),
    tx: Transaction,
)
    requires
        txs.dom().finite(),
        !is_disputed(tx),
        txs.contains_key(k) ==> !is_disputed(txs[k]),
    ensures
        forall|c: u16| #[trigger] disputed_keys(txs.insert(k, tx), c) == disputed_keys(txs, c),
        forall|c: u16| #[trigger] held_sum(txs.insert(k, tx), c) == held_sum(txs, c),
{
    let txs2 = txs.insert(k, tx);
    assert forall|c: u16| #[trigger] disputed_keys(txs2, c) == disputed_keys(txs, c) by {
        assert(disputed_keys(txs2, c) =~= disputed_keys(txs, c));
    }
    assert forall|c: u16| #[trigger] held_sum(txs2, c) == held_sum(txs, c) by {
        lemma_disputed_finite(txs, c);
        assert(forall|k2: (u16, u32)|
            disputed_keys(txs, c).contains(k2) ==> #[trigger] amount_of(txs2)(k2) == amount_of(
                txs,
            )(k2));
        lemma_sum_congruent(disputed_keys(txs, c), amount_of(txs2), amount_of(txs));
    }
}

/// Replacing a settled transaction by its disputed version adds its
/// amount to its client's held sum and touches no other client.
proof fn lemma_held_sum_dispute(txs: Map<(u16, u32), Transaction>, k: (u16, u32), tx: Transaction)
    requires
        txs.dom().finite(),
        txs.contains_key(k),
        !is_disputed(txs[k]),
        is_disputed(tx),
        tx.spec_info() == txs[k].spec_info(),
    ensures
        held_sum(txs.insert(k, tx), k.0) == held_sum(txs, k.0) + txs[k].spec_info().amount@,
        forall|c: u16| c != k.0 ==> #[trigger] held_sum(txs.insert(k, tx), c) == held_sum(txs, c),
        forall|c: u16|
            c != k.0 ==> #[trigger] disputed_keys(txs.insert(k, tx), c) == disputed_keys(txs, c),
{
    let txs2 = txs.insert(k, tx);
    let c = k.0;
    assert(disputed_keys(txs2, c) =~= disputed_keys(txs, c).insert(k));
    lemma_disputed_finite(txs, c);
    assert(!disputed_keys(txs, c).contains(k));
    lemma_sum_insert(disputed_keys(txs, c), amount_of(txs2), k);
    assert(forall|k2: (u16, u32)|
        disputed_keys(txs, c).contains(k2) ==> #[trigger] amount_of(txs2)(k2) == amount_of(txs)(
            k2,
        ));
    lemma_sum_congruent(disputed_keys(txs, c), amount_of(txs2), amount_of(txs));
    assert(amount_of(txs2)(k) == tx.spec_info().amount@);
    assert forall|c2: u16| c2 != k.0 implies #[trigger] held_sum(txs2, c2) == held_sum(txs, c2) by {
        assert(disputed_keys(txs2, c2) =~= disputed_keys(txs, c2));
        lemma_disputed_finite(txs, c2);
        assert(forall|k2: (u16, u32)|
            disputed_keys(txs, c2).contains(k2) ==> #[trigger] amount_of(txs2)(k2) == amount_of(
                txs,
            )(k2));
        lemma_sum_congruent(disputed_keys(txs, c2), amount_of(txs2), amount_of(txs));
    }
    assert forall|c2: u16| c2 != k.0 implies #[trigger] disputed_keys(txs2, c2) == disputed_keys(
        txs,
        c2,
    ) by {
        assert(disputed_keys(txs2, c2) =~= disputed_keys(txs, c2));
    }
}

/// Replacing a disputed transaction by an undisputed version removes
/// its amount from its client's held sum and touches no other client.
proof fn lemma_held_sum_undispute(
    txs: Map<(u16, u32), Transaction>,
    k: (u16, u32),
    tx: Transaction,
)
    requires
        txs.dom().finite(),
        txs.contains_key(k),
        is_disputed(txs[k]),
        !is_disputed(tx),
    ensures
        held_sum(txs.insert(k, tx), k.0) == held_sum(txs, k.0) - txs[k].spec_info().amount@,
        forall|c: u16| c != k.0 ==> #[trigger] held_sum(txs.insert(k, tx), c) == held_sum(txs, c),
        forall|c: u16|
            c != k.0 ==> #[trigger] disputed_keys(txs.insert(k, tx), c) == disputed_keys(txs, c),
{
    let txs2 = txs.insert(k, tx);
    let c = k.0;
    assert(disputed_keys(txs2, c) =~= disputed_keys(txs, c).remove(k));
    lemma_disputed_finite(txs, c);
    assert(disputed_keys(txs, c).contains(k));
    lemma_sum_remove(disputed_keys(txs, c), amount_of(txs), k);
    assert(forall|k2: (u16, u32)|
        disputed_keys(txs2, c).contains(k2) ==> #[trigger] amount_of(txs2)(k2) == amount_of(txs)(
            k2,
        ));
    lemma_sum_congruent(disputed_keys(txs2, c), amount_of(txs2), amount_of(txs));
    assert forall|c2: u16| c2 != k.0 implies #[trigger] held_sum(txs2, c2) == held_sum(txs, c2) by {
        assert(disputed_keys(txs2, c2) =~= disputed_keys(txs, c2));
        lemma_disputed_finite(txs, c2);
        assert(forall|k2: (u16, u32)|
            disputed_keys(txs, c2).contains(k2) ==> #[trigger] amount_of(txs2)(k2) == amount_of(
                txs,
            )(k2));
        lemma_sum_congruent(disputed_keys(txs, c2), amount_of(txs2), amount_of(txs));
    }
    assert forall|c2: u16| c2 != k.0 implies #[trigger] disputed_keys(txs2, c2) == disputed_keys(
        txs,
        c2,
    ) by {
        assert(disputed_keys(txs2, c2) =~= disputed_keys(txs, c2));
    }
}

/// The amount of one disputed transaction never exceeds its client's
/// held sum, and the held sum is never negative.
proof fn lemma_held_sum_bounds(
    txs: Map<(u16, u32), Transaction>,
    owner: Map<u32, u16>,
    k: (u16, u32),
)
    requires
        txs.dom().finite(),
        ledger_entries_wf(txs, owner),
        txs.contains_key(k),
        is_disputed(txs[k]),
    ensures
        txs[k].spec_info().amount@ <= held_sum(txs, k.0),
{
    let c = k.0;
    lemma_disputed_finite(txs, c);
    assert(disputed_keys(txs, c).contains(k));
    lemma_sum_element_bound(disputed_keys(txs, c), amount_of(txs), k);
}

/// The engine: per-client accounts plus the ledger it consults.
#[derive(Debug)]
pub struct Engine<L> {
    accounts: HashMap<u16, ClientAccount>,
    client_order: Vec<u16>,
    ledger: L,
}

impl<L: Ledger> Engine<L> {
    /// The per-client accounts.
    pub closed spec fn accounts_map(&self) -> Map<u16, ClientAccount> {
        self.accounts@
    }

    /// The clients, in the order their accounts were created.
    pub closed spec fn order(&self) -> Seq<u16> {
        self.client_order@
    }

    /// The ledger the engine consults.
    pub closed spec fn spec_ledger(&self) -> L {
        self.ledger
    }

    /// The stored transactions, through the ledger's own model.
    pub open spec fn txs(&self) -> Map<(u16, u32), Transaction> {
        self.spec_ledger().txs()
    }

    /// Which client owns each transaction identity.
    pub open spec fn owners(&self) -> Map<u32, u16> {
        self.spec_ledger().owner()
    }

    /// The available balance of client `c`; zero before any event
    /// touches the client.
    pub open spec fn avail_of(&self, c: u16) -> int {
        if self.accounts_map().contains_key(c) {
            self.accounts_map()[c].available@
        } else {
            0
        }
    }

    /// The total balance of client `c`; zero before any event touches
    /// the client.
    pub open spec fn total_of(&self, c: u16) -> int {
        if self.accounts_map().contains_key(c) {
            self.accounts_map()[c].total@
        } else {
            0
        }
    }

    /// Whether the account of client `c` is locked.
    pub open spec fn locked(&self, c: u16) -> bool {
        self.accounts_map().contains_key(c) && self.accounts_map()[c].is_locked
    }

    /// The engine's invariant: the ledger is well formed, every account
    /// keeps `0 <= available <= total`, the held part of each account
    /// equals the sum of its client's disputed amounts, a client
    /// without an account has nothing disputed, and the creation order
    /// lists exactly the clients with accounts.
    pub open spec fn inv(&self) -> bool {
        let am = self.accounts_map();
        let txs = self.txs();
        &&& self.spec_ledger().wf()
        &&& txs.dom().finite()
        &&& ledger_entries_wf(txs, self.owners())
        &&& forall|c: u16| #[trigger] am.contains_key(c) ==> am[c].wf() && am[c].client_id@ == c
        &&& forall|c: u16| #[trigger]
            am.contains_key(c) ==> am[c].total@ - am[c].available@ == held_sum(txs, c)
        &&& forall|c: u16|
            !(#[trigger] am.contains_key(c)) ==> disputed_keys(txs, c) == Set::<(u16, u32)>::empty()
        &&& self.order().no_duplicates()
        &&& forall|i: int|
            0 <= i < self.order().len() ==> am.contains_key(#[trigger] self.order()[i])
        &&& forall|c: u16| #[trigger] am.contains_key(c) ==> self.order().contains(c)
    }

    /// Whether applying `event` cannot push a balance beyond the
    /// representable maximum: only a deposit grows a total.
    pub open spec fn fits(&self, event: Event) -> bool {
        match event {
            Event::Deposit { client_id, amount, .. } => self.total_of(client_id@) + amount@
                <= AMOUNT_UNITS_MAX,
            _ => true,
        }
    }

    /// Checks that applying `event` cannot push a balance beyond the
    /// representable maximum.
    pub fn event_fits(&self, event: &Event) -> (r: bool)
        requires
            self.inv(),
        ensures
            r == self.fits(*event),
    {
        match event {
            Event::Deposit { client_id, amount, .. } => {
                proof {
                    use_type_invariant(amount);
                }
                match self.accounts.get(&client_id.0) {
                    Some(account) => account.total.can_add(amount),
                    None => {
                        let zero = Amount::zero();
                        zero.can_add(amount)
                    },
                }
            },
            _ => true,
        }
    }

    /// A fresh engine over a ledger with nothing stored yet.
    pub fn new(ledger: L) -> (r: Self)
        requires
            ledger.wf(),
            ledger.txs() == Map::<(u16, u32), Transaction>::empty(),
            ledger.owner() == Map::<u32, u16>::empty(),
        ensures
            r.inv(),
            r.spec_ledger() == ledger,
            r.accounts_map() == Map::<u16, ClientAccount>::empty(),
            r.order() == Seq::<u16>::empty(),
    {
        let r = Engine { accounts: HashMap::new(), client_order: Vec::new(), ledger };
        proof {
            assert(r.txs() == Map::<(u16, u32), Transaction>::empty());
            assert(r.txs().dom() =~= Set::<(u16, u32)>::empty());
            assert forall|c: u16| disputed_keys(r.txs(), c) == Set::<(u16, u32)>::empty() by {
                assert(disputed_keys(r.txs(), c) =~= Set::<(u16, u32)>::empty());
            }
        }
        r
    }

    /// Returns the client's account, creating an unlocked empty one
    /// when none exists yet. The creation is a lasting side effect even
    /// when the event at hand later fails.
    fn get_or_create(&mut self, client_id: ClientId) -> (r: ClientAccount)
        requires
            old(self).inv(),
        ensures
            final(self).inv(),
            final(self).spec_ledger() == old(self).spec_ledger(),
            final(self).accounts_map().contains_key(client_id@),
            r == final(self).accounts_map()[client_id@],
            r.wf(),
            r.client_id@ == client_id@,
            old(self).accounts_map().contains_key(client_id@) ==> final(self).accounts_map()
                == old(self).accounts_map() && final(self).order() == old(self).order(),
            !old(self).accounts_map().contains_key(client_id@) ==> {
                &&& final(self).accounts_map() == old(self).accounts_map().insert(client_id@, r)
                &&& r.available@ == 0 && r.total@ == 0 && !r.is_locked
                &&& final(self).order() == old(self).order().push(client_id@)
            },
    {
        let existing = self.accounts.get(&client_id.0);
        match existing {
            Some(account) => *account,
            None => {
                let account = ClientAccount {
                    client_id,
                    available: Amount::zero(),
                    total: Amount::zero(),
                    is_locked: false,
                };
                self.accounts.insert(client_id.0, account);
                self.client_order.push(client_id.0);
                proof {
                    let c = client_id@;
                    assert(!old(self).accounts_map().contains_key(c));
                    assert(self.txs() == old(self).txs());
                    assert(disputed_keys(old(self).txs(), c) == Set::<(u16, u32)>::empty());
                    assert(disputed_keys(self.txs(), c) == Set::<(u16, u32)>::empty());
                    lemma_sum_empty(amount_of(self.txs()));
                    assert(!old(self).order().contains(c));
                    assert(self.order().no_duplicates()) by {
                        assert(forall|i: int|
                            0 <= i < old(self).order().len() ==> #[trigger] self.order()[i] == old(
                                self,
                            ).order()[i]);
                    }
                    assert forall|c2: u16| #[trigger]
                        self.accounts_map().contains_key(c2) implies self.order().contains(c2) by {
                        if c2 == c {
                            assert(self.order()[self.order().len() - 1] == c);
                        } else {
                            let i = choose|i: int|
                                0 <= i < old(self).order().len() && old(self).order()[i] == c2;
                            assert(self.order()[i] == c2);
                        }
                    }
                }
                account
            },
        }
    }
}

/// Both stores read exactly as before: the same transactions, the same
/// ownership, the same accounts in the same order.
pub open spec fn state_unchanged<L: Ledger>(pre: Engine<L>, post: Engine<L>) -> bool {
    &&& post.txs() == pre.txs()
    &&& post.owners() == pre.owners()
    &&& post.accounts_map() == pre.accounts_map()
    &&& post.order() == pre.order()
}

/// The account of client `c` now holds the given balances, every other
/// account is untouched, and `c` got an account if it had none.
pub open spec fn accounts_updated<L: Ledger>(
    pre: Engine<L>,
    post: Engine<L>,
    c: u16,
    avail: int,
    total: int,
    locked: bool,
) -> bool {
    &&& post.accounts_map().dom() == pre.accounts_map().dom().insert(c)
    &&& forall|c2: u16| #[trigger]
        pre.accounts_map().contains_key(c2) && c2 != c ==> post.accounts_map()[c2]
            == pre.accounts_map()[c2]
    &&& post.accounts_map().contains_key(c)
    &&& post.accounts_map()[c].client_id@ == c
    &&& post.accounts_map()[c].available@ == avail
    &&& post.accounts_map()[c].total@ == total
    &&& post.accounts_map()[c].is_locked == locked
    &&& post.order() == if pre.accounts_map().contains_key(c) {
        pre.order()
    } else {
        pre.order().push(c)
    }
}

/// The result is the invalid-event error carrying message `m`.
pub open spec fn invalid_event_err(r: Result<(), EngineError>, m: Seq<char>) -> bool {
    r matches Err(EngineError::InvalidEvent(s)) && s@ == m
}

/// The result is the invalid-associated-transaction error carrying
/// message `m`.
pub open spec fn assoc_err(r: Result<(), EngineError>, m: Seq<char>) -> bool {
    r matches Err(EngineError::InvalidAssociatedTransaction(s)) && s@ == m
}

/// The result is the invalid-status error reporting the refused
/// transition `from -> to`.
pub open spec fn status_err(
    r: Result<(), EngineError>,
    from: TransactionStatus,
    to: TransactionStatus,
) -> bool {
    r matches Err(EngineError::InvalidTransactionStatus(s)) && s@ == transition_message(from, to)
}

/// The result is the locked-account error naming client `c`.
pub open spec fn locked_err(r: Result<(), EngineError>, c: ClientId) -> bool {
    r matches Err(EngineError::AccountLocked(cc)) && cc == c
}

/// What a deposit does, after validation.
pub open spec fn deposit_post<L: Ledger>(
    pre: Engine<L>,
    post: Engine<L>,
    client_id: ClientId,
    transaction_id: TransactionId,
    amount: Amount,
    r: Result<(), EngineError>,
) -> bool {
    let tx = Transaction::Inbound(
        InboundTransaction::Settled(TransactionInfo { id: transaction_id, client_id, amount }),
    );
    let c = client_id@;
    let t = transaction_id@;
    let k = (c, t);
    if pre.txs().contains_key(k) {
        &&& state_unchanged(pre, post)
        &&& if pre.txs()[k] == tx {
            r matches Err(EngineError::DuplicateEvent)
        } else {
            invalid_event_err(r, "Transaction already exist but with different details"@)
        }
    } else if pre.owners().contains_key(t) && pre.owners()[t] != c {
        &&& state_unchanged(pre, post)
        &&& invalid_event_err(r, "Transaction belong to a different client"@)
    } else {
        &&& post.txs() == pre.txs().insert(k, tx)
        &&& post.owners() == pre.owners().insert(t, c)
        &&& if pre.locked(c) {
            &&& post.accounts_map() == pre.accounts_map()
            &&& post.order() == pre.order()
            &&& locked_err(r, client_id)
        } else {
            &&& accounts_updated(
                pre,
                post,
                c,
                pre.avail_of(c) + amount@,
                pre.total_of(c) + amount@,
                false,
            )
            &&& r is Ok
        }
    }
}

/// What a withdrawal does, after validation.
pub open spec fn withdraw_post<L: Ledger>(
    pre: Engine<L>,
    post: Engine<L>,
    client_id: ClientId,
    transaction_id: TransactionId,
    amount: Amount,
    r: Result<(), EngineError>,
) -> bool {
    let tx = Transaction::Outbound(
        crate::ledger::transactions::OutboundTransaction::Settled(
            TransactionInfo { id: transaction_id, client_id, amount },
        ),
    );
    let c = client_id@;
    let t = transaction_id@;
    let k = (c, t);
    if pre.txs().contains_key(k) {
        &&& state_unchanged(pre, post)
        &&& if pre.txs()[k] == tx {
            r matches Err(EngineError::DuplicateEvent)
        } else {
            invalid_event_err(r, "Transaction already exist but with different details"@)
        }
    } else if pre.owners().contains_key(t) && pre.owners()[t] != c {
        &&& state_unchanged(pre, post)
        &&& invalid_event_err(r, "Transaction belong to a different client"@)
    } else {
        &&& post.txs() == pre.txs().insert(k, tx)
        &&& post.owners() == pre.owners().insert(t, c)
        &&& if pre.locked(c) {
            &&& post.accounts_map() == pre.accounts_map()
            &&& post.order() == pre.order()
            &&& locked_err(r, client_id)
        } else if amount@ > pre.avail_of(c) {
            // the row stays in the ledger; only the balances are untouched
            &&& accounts_updated(pre, post, c, pre.avail_of(c), pre.total_of(c), false)
            &&& r matches Err(EngineError::InsufficientFunds)
        } else {
            &&& accounts_updated(
                pre,
                post,
                c,
                pre.avail_of(c) - amount@,
                pre.total_of(c) - amount@,
                false,
            )
            &&& r is Ok
        }
    }
}

/// What a dispute does.
pub open spec fn dispute_post<L: Ledger>(
    pre: Engine<L>,
    post: Engine<L>,
    client_id: ClientId,
    transaction_id: TransactionId,
    r: Result<(), EngineError>,
) -> bool {
    let c = client_id@;
    let t = transaction_id@;
    let k = (c, t);
    if !pre.txs().contains_key(k) {
        &&& state_unchanged(pre, post)
        &&& invalid_event_err(r, "transaction not found"@)
    } else {
        let tx = pre.txs()[k];
        let a = tx.spec_info().amount@;
        if tx.spec_direction() != Direction::Inbound {
            &&& state_unchanged(pre, post)
            &&& assoc_err(r, "Dispute must be on a deposit"@)
        } else if tx.spec_status() != TransactionStatus::Settled {
            &&& state_unchanged(pre, post)
            &&& status_err(r, tx.spec_status(), TransactionStatus::Disputed)
        } else if pre.locked(c) {
            &&& state_unchanged(pre, post)
            &&& locked_err(r, client_id)
        } else if a > pre.avail_of(c) {
            &&& post.txs() == pre.txs()
            &&& post.owners() == pre.owners()
            &&& accounts_updated(pre, post, c, pre.avail_of(c), pre.total_of(c), false)
            &&& r matches Err(EngineError::InsufficientFunds)
        } else {
            &&& post.txs() == pre.txs().insert(
                k,
                inbound_with_status(tx.spec_info(), TransactionStatus::Disputed),
            )
            &&& post.owners() == pre.owners()
            &&& accounts_updated(pre, post, c, pre.avail_of(c) - a, pre.total_of(c), false)
            &&& r is Ok
        }
    }
}

/// What a dispute resolution does.
pub open spec fn resolve_post<L: Ledger>(
    pre: Engine<L>,
    post: Engine<L>,
    client_id: ClientId,
    transaction_id: TransactionId,
    r: Result<(), EngineError>,
) -> bool {
    let c = client_id@;
    let t = transaction_id@;
    let k = (c, t);
    if !pre.txs().contains_key(k) {
        &&& state_unchanged(pre, post)
        &&& invalid_event_err(r, "transaction not found"@)
    } else {
        let tx = pre.txs()[k];
        let a = tx.spec_info().amount@;
        if tx.spec_direction() != Direction::Inbound {
            &&& state_unchanged(pre, post)
            &&& assoc_err(r, "Dispute resolution must be on a deposit"@)
        } else if tx.spec_status() != TransactionStatus::Disputed {
            &&& state_unchanged(pre, post)
            &&& status_err(r, tx.spec_status(), TransactionStatus::Resolved)
        } else if pre.locked(c) {
            &&& state_unchanged(pre, post)
            &&& locked_err(r, client_id)
        } else {
            &&& post.txs() == pre.txs().insert(
                k,
                inbound_with_status(tx.spec_info(), TransactionStatus::Resolved),
            )
            &&& post.owners() == pre.owners()
            &&& accounts_updated(pre, post, c, pre.avail_of(c) + a, pre.total_of(c), false)
            &&& r is Ok
        }
    }
}

/// What a chargeback does.
pub open spec fn chargeback_post<L: Ledger>(
    pre: Engine<L>,
    post: Engine<L>,
    client_id: ClientId,
    transaction_id: TransactionId,
    r: Result<(), EngineError>,
) -> bool {
    let c = client_id@;
    let t = transaction_id@;
    let k = (c, t);
    if !pre.txs().contains_key(k) {
        &&& state_unchanged(pre, post)
        &&& invalid_event_err(r, "transaction not found"@)
    } else {
        let tx = pre.txs()[k];
        let a = tx.spec_info().amount@;
        if tx.spec_direction() != Direction::Inbound {
            &&& state_unchanged(pre, post)
            &&& assoc_err(r, "Chargeback must be on a deposit"@)
        } else if tx.spec_status() != TransactionStatus::Disputed {
            &&& state_unchanged(pre, post)
            &&& status_err(r, tx.spec_status(), TransactionStatus::ChargedBack)
        } else if pre.locked(c) {
            &&& state_unchanged(pre, post)
            &&& locked_err(r, client_id)
        } else {
            &&& post.txs() == pre.txs().insert(
                k,
                inbound_with_status(tx.spec_info(), TransactionStatus::ChargedBack),
            )
            &&& post.owners() == pre.owners()
            &&& accounts_updated(pre, post, c, pre.avail_of(c), pre.total_of(c) - a, true)
            &&& r is Ok
        }
    }
}

impl<L: Ledger> Engine<L> {
    fn apply_deposit(
        &mut self,
        client_id: ClientId,
        transaction_id: TransactionId,
        amount: Amount,
    ) -> (r: Result<(), EngineError>)
        requires
            old(self).inv(),
            0 <= amount@,
            old(self).total_of(client_id@) + amount@ <= AMOUNT_UNITS_MAX,
        ensures
            final(self).inv(),
            deposit_post(*old(self), *final(self), client_id, transaction_id, amount, r),
    {
        let transaction = Transaction::new_settled_inbound(transaction_id, client_id, amount);
        match self.ledger.add(client_id, transaction) {
            Err(e) => {
                return Err(EngineError::from(e));
            },
            Ok(()) => {},
        }
        proof {
            use_type_invariant(&amount);
            lemma_held_sum_insert_undisputed(
                old(self).txs(),
                (client_id@, transaction_id@),
                transaction,
            );
            assert(self.txs().dom() =~= old(self).txs().dom().insert(
                (client_id@, transaction_id@),
            ));
            assert(self.inv());
        }
        let mut account = self.get_or_create(client_id);
        if account.is_locked {
            return Err(EngineError::AccountLocked(client_id));
        }
        account.total.add_assign(amount);
        account.available.add_assign(amount);
        self.accounts.insert(client_id.0, account);
        proof {
            assert(self.accounts_map().dom() =~= old(self).accounts_map().dom().insert(
                client_id@,
            ));
            if !old(self).accounts_map().contains_key(client_id@) {
                lemma_sum_empty(amount_of(self.txs()));
            }
            assert(self.inv());
        }
        Ok(())
    }

    fn apply_withdraw(
        &mut self,
        client_id: ClientId,
        transaction_id: TransactionId,
        amount: Amount,
    ) -> (r: Result<(), EngineError>)
        requires
            old(self).inv(),
            0 <= amount@,
        ensures
            final(self).inv(),
            withdraw_post(*old(self), *final(self), client_id, transaction_id, amount, r),
    {
        let transaction = Transaction::new_settled_outbound(transaction_id, client_id, amount);
        match self.ledger.add(client_id, transaction) {
            Err(e) => {
                proof {
                    assert(self.accounts_map() == old(self).accounts_map());
                    assert(forall|c: u16| #[trigger]
                        self.accounts_map().contains_key(c) ==> self.accounts_map()[c].wf());
                }
                return Err(EngineError::from(e));
            },
            Ok(()) => {},
        }
        proof {
            use_type_invariant(&amount);
            assert(self.accounts_map() == old(self).accounts_map());
            assert(forall|c: u16| #[trigger]
                self.accounts_map().contains_key(c) ==> self.accounts_map()[c].wf());
            lemma_held_sum_insert_undisputed(
                old(self).txs(),
                (client_id@, transaction_id@),
                transaction,
            );
            assert(self.txs().dom() =~= old(self).txs().dom().insert(
                (client_id@, transaction_id@),
            ));
            assert(self.inv());
        }
        let mut account = self.get_or_create(client_id);
        if account.is_locked {
            return Err(EngineError::AccountLocked(client_id));
        }
        match account.available.try_subtract(amount) {
            None => {
                proof {
                    assert(self.accounts_map().dom() =~= old(self).accounts_map().dom().insert(
                        client_id@,
                    ));
                }
                return Err(EngineError::InsufficientFunds);
            },
            Some(()) => {},
        }
        match account.total.try_subtract(amount) {
            None => {
                proof {
                    assert(false);
                }
                return Err(EngineError::SystemError("Bug: total amount should never be negative."));
            },
            Some(()) => {},
        }
        self.accounts.insert(client_id.0, account);
        proof {
            assert(self.accounts_map().dom() =~= old(self).accounts_map().dom().insert(
                client_id@,
            ));
            if !old(self).accounts_map().contains_key(client_id@) {
                lemma_sum_empty(amount_of(self.txs()));
            }
            assert(self.inv());
        }
        Ok(())
    }

    fn apply_dispute(&mut self, client_id: ClientId, transaction_id: TransactionId) -> (r: Result<
        (),
        EngineError,
    >)
        requires
            old(self).inv(),
        ensures
            final(self).inv(),
            dispute_post(*old(self), *final(self), client_id, transaction_id, r),
    {
        let found = match self.ledger.find(client_id, transaction_id) {
            Ok(f) => f,
            Err(e) => {
                proof {
                    assert(false);
                }
                return Err(EngineError::from(e));
            },
        };
        let mut transaction = match found {
            Some(tx) => tx,
            None => {
                return Err(EngineError::InvalidEvent("transaction not found"));
            },
        };
        if transaction.direction() != Direction::Inbound {
            return Err(EngineError::InvalidAssociatedTransaction("Dispute must be on a deposit"));
        }
        match transaction.transition_inbound(TransactionStatus::Disputed) {
            Err(e) => {
                return Err(EngineError::from_transition_error(e));
            },
            Ok(()) => {},
        }
        let mut account = self.get_or_create(client_id);
        if account.is_locked {
            return Err(EngineError::AccountLocked(client_id));
        }
        let amt = transaction.info().amount;
        match account.available.try_subtract(amt) {
            None => {
                proof {
                    assert(self.accounts_map().dom() =~= old(self).accounts_map().dom().insert(
                        client_id@,
                    ));
                }
                return Err(EngineError::InsufficientFunds);
            },
            Some(()) => {},
        }
        self.accounts.insert(client_id.0, account);
        let ghost txs_before = self.txs();
        match self.ledger.update(client_id, transaction) {
            Err(e) => {
                proof {
                    assert(false);
                }
                return Err(EngineError::from(e));
            },
            Ok(()) => {},
        }
        proof {
            lemma_held_sum_dispute(
                txs_before,
                (client_id@, transaction_id@),
                transaction,
            );
            assert(self.txs().dom() =~= txs_before.dom().insert((client_id@, transaction_id@)));
            assert(self.accounts_map().dom() =~= old(self).accounts_map().dom().insert(
                client_id@,
            ));
            assert(self.inv());
        }
        Ok(())
    }

    fn apply_dispute_resolve(
        &mut self,
        client_id: ClientId,
        transaction_id: TransactionId,
    ) -> (r: Result<(), EngineError>)
        requires
            old(self).inv(),
        ensures
            final(self).inv(),
            resolve_post(*old(self), *final(self), client_id, transaction_id, r),
    {
        let found = match self.ledger.find(client_id, transaction_id) {
            Ok(f) => f,
            Err(e) => {
                proof {
                    assert(false);
                }
                return Err(EngineError::from(e));
            },
        };
        let mut transaction = match found {
            Some(tx) => tx,
            None => {
                return Err(EngineError::InvalidEvent("transaction not found"));
            },
        };
        if transaction.direction() != Direction::Inbound {
            return Err(
                EngineError::InvalidAssociatedTransaction("Dispute resolution must be on a deposit"),
            );
        }
        match transaction.transition_inbound(TransactionStatus::Resolved) {
            Err(e) => {
                return Err(EngineError::from_transition_error(e));
            },
            Ok(()) => {},
        }
        proof {
            lemma_held_sum_bounds(
                old(self).txs(),
                old(self).owners(),
                (client_id@, transaction_id@),
            );
            assert(disputed_keys(old(self).txs(), client_id@).contains(
                (client_id@, transaction_id@),
            ));
            assert(old(self).accounts_map().contains_key(client_id@));
        }
        let mut account = self.get_or_create(client_id);
        if account.is_locked {
            return Err(EngineError::AccountLocked(client_id));
        }
        let amt = transaction.info().amount;
        account.available.add_assign(amt);
        self.accounts.insert(client_id.0, account);
        let ghost txs_before = self.txs();
        match self.ledger.update(client_id, transaction) {
            Err(e) => {
                proof {
                    assert(false);
                }
                return Err(EngineError::from(e));
            },
            Ok(()) => {},
        }
        proof {
            lemma_held_sum_undispute(
                txs_before,
                (client_id@, transaction_id@),
                transaction,
            );
            assert(self.txs().dom() =~= txs_before.dom().insert((client_id@, transaction_id@)));
            assert(self.accounts_map().dom() =~= old(self).accounts_map().dom().insert(
                client_id@,
            ));
            assert(self.inv());
        }
        Ok(())
    }

    fn apply_dispute_chargeback(
        &mut self,
        client_id: ClientId,
        transaction_id: TransactionId,
    ) -> (r: Result<(), EngineError>)
        requires
            old(self).inv(),
        ensures
            final(self).inv(),
            chargeback_post(*old(self), *final(self), client_id, transaction_id, r),
    {
        let found = match self.ledger.find(client_id, transaction_id) {
            Ok(f) => f,
            Err(e) => {
                proof {
                    assert(false);
                }
                return Err(EngineError::from(e));
            },
        };
        let mut transaction = match found {
            Some(tx) => tx,
            None => {
                return Err(EngineError::InvalidEvent("transaction not found"));
            },
        };
        if transaction.direction() != Direction::Inbound {
            return Err(EngineError::InvalidAssociatedTransaction("Chargeback must be on a deposit"));
        }
        match transaction.transition_inbound(TransactionStatus::ChargedBack) {
            Err(e) => {
                return Err(EngineError::from_transition_error(e));
            },
            Ok(()) => {},
        }
        proof {
            lemma_held_sum_bounds(
                old(self).txs(),
                old(self).owners(),
                (client_id@, transaction_id@),
            );
            assert(disputed_keys(old(self).txs(), client_id@).contains(
                (client_id@, transaction_id@),
            ));
            assert(old(self).accounts_map().contains_key(client_id@));
        }
        let mut account = self.get_or_create(client_id);
        if account.is_locked {
            return Err(EngineError::AccountLocked(client_id));
        }
        let amt = transaction.info().amount;
        match account.total.try_subtract(amt) {
            None => {
                proof {
                    assert(false);
                }
                return Err(EngineError::SystemError("Bug: total amount should never be negative."));
            },
            Some(()) => {},
        }
        account.is_locked = true;
        self.accounts.insert(client_id.0, account);
        let ghost txs_before = self.txs();
        match self.ledger.update(client_id, transaction) {
            Err(e) => {
                proof {
                    assert(false);
                }
                return Err(EngineError::from(e));
            },
            Ok(()) => {},
        }
        proof {
            lemma_held_sum_undispute(
                txs_before,
                (client_id@, transaction_id@),
                transaction,
            );
            assert(self.txs().dom() =~= txs_before.dom().insert((client_id@, transaction_id@)));
            assert(self.accounts_map().dom() =~= old(self).accounts_map().dom().insert(
                client_id@,
            ));
            assert(self.inv());
        }
        Ok(())
    }

    /// Applies one event: validates it, consults and mutates the
    /// ledger, and moves the client's balances, classifying every
    /// failure. The contract `apply_post` pins the outcome and the new
    /// state for every event and every input.
    pub fn apply(&mut self, event: Event) -> (r: Result<(), EngineError>)
        requires
            old(self).inv(),
            old(self).fits(event),
        ensures
            final(self).inv(),
            apply_post(*old(self), *final(self), event, r),
    {
        match event.validate() {
            Err(e) => {
                return Err(e);
            },
            Ok(()) => {},
        }
        match event {
            Event::Deposit { client_id, transaction_id, amount } => self.apply_deposit(
                client_id,
                transaction_id,
                amount,
            ),
            Event::Withdraw { client_id, transaction_id, amount } => self.apply_withdraw(
                client_id,
                transaction_id,
                amount,
            ),
            Event::Dispute { client_id, transaction_id } => self.apply_dispute(
                client_id,
                transaction_id,
            ),
            Event::Resolve { client_id, transaction_id } => self.apply_dispute_resolve(
                client_id,
                transaction_id,
            ),
            Event::Chargeback { client_id, transaction_id } => self.apply_dispute_chargeback(
                client_id,
                transaction_id,
            ),
        }
    }

    /// Snapshots of all accounts, sorted by ascending client identity.
    ///
    /// Client identities are 16-bit, so the sweep over the identity
    /// space visits every possible client once, in order.
    pub fn accounts_ordered(&self) -> (r: Vec<ClientAccount>)
        requires
            self.inv(),
        ensures
            forall|i: int|
                0 <= i < r@.len() ==> self.accounts_map().contains_key(
                    #[trigger] r@[i].client_id@,
                ) && self.accounts_map()[r@[i].client_id@] == r@[i],
            forall|c: u16| #[trigger]
                self.accounts_map().contains_key(c) ==> exists|i: int|
                    0 <= i < r@.len() && r@[i].client_id@ == c,
            forall|i: int, j: int|
                0 <= i < j < r@.len() ==> (#[trigger] r@[i].client_id@) < (#[trigger] r@[j].client_id@),
    {
        let mut r: Vec<ClientAccount> = Vec::new();
        let mut cand: u32 = 0;
        while cand < 65536
            invariant
                self.inv(),
                cand <= 65536,
                forall|i: int|
                    0 <= i < r@.len() ==> self.accounts_map().contains_key(
                        #[trigger] r@[i].client_id@,
                    ) && self.accounts_map()[r@[i].client_id@] == r@[i] && r@[i].client_id@
                        < cand,
                forall|c: u16|
                    c < cand && #[trigger] self.accounts_map().contains_key(c) ==> exists|i: int|
                        0 <= i < r@.len() && r@[i].client_id@ == c,
                forall|i: int, j: int|
                    0 <= i < j < r@.len() ==> (#[trigger] r@[i].client_id@) < (#[trigger] r@[j].client_id@),
            decreases 65536 - cand,
        {
            let c16 = cand as u16;
            let ghost r_before = r@;
            match self.accounts.get(&c16) {
                Some(account) => {
                    r.push(*account);
                },
                None => {},
            }
            proof {
                assert forall|c: u16|
                    c < cand + 1 && #[trigger] self.accounts_map().contains_key(
                        c,
                    ) implies exists|i: int| 0 <= i < r@.len() && r@[i].client_id@ == c by {
                    if c == c16 {
                        assert(r@[r@.len() - 1].client_id@ == c);
                    } else {
                        let i = choose|i: int|
                            0 <= i < r_before.len() && r_before[i].client_id@ == c;
                        assert(r@[i].client_id@ == c);
                    }
                }
            }
            cand += 1;
        }
        r
    }

    /// Snapshots of all accounts, in the order the accounts were
    /// created; no particular order is promised.
    pub fn accounts(&self) -> (r: Vec<ClientAccount>)
        requires
            self.inv(),
        ensures
            r@.len() == self.order().len(),
            forall|i: int|
                0 <= i < r@.len() ==> #[trigger] r@[i] == self.accounts_map()[self.order()[i]]
                    && self.accounts_map().contains_key(r@[i].client_id@)
                    && self.accounts_map()[r@[i].client_id@] == r@[i],
            forall|c: u16| #[trigger]
                self.accounts_map().contains_key(c) ==> exists|i: int|
                    0 <= i < r@.len() && r@[i].client_id@ == c,
    {
        let mut result: Vec<ClientAccount> = Vec::new();
        let n = self.client_order.len();
        let mut idx: usize = 0;
        while idx < n
            invariant
                self.inv(),
                n == self.order().len(),
                idx <= n,
                result@.len() == idx,
                forall|i: int|
                    0 <= i < idx as int ==> #[trigger] result@[i] == self.accounts_map()[self.order(
                    )[i]] && result@[i].client_id@ == self.order()[i],
            decreases n - idx,
        {
            let c = self.client_order[idx];
            match self.accounts.get(&c) {
                Some(account) => {
                    result.push(*account);
                },
                None => {
                    proof {
                        assert(false);
                    }
                },
            }
            idx += 1;
        }
        proof {
            assert forall|c: u16| #[trigger]
                self.accounts_map().contains_key(c) implies exists|i: int|
                0 <= i < result@.len() && result@[i].client_id@ == c by {
                let j = choose|j: int|
                    0 <= j < self.order().len() && self.order()[j] == c;
                assert(result@[j].client_id@ == c);
            }
        }
        result
    }
}

/// What one `apply` call does, for every event and every outcome.
pub open spec fn apply_post<L: Ledger>(
    pre: Engine<L>,
    post: Engine<L>,
    event: Event,
    r: Result<(), EngineError>,
) -> bool {
    match event {
        Event::Deposit { client_id, transaction_id, amount } => {
            if amount@ < 0 {
                state_unchanged(pre, post) && invalid_event_err(r, "Amount must be positive"@)
            } else {
                deposit_post(pre, post, client_id, transaction_id, amount, r)
            }
        },
        Event::Withdraw { client_id, transaction_id, amount } => {
            if amount@ < 0 {
                state_unchanged(pre, post) && invalid_event_err(r, "Amount must be positive"@)
            } else {
                withdraw_post(pre, post, client_id, transaction_id, amount, r)
            }
        },
        Event::Dispute { client_id, transaction_id } => dispute_post(
            pre,
            post,
            client_id,
            transaction_id,
            r,
        ),
        Event::Resolve { client_id, transaction_id } => resolve_post(
            pre,
            post,
            client_id,
            transaction_id,
            r,
        ),
        Event::Chargeback { client_id, transaction_id } => chargeback_post(
            pre,
            post,
            client_id,
            transaction_id,
            r,
        ),
    }
}

} // verus!
