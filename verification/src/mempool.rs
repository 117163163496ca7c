//! The mempool: the pending transactions, each held once, in the order in
//! which they came.

use crate::block::Block;
use crate::ordered::inserted;
use crate::ordered::lemma_inserted;
use crate::ordered::lemma_inserted_twice;
use crate::ordered::lemma_without;
use crate::ordered::without;
use crate::transaction::txn_views;
use crate::transaction::Txn;
use crate::transaction::TxnView;
use vstd::prelude::*;

verus! {

/// Tells whether `txns` holds a transaction equal to `txn` in all fields.
pub fn holds_txn(txns: &Vec<Txn>, txn: &Txn) -> (found: bool)
    ensures
        found == txn_views(txns@).contains(txn@),
{
    let ghost views = txn_views(txns@);
    let mut i: usize = 0;
    while i < txns.len()
        invariant
            i <= txns.len(),
            views == txn_views(txns@),
            forall|j: int| 0 <= j < i ==> views[j] != txn@,
        decreases txns.len() - i,
    {
        if txns[i] == *txn {
            assert(views[i as int] == txn@);
            return true;
        }
        i = i + 1;
    }
    false
}

/// Inserting the same transaction twice: the second insertion leaves the
/// mempool as the first one made it, and finds the transaction pending.
pub proof fn lemma_insert_idempotent(pool: Seq<TxnView>, txn: TxnView)
    ensures
        inserted(pool, txn).contains(txn),
        inserted(inserted(pool, txn), txn) == inserted(pool, txn),
{
    lemma_inserted_twice(pool, txn);
}

/// A set of pending transactions. Two transactions are the same member when
/// all their fields are equal.
#[derive(Debug)]
pub struct Mempool {
    txns: Vec<Txn>,
}

impl View for Mempool {
    type V = Seq<TxnView>;

    closed spec fn view(&self) -> Seq<TxnView> {
        txn_views(self.txns@)
    }
}

impl Mempool {
    #[verifier::type_invariant]
    spec fn distinct(self) -> bool {
        self@.no_duplicates()
    }

    /// The empty mempool.
    pub fn new() -> (pool: Mempool)
        ensures
            pool@ == Seq::<TxnView>::empty(),
    {
        let pool = Mempool { txns: Vec::new() };
        assert(pool@ =~= Seq::<TxnView>::empty());
        pool
    }

    /// Moves the transactions out and leaves the mempool empty.
    fn take(&mut self) -> (txns: Vec<Txn>)
        ensures
            txn_views(txns@) == old(self)@,
            final(self)@ == Seq::<TxnView>::empty(),
    {
        let mut taken = Mempool::new();
        core::mem::swap(self, &mut taken);
        taken.txns
    }

    /// How many transactions are pending.
    pub fn len(&self) -> (count: usize)
        ensures
            count == self@.len(),
            self@.no_duplicates(),
    {
        proof {
            use_type_invariant(self);
        }
        self.txns.len()
    }

    /// Tells whether `txn` is pending.
    pub fn contains(&self, txn: &Txn) -> (found: bool)
        ensures
            found == self@.contains(txn@),
    {
        holds_txn(&self.txns, txn)
    }

    /// Adds `txn` unless it is pending already, and tells whether it was
    /// added.
    pub fn insert(&mut self, txn: Txn) -> (fresh: bool)
        ensures
            fresh == !old(self)@.contains(txn@),
            final(self)@ == inserted(old(self)@, txn@),
            final(self)@.no_duplicates(),
    {
        proof {
            use_type_invariant(&*self);
            lemma_inserted(self@, txn@);
        }
        if holds_txn(&self.txns, &txn) {
            return false;
        }
        let mut txns = self.take();
        proof {
            assert(txn_views(txns@.push(txn)) =~= txn_views(txns@).push(txn@));
        }
        txns.push(txn);
        *self = Mempool { txns };
        true
    }

    /// Removes every pending transaction that `block` holds.
    pub fn retain_not_in(&mut self, block: &Block)
        ensures
            final(self)@ == without(old(self)@, block@.body.txn_data),
            final(self)@.no_duplicates(),
            forall|t: TxnView| block@.body.txn_data.contains(t) ==> !final(self)@.contains(t),
    {
        proof {
            use_type_invariant(&*self);
            lemma_without(self@, block@.body.txn_data);
        }
        let ghost before = self@;
        let ghost gone = block@.body.txn_data;
        let mut kept: Vec<Txn> = Vec::new();
        let mut i: usize = 0;
        assert(before.take(0) =~= Seq::<TxnView>::empty());
        assert(txn_views(kept@) =~= Seq::<TxnView>::empty());
        assert(without(Seq::<TxnView>::empty(), gone) =~= Seq::<TxnView>::empty()) by {
            reveal(Seq::filter);
        }
        while i < self.txns.len()
            invariant
                i <= self.txns.len(),
                before == txn_views(self.txns@),
                gone == block@.body.txn_data,
                txn_views(kept@) == without(before.take(i as int), gone),
            decreases self.txns.len() - i,
        {
            proof {
                let head = before.take(i as int);
                assert(before.take(i + 1) =~= head.push(before[i as int]));
                head.lemma_filter_push(before[i as int], |a: TxnView| !gone.contains(a));
            }
            if !holds_txn(&block.body.txn_data, &self.txns[i]) {
                let txn = self.txns[i].clone();
                proof {
                    assert(txn_views(kept@.push(txn)) =~= txn_views(kept@).push(txn@));
                }
                kept.push(txn);
            }
            i = i + 1;
        }
        proof {
            assert(before.take(i as int) =~= before);
        }
        self.txns = kept;
    }

    /// The pending transactions, in the order in which they came.
    pub fn snapshot(&self) -> (txns: Vec<Txn>)
        ensures
            txn_views(txns@) == self@,
            self@.no_duplicates(),
    {
        proof {
            use_type_invariant(self);
        }
        let txns = self.txns.clone();
        assert(txn_views(txns@) =~= txn_views(self.txns@));
        txns
    }
}

} // verus!
