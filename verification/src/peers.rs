//! The peer registry: the network addresses of the nodes that this node
//! gossips with.

use crate::ordered::inserted;
use crate::ordered::lemma_inserted;
use crate::ordered::lemma_merged;
use crate::ordered::lemma_without;
use crate::ordered::merged;
use crate::ordered::without;
use vstd::prelude::*;

verus! {

/// A socket address: an IP address of either family and a port, with the
/// flow and scope numbers that an IPv6 socket address has besides.
#[derive(Debug, Clone, Copy, PartialEq, Eq, Hash, Structural)]
pub enum Address {
    V4 { ip: u32, port: u16 },
    V6 { ip6: u128, port: u16, flowinfo: u32, scope_id: u32 },
}

/// Tells whether `addresses` holds `address`.
pub fn holds_address(addresses: &Vec<Address>, address: Address) -> (found: bool)
    ensures
        found == addresses@.contains(address),
{
    let mut i: usize = 0;
    while i < addresses.len()
        invariant
            i <= addresses.len(),
            forall|j: int| 0 <= j < i ==> addresses@[j] != address,
        decreases addresses.len() - i,
    {
        if addresses[i] == address {
            return true;
        }
        i = i + 1;
    }
    false
}

/// A set of peer addresses, in the order in which they were learned.
#[derive(Debug)]
pub struct Peers {
    addresses: Vec<Address>,
}

impl View for Peers {
    type V = Seq<Address>;

    closed spec fn view(&self) -> Seq<Address> {
        self.addresses@
    }
}

impl Clone for Peers {
    fn clone(&self) -> (copy: Peers)
        ensures
            copy@ == self@,
    {
        proof {
            use_type_invariant(self);
        }
        let addresses = self.addresses.clone();
        assert(addresses@ =~= self.addresses@);
        Peers { addresses }
    }
}

impl Peers {
    #[verifier::type_invariant]
    spec fn distinct(self) -> bool {
        self@.no_duplicates()
    }

    /// The empty registry.
    pub fn new() -> (peers: Peers)
        ensures
            peers@ == Seq::<Address>::empty(),
    {
        Peers { addresses: Vec::new() }
    }

    /// Moves the addresses out and leaves the registry empty.
    fn take(&mut self) -> (addresses: Vec<Address>)
        ensures
            addresses@ == old(self)@,
            final(self)@ == Seq::<Address>::empty(),
    {
        let mut taken = Peers::new();
        core::mem::swap(self, &mut taken);
        taken.addresses
    }

    /// How many peers are known.
    pub fn len(&self) -> (count: usize)
        ensures
            count == self@.len(),
            self@.no_duplicates(),
    {
        proof {
            use_type_invariant(self);
        }
        self.addresses.len()
    }

    /// Tells whether `address` is a known peer.
    pub fn contains(&self, address: Address) -> (found: bool)
        ensures
            found == self@.contains(address),
    {
        holds_address(&self.addresses, address)
    }

    /// Adds `address` unless it is known already, and tells whether it was
    /// added.
    pub fn insert(&mut self, address: Address) -> (fresh: bool)
        ensures
            fresh == !old(self)@.contains(address),
            final(self)@ == inserted(old(self)@, address),
            final(self)@.no_duplicates(),
    {
        proof {
            use_type_invariant(&*self);
            lemma_inserted(self@, address);
        }
        if holds_address(&self.addresses, address) {
            return false;
        }
        let mut addresses = self.take();
        addresses.push(address);
        *self = Peers { addresses };
        true
    }

    /// Adds every address of `more` that is not known yet, in the order of
    /// `more`.
    pub fn extend(&mut self, more: &Vec<Address>)
        ensures
            final(self)@ == merged(old(self)@, more@),
            final(self)@.no_duplicates(),
    {
        proof {
            use_type_invariant(&*self);
            lemma_merged(self@, more@);
        }
        let mut i: usize = 0;
        assert(more@.take(0) =~= Seq::<Address>::empty());
        while i < more.len()
            invariant
                i <= more.len(),
                self@ == merged(old(self)@, more@.take(i as int)),
            decreases more.len() - i,
        {
            proof {
                assert(more@.take(i + 1).drop_last() =~= more@.take(i as int));
            }
            self.insert(more[i]);
            i = i + 1;
        }
        proof {
            assert(more@.take(i as int) =~= more@);
        }
    }

    /// Removes `address`, and tells whether it was known.
    pub fn remove(&mut self, address: Address) -> (found: bool)
        ensures
            found == old(self)@.contains(address),
            final(self)@ == without(old(self)@, seq![address]),
            final(self)@.no_duplicates(),
            !final(self)@.contains(address),
    {
        let ghost before = self@;
        let ghost gone = seq![address];
        proof {
            use_type_invariant(&*self);
            lemma_without(before, gone);
            assert(gone[0] == address);
        }
        let mut kept: Vec<Address> = Vec::new();
        let mut found = false;
        let mut i: usize = 0;
        assert(before.take(0) =~= Seq::<Address>::empty());
        assert(without(Seq::<Address>::empty(), gone) =~= Seq::<Address>::empty()) by {
            reveal(Seq::filter);
        }
        while i < self.addresses.len()
            invariant
                i <= self.addresses.len(),
                before == self.addresses@,
                gone == seq![address],
                kept@ == without(before.take(i as int), gone),
                found == before.take(i as int).contains(address),
            decreases self.addresses.len() - i,
        {
            proof {
                let head = before.take(i as int);
                let next = before.take(i + 1);
                assert(next =~= head.push(before[i as int]));
                head.lemma_filter_push(before[i as int], |a: Address| !gone.contains(a));
                assert(gone.contains(before[i as int]) <==> before[i as int] == address) by {
                    assert(gone[0] == address);
                }
                assert(next.contains(address) <==> head.contains(address) || before[i as int]
                    == address) by {
                    if next.contains(address) {
                        let j = choose|j: int| 0 <= j < next.len() && next[j] == address;
                        if j < head.len() {
                            assert(head[j] == address);
                        }
                    }
                    if head.contains(address) {
                        let j = choose|j: int| 0 <= j < head.len() && head[j] == address;
                        assert(next[j] == address);
                    }
                    if before[i as int] == address {
                        assert(next[i as int] == address);
                    }
                }
            }
            if self.addresses[i] == address {
                found = true;
            } else {
                kept.push(self.addresses[i]);
            }
            i = i + 1;
        }
        proof {
            assert(before.take(i as int) =~= before);
        }
        self.addresses = kept;
        found
    }

    /// The known peers, in the order in which they were learned.
    pub fn to_vec(&self) -> (addresses: Vec<Address>)
        ensures
            addresses@ == self@,
            self@.no_duplicates(),
    {
        proof {
            use_type_invariant(self);
        }
        let addresses = self.addresses.clone();
        assert(addresses@ =~= self.addresses@);
        addresses
    }
}

} // verus!
