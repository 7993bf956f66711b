use vstd::prelude::*;
use crate::types::Address;
use bitvec::vec::BitVec;

verus! {

/// Most bits a bit-vector can hold.
pub const MAX_BITS: usize = usize::MAX >> 3;

/// Occupancy bits of an existence table, kept in a bit-vector.
#[verifier::external_body]
pub struct OccupancyBits {
    bits: BitVec,
}

/// The bits held, in order.
pub uninterp spec fn occupancy(m: OccupancyBits) -> Seq<bool>;

impl OccupancyBits {
    /// Relies on `BitVec::new`: an empty bit-vector.
    #[verifier::external_body]
    pub(crate) fn new() -> (r: OccupancyBits)
        ensures
            occupancy(r) == Seq::<bool>::empty(),
    {
        OccupancyBits { bits: BitVec::new() }
    }

    /// Relies on `BitVec::push`: appends one bit; it panics when the new length
    /// exceeds `usize::MAX >> 3`, that is unless `8 * (len + 1) <= usize::MAX`.
    #[verifier::external_body]
    pub(crate) fn push(&mut self, value: bool)
        requires
            8 * (occupancy(*old(self)).len() + 1) <= usize::MAX,
        ensures
            occupancy(*final(self)) == occupancy(*old(self)).push(value),
    {
        self.bits.push(value)
    }

    /// Relies on `BitSlice::set`: overwrites one bit; it panics out of bounds.
    #[verifier::external_body]
    pub(crate) fn set(&mut self, index: usize, value: bool)
        requires
            index < occupancy(*old(self)).len(),
        ensures
            occupancy(*final(self)) == occupancy(*old(self)).update(index as int, value),
    {
        self.bits.set(index, value)
    }

    /// Relies on indexing a `BitSlice`: reads one bit; it panics out of bounds.
    #[verifier::external_body]
    pub(crate) fn get(&self, index: usize) -> (r: bool)
        requires
            index < occupancy(*self).len(),
        ensures
            r == occupancy(*self)[index as int],
    {
        self.bits[index]
    }
}

/// Index of the last occurrence of `a` in `addrs`.
pub open spec fn lookup_in(addrs: Seq<Address>, a: Address) -> Option<int>
    decreases addrs.len(),
{
    if addrs.len() == 0 {
        None
    } else if addrs.last() == a {
        Some(addrs.len() - 1)
    } else {
        lookup_in(addrs.drop_last(), a)
    }
}

/// A found index is in range and holds the address looked up.
pub proof fn lemma_lookup_in(addrs: Seq<Address>, a: Address)
    ensures
        lookup_in(addrs, a) is Some ==> 0 <= lookup_in(addrs, a)->Some_0 < addrs.len() && addrs[lookup_in(
            addrs,
            a,
        )->Some_0] == a,
        lookup_in(addrs, a) is None ==> !addrs.contains(a),
    decreases addrs.len(),
{
    if addrs.len() > 0 && addrs.last() != a {
        lemma_lookup_in(addrs.drop_last(), a);
        if lookup_in(addrs, a) is None {
            assert forall|k: int| 0 <= k < addrs.len() implies addrs[k] != a by {
                if k < addrs.len() - 1 {
                    assert(addrs.drop_last()[k] == addrs[k]);
                }
            }
        }
    }
}

/// Existence table of one family: a dense index per address (its position) and a
/// mask of occupied slots.
pub struct PoolLookupTable {
    pub addresses: Vec<Address>,
    pub existence_mask: OccupancyBits,
}

impl PoolLookupTable {
    pub open spec fn wf(&self) -> bool {
        self.addresses@.len() == occupancy(self.existence_mask).len()
    }

    /// Whether the address is registered and its slot occupied.
    pub open spec fn spec_exists(&self, a: Address) -> bool {
        match lookup_in(self.addresses@, a) {
            Some(i) => occupancy(self.existence_mask)[i],
            None => false,
        }
    }

    pub fn new() -> (r: PoolLookupTable)
        ensures
            r.wf(),
            r.addresses@.len() == 0,
            forall|a: Address| !r.spec_exists(a),
    {
        PoolLookupTable { addresses: Vec::new(), existence_mask: OccupancyBits::new() }
    }

    fn find(&self, a: &Address) -> (r: Option<usize>)
        ensures
            r is Some <==> lookup_in(self.addresses@, *a) is Some,
            r is Some ==> r->Some_0 as int == lookup_in(self.addresses@, *a)->Some_0,
    {
        let mut i: usize = self.addresses.len();
        assert(self.addresses@.subrange(0, i as int) =~= self.addresses@);
        while i > 0
            invariant
                i <= self.addresses@.len(),
                lookup_in(self.addresses@, *a) == lookup_in(self.addresses@.subrange(0, i as int), *a),
            decreases i,
        {
            let ghost s = self.addresses@.subrange(0, i as int);
            assert(s.drop_last() =~= self.addresses@.subrange(0, i - 1));
            if self.addresses[i - 1].same(a) {
                return Some(i - 1);
            }
            i = i - 1;
        }
        None
    }

    /// Whether the pool is registered and present.
    pub fn exists_pool(&self, pool_address: &Address) -> (r: bool)
        requires
            self.wf(),
        ensures
            r == self.spec_exists(*pool_address),
    {
        proof {
            lemma_lookup_in(self.addresses@, *pool_address);
        }
        match self.find(pool_address) {
            Some(i) => self.existence_mask.get(i),
            None => false,
        }
    }

    /// Registers the pool as present.
    pub fn insert_pool(&mut self, pool_address: Address)
        requires
            old(self).wf(),
            8 * (old(self).addresses@.len() + 1) <= usize::MAX,
        ensures
            final(self).wf(),
            final(self).spec_exists(pool_address),
            forall|b: Address| b != pool_address ==> final(self).spec_exists(b) == old(self).spec_exists(b),
            final(self).addresses@.len() <= old(self).addresses@.len() + 1,
    {
        proof {
            lemma_lookup_in(self.addresses@, pool_address);
        }
        match self.find(&pool_address) {
            Some(i) => {
                self.existence_mask.set(i, true);
                assert forall|b: Address| b != pool_address implies self.spec_exists(b) == old(self).spec_exists(b) by {
                    lemma_lookup_in(self.addresses@, b);
                }
            },
            None => {
                let ghost n = self.addresses@.len();
                self.addresses.push(pool_address);
                self.existence_mask.push(true);
                assert(self.addresses@.drop_last() =~= old(self).addresses@);
                assert forall|b: Address| b != pool_address implies self.spec_exists(b) == old(self).spec_exists(b) by {
                    lemma_lookup_in(old(self).addresses@, b);
                }
            },
        }
    }

    /// Marks the pool absent; an unknown address is left as it is.
    pub fn remove_pool(&mut self, pool_address: &Address)
        requires
            old(self).wf(),
        ensures
            final(self).wf(),
            !final(self).spec_exists(*pool_address),
            forall|b: Address| b != *pool_address ==> final(self).spec_exists(b) == old(self).spec_exists(b),
    {
        proof {
            lemma_lookup_in(self.addresses@, *pool_address);
        }
        match self.find(pool_address) {
            Some(i) => {
                self.existence_mask.set(i, false);
                assert forall|b: Address| b != *pool_address implies self.spec_exists(b) == old(self).spec_exists(b) by {
                    lemma_lookup_in(self.addresses@, b);
                }
            },
            None => {},
        }
    }
}

} // verus!
