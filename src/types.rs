use vstd::prelude::*;

verus! {

/// A 32-byte account id, held as four little-endian 64-bit words.
#[derive(Debug, Clone, Copy, PartialEq, Eq, Structural)]
pub struct Address {
    pub w0: u64,
    pub w1: u64,
    pub w2: u64,
    pub w3: u64,
}

impl Address {
    pub open spec fn spec_is_zero(self) -> bool {
        self.w0 == 0 && self.w1 == 0 && self.w2 == 0 && self.w3 == 0
    }

    /// The all-zero address, which marks a dead mint or vault.
    pub fn zero() -> (r: Address)
        ensures
            r.spec_is_zero(),
    {
        Address { w0: 0, w1: 0, w2: 0, w3: 0 }
    }

    pub fn is_zero(&self) -> (r: bool)
        ensures
            r == self.spec_is_zero(),
    {
        self.w0 == 0 && self.w1 == 0 && self.w2 == 0 && self.w3 == 0
    }

    pub fn same(&self, other: &Address) -> (r: bool)
        ensures
            r == (*self == *other),
    {
        self.w0 == other.w0 && self.w1 == other.w1 && self.w2 == other.w2 && self.w3 == other.w3
    }
}

/// The three families of pools.
#[derive(Debug, Clone, Copy, PartialEq, Eq, Hash, Structural)]
pub enum DexType {
    Orca,
    Raydium,
    Meteora,
}

impl DexType {
    /// Position of the family in the fixed iteration order Orca, Raydium, Meteora.
    pub open spec fn spec_index(self) -> nat {
        match self {
            DexType::Orca => 0,
            DexType::Raydium => 1,
            DexType::Meteora => 2,
        }
    }

    pub fn index(&self) -> (r: usize)
        ensures
            r == self.spec_index(),
    {
        match self {
            DexType::Orca => 0,
            DexType::Raydium => 1,
            DexType::Meteora => 2,
        }
    }
}

/// The family at position `i` of the iteration order.
pub open spec fn spec_dex_at(i: nat) -> DexType {
    if i == 0 {
        DexType::Orca
    } else if i == 1 {
        DexType::Raydium
    } else {
        DexType::Meteora
    }
}

pub fn dex_at(i: usize) -> (r: DexType)
    requires
        i < 3,
    ensures
        r == spec_dex_at(i as nat),
        r.spec_index() == i,
{
    if i == 0 {
        DexType::Orca
    } else if i == 1 {
        DexType::Raydium
    } else {
        DexType::Meteora
    }
}

/// Commitment level of an observed state.
#[derive(Debug, Clone, Copy, PartialEq, Eq, Structural)]
pub enum PoolCommitment {
    /// Latest observed, may be superseded.
    Processed,
    /// Authoritative.
    Finalized,
}

/// Slot notification: the current slot, its parent and the root.
#[derive(Debug, Clone, Copy, PartialEq, Eq, Structural)]
pub struct SlotInfo {
    pub slot: u64,
    pub parent: u64,
    pub root: u64,
}

} // verus!
