//! IPv4 addresses as `u32` and address blocks (a network address and a
//! prefix length), with the arithmetic the allocator relies on.

use vstd::arithmetic::power2::{lemma2_to64, lemma_pow2_unfold, pow2};
use vstd::prelude::*;

verus! {

/// Number of addresses in a block whose prefix has `prefix_len` bits.
pub open spec fn span(prefix_len: nat) -> nat {
    pow2((32 - prefix_len) as nat)
}

/// An IPv4 block: `addr` is its network address, `prefix_len` its prefix.
#[derive(Clone, Copy, Debug, PartialEq, Eq, Structural)]
pub struct Subnet {
    pub addr: u32,
    pub prefix_len: u8,
}

impl Subnet {
    /// The block is a real network: its prefix fits and its address is
    /// aligned to its size, so the whole block lies within the address space.
    pub open spec fn wf(&self) -> bool {
        &&& self.prefix_len <= 32
        &&& self.addr as nat % span(self.prefix_len as nat) == 0
        &&& self.addr as nat + span(self.prefix_len as nat) <= 0x1_0000_0000
    }

    pub open spec fn size(&self) -> nat {
        span(self.prefix_len as nat)
    }

    /// Last address of the block (its broadcast address).
    pub open spec fn last(&self) -> int {
        self.addr + self.size() - 1
    }

    /// The two blocks share at least one address.
    pub open spec fn overlaps(&self, other: Subnet) -> bool {
        &&& (self.addr as int) < other.addr + other.size()
        &&& (other.addr as int) < self.addr + self.size()
    }

    /// Builds the block `addr/prefix_len`; `None` where the prefix is longer
    /// than 32 bits or `addr` has bits set beyond the prefix.
    pub fn new(addr: u32, prefix_len: u8) -> (r: Option<Subnet>)
        ensures
            r is Some <==> (Subnet { addr, prefix_len }).wf(),
            r is Some ==> r->0 == (Subnet { addr, prefix_len }),
    {
        if prefix_len > 32 {
            return None;
        }
        let size = block_size(prefix_len);
        if addr as u64 % size == 0 && addr as u64 + size <= 0x1_0000_0000 {
            Some(Subnet { addr, prefix_len })
        } else {
            None
        }
    }

    /// Number of addresses in the block.
    pub fn len(&self) -> (r: u64)
        requires
            self.wf(),
        ensures
            r == self.size(),
    {
        block_size(self.prefix_len)
    }
}

/// `pow2` stays within `u64` for the exponents of IPv4.
pub proof fn lemma_span_bounds(prefix_len: nat)
    requires
        prefix_len <= 32,
    ensures
        1 <= span(prefix_len) <= 0x1_0000_0000,
    decreases 32 - prefix_len,
{
    lemma2_to64();
    if prefix_len < 32 {
        lemma_span_bounds(prefix_len + 1);
        lemma_pow2_unfold((32 - prefix_len) as nat);
    }
}

/// Size of a block with the given prefix.
pub fn block_size(prefix_len: u8) -> (r: u64)
    requires
        prefix_len <= 32,
    ensures
        r == span(prefix_len as nat),
        1 <= r <= 0x1_0000_0000,
{
    let bits: u8 = 32 - prefix_len;
    let mut size: u64 = 1;
    let mut i: u8 = 0;
    proof {
        lemma2_to64();
    }
    while i < bits
        invariant
            bits == 32 - prefix_len,
            i <= bits,
            size == pow2(i as nat),
        decreases bits - i,
    {
        proof {
            lemma_span_bounds((32 - i) as nat);
            lemma_pow2_unfold((i + 1) as nat);
        }
        size = size * 2;
        i = i + 1;
    }
    proof {
        lemma_span_bounds(prefix_len as nat);
    }
    size
}

/// Address number `index` of the block, saturating at the block's last address.
pub open spec fn address_at(s: Subnet, index: nat) -> u32 {
    if s.addr + index <= s.last() {
        (s.addr + index) as u32
    } else {
        s.last() as u32
    }
}

/// Address number `index` of the block `s`, never past its last address.
pub fn address_for(s: &Subnet, index: u32) -> (r: u32)
    requires
        s.wf(),
    ensures
        r == address_at(*s, index as nat),
        s.addr <= r <= s.last(),
{
    let size = block_size(s.prefix_len);
    if (index as u64) < size {
        s.addr + index
    } else {
        (s.addr as u64 + (size - 1)) as u32
    }
}

} // verus!
