//! Host addresses and address blocks.
//!
//! An address is held as its numeric value (32 bits for IPv4, 128 bits for
//! IPv6), and a block as a network base address plus a prefix length. The
//! block owns its own semantics: it covers exactly the addresses whose value
//! lies in `[base, base + 2^(bits - prefix_len))`, network and broadcast
//! addresses included.

use vstd::prelude::*;
use vstd::arithmetic::power2::pow2;
use vstd::arithmetic::power2::lemma_pow2_adds;
use vstd::arithmetic::power2::lemma2_to64;
use vstd::arithmetic::power2::lemma2_to64_rest;
use vstd::arithmetic::power2::lemma_pow2_strictly_increases;
use vstd::arithmetic::power2::lemma_pow2_pos;
use vstd::arithmetic::div_mod::lemma_fundamental_div_mod;
use vstd::arithmetic::div_mod::lemma_small_mod;
use vstd::arithmetic::mul::lemma_mul_inequality;
use vstd::arithmetic::div_mod::lemma_multiply_divide_lt;

verus! {

/// A host address: IPv4 or IPv6, held as its numeric value.
#[derive(Clone, Copy, PartialEq, Eq, Structural, Debug)]
pub enum Addr {
    V4(u32),
    V6(u128),
}

impl Addr {
    /// Whether this is an IPv4 address.
    pub open spec fn is_v4(self) -> bool {
        self is V4
    }

    /// The numeric value of the address.
    pub open spec fn value(self) -> nat {
        match self {
            Addr::V4(v) => v as nat,
            Addr::V6(v) => v as nat,
        }
    }

    /// The width of the address family in bits.
    pub open spec fn bits(self) -> nat {
        if self.is_v4() {
            32
        } else {
            128
        }
    }

    /// Strict order on addresses: every IPv4 address sorts before every IPv6
    /// address, and within a family addresses sort by numeric value.
    pub open spec fn lt(self, other: Addr) -> bool {
        if self.is_v4() != other.is_v4() {
            self.is_v4()
        } else {
            self.value() < other.value()
        }
    }
}

/// An address block: a network base address plus a prefix length.
#[derive(Clone, Copy, PartialEq, Eq, Structural, Debug)]
pub struct Block {
    pub base: Addr,
    pub prefix_len: u8,
}

impl Block {
    /// How many of the base address's low bits address hosts in the block.
    pub open spec fn host_bits(self) -> nat {
        (self.base.bits() - self.prefix_len) as nat
    }

    /// A block is well formed when the prefix length fits the family and the
    /// base address has all host bits zero (it is the network address).
    pub open spec fn wf(self) -> bool {
        &&& self.prefix_len <= self.base.bits()
        &&& self.base.value() % pow2(self.host_bits()) == 0
    }

    /// The number of addresses the block covers.
    pub open spec fn size(self) -> nat {
        pow2(self.host_bits())
    }

    /// The `i`-th address of the block, counting up from the base.
    pub open spec fn addr_at(self, i: int) -> Addr {
        match self.base {
            Addr::V4(b) => Addr::V4((b + i) as u32),
            Addr::V6(b) => Addr::V6((b + i) as u128),
        }
    }

    /// Whether the block covers the address.
    pub open spec fn contains(self, a: Addr) -> bool {
        &&& a.is_v4() == self.base.is_v4()
        &&& self.base.value() <= a.value() < self.base.value() + self.size()
    }

    /// Build a block from a base address and a prefix length; rejects a
    /// prefix length too long for the family and a base address with a host
    /// bit set.
    pub fn new(base: Addr, prefix_len: u8) -> (r: Option<Block>)
        ensures
            r is Some <==> (Block { base, prefix_len }).wf(),
            r matches Some(b) ==> b == (Block { base, prefix_len }) && b.wf(),
    {
        let bits: u8 = match base {
            Addr::V4(_) => 32,
            Addr::V6(_) => 128,
        };
        if prefix_len > bits {
            return None;
        }
        let hb: u8 = bits - prefix_len;
        let value: u128 = match base {
            Addr::V4(v) => v as u128,
            Addr::V6(v) => v,
        };
        proof {
            lemma_pow2_values();
        }
        let aligned: bool = if hb == 128 {
            proof {
                lemma_small_mod(value as nat, pow2(128));
            }
            value == 0
        } else {
            proof {
                lemma_pow2_strictly_increases(hb as nat, 128);
                lemma_pow2_pos(hb as nat);
            }
            let m = low_mask(hb);
            value % (m + 1) == 0
        };
        if aligned {
            Some(Block { base, prefix_len })
        } else {
            None
        }
    }
}

/// A well-formed block lies entirely within its address family: the value
/// one past its last address is at most `2^bits`.
pub proof fn lemma_block_fits(b: Block)
    requires
        b.wf(),
    ensures
        b.base.value() + b.size() <= pow2(b.base.bits()),
{
    let m = pow2(b.host_bits());
    let n = pow2(b.prefix_len as nat);
    let v = b.base.value();
    lemma_pow2_adds(b.prefix_len as nat, b.host_bits());
    assert(pow2(b.base.bits()) == n * m);
    lemma_pow2_values();
    assert(v < pow2(b.base.bits()));
    lemma_fundamental_div_mod(v as int, m as int);
    assert(v == m * (v as int / m as int));
    let q = v as int / m as int;
    lemma_multiply_divide_lt(v as int, m as int, n as int);
    assert(q < n);
    lemma_mul_inequality(q, n as int - 1, m as int);
    assert(q * m as int <= (n as int - 1) * m as int);
    assert(v + m <= n * m) by (nonlinear_arith)
        requires
            v == m * q,
            q * m as int <= (n as int - 1) * m as int,
            m > 0,
    ;
}

/// The concrete values of the powers of two at the family widths.
pub proof fn lemma_pow2_values()
    ensures
        pow2(32) == 0x100000000,
        pow2(128) == 0x100000000000000000000000000000000,
{
    lemma2_to64();
    lemma2_to64_rest();
    lemma_pow2_adds(64, 64);
}

/// The number with the low `k` bits set, computed as `2^k - 1`.
pub fn low_mask(k: u8) -> (m: u128)
    requires
        k <= 128,
    ensures
        m as nat == (pow2(k as nat) - 1) as nat,
{
    let mut m: u128 = 0;
    let mut i: u8 = 0;
    proof {
        lemma_pow2_values();
        lemma2_to64();
    }
    while i < k
        invariant
            i <= k <= 128,
            m as nat == (pow2(i as nat) - 1) as nat,
            pow2(128) == 0x100000000000000000000000000000000,
        decreases k - i,
    {
        proof {
            lemma_pow2_adds(i as nat, 1);
            lemma_pow2_pos(i as nat);
            lemma2_to64();
            assert(pow2(i as nat + 1) == 2 * pow2(i as nat));
            if i as nat + 1 < 128 {
                lemma_pow2_strictly_increases(i as nat + 1, 128);
            }
            assert(pow2(i as nat + 1) <= pow2(128));
            assert(2 * (m as nat) + 1 == pow2(i as nat + 1) - 1);
            assert(2 * (m as nat) + 1 < 0x100000000000000000000000000000000);
        }
        m = m * 2 + 1;
        i = i + 1;
    }
    m
}

} // verus!
