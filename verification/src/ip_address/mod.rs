//! Internet addresses, prefixes and ranges.
//!
//! An address is the number that its bits spell: 32 bits for version 4 and
//! 128 bits for version 6. A prefix (CIDR) pairs an address with a prefix
//! length; a range pairs a first address with a last one.

pub mod blocks;
pub mod cidr;
pub mod parse;
pub mod range;
pub mod round_trip;
pub mod text;

use vstd::prelude::*;
use vstd::arithmetic::power2::*;
use crate::ip_address::blocks::lemma_pow2_128;

verus! {

/// The two address families.
#[derive(Clone, Copy, Debug, PartialEq, Eq, Structural, PartialOrd, Ord, Hash)]
pub enum Family {
    V4,
    V6,
}

impl Family {
    /// The number of bits of an address of this family.
    pub open spec fn bits(self) -> nat {
        match self {
            Family::V4 => 32,
            Family::V6 => 128,
        }
    }

    /// The number of bits of an address of this family.
    pub fn width(&self) -> (w: u8)
        ensures
            w == self.bits(),
    {
        match self {
            Family::V4 => 32,
            Family::V6 => 128,
        }
    }

    pub fn is_ipv4(&self) -> (r: bool)
        ensures
            r == (*self == Family::V4),
    {
        match self {
            Family::V4 => true,
            Family::V6 => false,
        }
    }

    pub fn is_ipv6(&self) -> (r: bool)
        ensures
            r == (*self == Family::V6),
    {
        match self {
            Family::V4 => false,
            Family::V6 => true,
        }
    }
}

/// An address of version 4, held as the number of its 32 bits.
#[derive(Clone, Copy, Debug, PartialEq, Eq, Structural, PartialOrd, Ord, Hash)]
pub struct Ipv4Addr(pub u32);

/// An address of version 6, held as the number of its 128 bits.
#[derive(Clone, Copy, Debug, PartialEq, Eq, Structural, PartialOrd, Ord, Hash)]
pub struct Ipv6Addr(pub u128);

/// An address of either family.
#[derive(Clone, Copy, Debug, PartialEq, Eq, Structural, PartialOrd, Ord, Hash)]
pub enum IpAddr {
    V4(Ipv4Addr),
    V6(Ipv6Addr),
}

/// The number that four octets spell, the first being the most significant.
pub open spec fn octets_value(a: int, b: int, c: int, d: int) -> int {
    ((a * 256 + b) * 256 + c) * 256 + d
}

impl Ipv4Addr {
    /// The address `a.b.c.d`.
    pub fn new(a: u8, b: u8, c: u8, d: u8) -> (r: Ipv4Addr)
        ensures
            r.0 == octets_value(a as int, b as int, c as int, d as int),
    {
        Ipv4Addr(((a as u32 * 256 + b as u32) * 256 + c as u32) * 256 + d as u32)
    }

    pub fn from_octets(octets: [u8; 4]) -> (r: Ipv4Addr)
        ensures
            r.0 == octets_value(
                octets[0] as int,
                octets[1] as int,
                octets[2] as int,
                octets[3] as int,
            ),
    {
        Ipv4Addr::new(octets[0], octets[1], octets[2], octets[3])
    }

    pub fn from_bits(bits: u32) -> (r: Ipv4Addr)
        ensures
            r.0 == bits,
    {
        Ipv4Addr(bits)
    }

    pub fn to_bits(&self) -> (r: u32)
        ensures
            r == self.0,
    {
        self.0
    }

    /// The four octets, the most significant first.
    pub fn octets(&self) -> (r: [u8; 4])
        ensures
            r[0] == self.0 / 0x100_0000,
            r[1] == (self.0 / 0x1_0000) % 256,
            r[2] == (self.0 / 0x100) % 256,
            r[3] == self.0 % 256,
            octets_value(r[0] as int, r[1] as int, r[2] as int, r[3] as int) == self.0,
    {
        let v: u32 = self.0;
        [
            (v / 0x100_0000) as u8,
            ((v / 0x1_0000) % 256) as u8,
            ((v / 0x100) % 256) as u8,
            (v % 256) as u8,
        ]
    }
}

/// The number that eight segments of 16 bits spell, the first being the most
/// significant.
pub open spec fn segments_value(s: Seq<u16>) -> int
    decreases s.len(),
{
    if s.len() == 0 {
        0
    } else {
        segments_value(s.drop_last()) * 0x1_0000 + s.last() as int
    }
}

impl Ipv6Addr {
    pub fn from_segments(segments: [u16; 8]) -> (r: Ipv6Addr)
        ensures
            r.0 == segments_value(segments@),
    {
        let mut v: u128 = 0;
        let mut i: usize = 0;
        assert(segments@.subrange(0, 0) =~= Seq::<u16>::empty());
        proof {
            lemma2_to64();
        }
        while i < 8
            invariant
                i <= 8,
                v == segments_value(segments@.subrange(0, i as int)),
                v < pow2((16 * i) as nat),
            decreases 8 - i,
        {
            proof {
                lemma2_to64();
                lemma_pow2_128();
                lemma_pow2_adds((16 * i) as nat, 16);
                if 16 * i + 16 < 128 {
                    lemma_pow2_strictly_increases((16 * i + 16) as nat, 128);
                }
                assert(segments@.subrange(0, i + 1).drop_last() =~= segments@.subrange(
                    0,
                    i as int,
                ));
                assert((v + 1) * 0x1_0000 <= pow2((16 * i) as nat) * 0x1_0000) by (nonlinear_arith)
                    requires
                        v < pow2((16 * i) as nat),
                ;
            }
            v = v * 0x1_0000 + segments[i] as u128;
            i = i + 1;
        }
        assert(segments@.subrange(0, 8) =~= segments@);
        Ipv6Addr(v)
    }

    pub fn from_bits(bits: u128) -> (r: Ipv6Addr)
        ensures
            r.0 == bits,
    {
        Ipv6Addr(bits)
    }

    pub fn to_bits(&self) -> (r: u128)
        ensures
            r == self.0,
    {
        self.0
    }

    /// The segment of 16 bits at place `i`, place 0 being the most
    /// significant.
    pub open spec fn segment_at(self, i: int) -> int {
        (self.0 as int / pow2((16 * (7 - i)) as nat) as int) % 0x1_0000
    }

    /// The eight segments, the most significant first.
    pub fn segments(&self) -> (r: [u16; 8])
        ensures
            forall|i: int| 0 <= i < 8 ==> #[trigger] r[i] as int == self.segment_at(i),
    {
        let mut out: [u16; 8] = [0u16; 8];
        let mut v: u128 = self.0;
        let mut i: usize = 8;
        proof {
            lemma2_to64();
            assert(pow2((16 * (8 - i)) as nat) == 1);
        }
        while i > 0
            invariant
                i <= 8,
                v as int == self.0 as int / pow2((16 * (8 - i)) as nat) as int,
                forall|j: int| i <= j < 8 ==> #[trigger] out[j] as int == self.segment_at(j),
            decreases i,
        {
            i = i - 1;
            out[i] = (v % 0x1_0000) as u16;
            proof {
                let e = (16 * (7 - i)) as nat;
                lemma2_to64();
                lemma_pow2_adds(e, 16);
                lemma_pow2_pos(e);
                vstd::arithmetic::div_mod::lemma_div_denominator(
                    self.0 as int,
                    pow2(e) as int,
                    0x1_0000,
                );
                assert(pow2(e + 16) == pow2(e) * 0x1_0000);
                assert((16 * (8 - i)) as nat == e + 16);
                assert(v as int == self.0 as int / pow2(e) as int);
            }
            v = v / 0x1_0000;
        }
        out
    }
}

impl IpAddr {
    /// The family that the address belongs to.
    pub open spec fn family_of(self) -> Family {
        match self {
            IpAddr::V4(_) => Family::V4,
            IpAddr::V6(_) => Family::V6,
        }
    }

    /// The number that the bits of the address spell.
    pub open spec fn value(self) -> nat {
        match self {
            IpAddr::V4(a) => a.0 as nat,
            IpAddr::V6(a) => a.0 as nat,
        }
    }

    pub fn family(&self) -> (f: Family)
        ensures
            f == self.family_of(),
    {
        match self {
            IpAddr::V4(_) => Family::V4,
            IpAddr::V6(_) => Family::V6,
        }
    }

    pub fn is_ipv4(&self) -> (r: bool)
        ensures
            r == (self.family_of() == Family::V4),
    {
        match self {
            IpAddr::V4(_) => true,
            IpAddr::V6(_) => false,
        }
    }

    pub fn is_ipv6(&self) -> (r: bool)
        ensures
            r == (self.family_of() == Family::V6),
    {
        match self {
            IpAddr::V4(_) => false,
            IpAddr::V6(_) => true,
        }
    }

    /// The address as a number of 128 bits.
    pub fn to_bits(&self) -> (r: u128)
        ensures
            r == self.value(),
            r < pow2(self.family_of().bits()),
    {
        proof {
            lemma_pow2_128();
        }
        match self {
            IpAddr::V4(a) => a.0 as u128,
            IpAddr::V6(a) => a.0,
        }
    }
}

} // verus!
