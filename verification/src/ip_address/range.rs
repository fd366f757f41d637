//! Ranges of addresses and their decomposition into prefixes.

use vstd::prelude::*;
use vstd::arithmetic::power2::{lemma_pow2_pos, pow2};
use crate::ip_address::blocks::{
    block_contains, block_size, blocks_view, covered, decompose, lemma_pow2_128,
    lemma_block_within_width, lemma_range_blocks_chain, lemma_range_blocks_fewest,
    lemma_range_blocks_partition, range_blocks,
};
use crate::ip_address::cidr::{Cidr, Ipv4Cidr, Ipv6Cidr};
use crate::ip_address::parse::parse_cidr_spec;
use crate::ip_address::round_trip::lemma_cidr_round_trip;
use crate::ip_address::text::cidr_text;
use crate::ip_address::{
    octets_value, segments_value, Family, IpAddr, Ipv4Addr, Ipv6Addr,
};

verus! {

/// Why a range could not be made.
#[derive(Clone, Copy, Debug, PartialEq, Eq, Structural, PartialOrd, Ord, Hash)]
pub enum IpRangeError {
    /// The two ends are of different families.
    MismatchedFamilies,
    /// The first address lies behind the last.
    StartGreaterThanLast,
}

impl IpRangeError {
    /// What the error says.
    pub open spec fn text(self) -> Seq<char> {
        match self {
            IpRangeError::MismatchedFamilies => "mismatched ip address families"@,
            IpRangeError::StartGreaterThanLast => "start is greater than last"@,
        }
    }

    /// What the error says.
    pub fn message(&self) -> (r: &'static str)
        ensures
            r@ == self.text(),
    {
        match self {
            IpRangeError::MismatchedFamilies => "mismatched ip address families",
            IpRangeError::StartGreaterThanLast => "start is greater than last",
        }
    }
}

/// The addresses from a first to a last one, both of one family, the first
/// not behind the last.
#[derive(Clone, Copy, Debug, PartialEq, Eq, Structural, PartialOrd, Ord, Hash)]
pub struct AddressRange {
    family: Family,
    start: u128,
    last: u128,
}

/// A range of addresses of either family.
pub type IpRange = AddressRange;

/// The number that four octets spell.
pub open spec fn v4_value(o: [u8; 4]) -> int {
    octets_value(o[0] as int, o[1] as int, o[2] as int, o[3] as int)
}

/// Prefixes read as pairs of network address and prefix length.
pub open spec fn cidrs_view(v: Seq<Cidr>) -> Seq<(nat, nat)> {
    Seq::new(v.len(), |i: int| (v[i].network_value(), v[i].prefix()))
}

impl AddressRange {
    #[verifier::type_invariant]
    spec fn well_formed(self) -> bool {
        self.start <= self.last < pow2(self.family.bits())
    }

    /// The family of the two ends.
    pub closed spec fn family_of(self) -> Family {
        self.family
    }

    /// The first address, as a number.
    pub closed spec fn first(self) -> nat {
        self.start as nat
    }

    /// The last address, as a number.
    pub closed spec fn end(self) -> nat {
        self.last as nat
    }

    /// The address is of the family of the range and lies between its ends.
    pub open spec fn holds(self, addr: IpAddr) -> bool {
        addr.family_of() == self.family_of() && self.first() <= addr.value() <= self.end()
    }

    /// The range from `start` to `last`.
    pub closed spec fn between(start: IpAddr, last: IpAddr) -> AddressRange {
        AddressRange { family: start.family_of(), start: start.value() as u128, last: last.value() as u128 }
    }

    /// What the range between two addresses is made of.
    pub proof fn lemma_between(start: IpAddr, last: IpAddr)
        ensures
            AddressRange::between(start, last).family_of() == start.family_of(),
            AddressRange::between(start, last).first() == start.value(),
            AddressRange::between(start, last).end() == last.value(),
    {
    }

    /// The range from `start` to `last`.
    pub fn new(start: IpAddr, last: IpAddr) -> (r: Result<AddressRange, IpRangeError>)
        ensures
            start.family_of() == last.family_of() && start.value() <= last.value() ==> r == Ok::<
                AddressRange,
                IpRangeError,
            >(AddressRange::between(start, last)),
            start.family_of() != last.family_of() ==> r == Err::<AddressRange, IpRangeError>(
                IpRangeError::MismatchedFamilies,
            ),
            start.family_of() == last.family_of() && start.value() > last.value() ==> r == Err::<
                AddressRange,
                IpRangeError,
            >(IpRangeError::StartGreaterThanLast),
            start.family_of() == last.family_of() && start.value() <= last.value() ==> r is Ok
                && r->Ok_0.family_of() == start.family_of() && r->Ok_0.first() == start.value()
                && r->Ok_0.end() == last.value(),
    {
        let family = start.family();
        if !(family == last.family()) {
            return Err(IpRangeError::MismatchedFamilies);
        }
        let a: u128 = start.to_bits();
        let b: u128 = last.to_bits();
        if a > b {
            return Err(IpRangeError::StartGreaterThanLast);
        }
        Ok(AddressRange { family, start: a, last: b })
    }

    /// The range of version 4 between two addresses given by their octets.
    pub fn new_v4(start: [u8; 4], last: [u8; 4]) -> (r: Result<AddressRange, IpRangeError>)
        ensures
            v4_value(start) > v4_value(last) ==> r == Err::<AddressRange, IpRangeError>(
                IpRangeError::StartGreaterThanLast,
            ),
            v4_value(start) <= v4_value(last) ==> r is Ok && r->Ok_0.family_of() == Family::V4
                && r->Ok_0.first() == v4_value(start) && r->Ok_0.end() == v4_value(last),
    {
        AddressRange::new(
            IpAddr::V4(Ipv4Addr::from_octets(start)),
            IpAddr::V4(Ipv4Addr::from_octets(last)),
        )
    }

    /// The range of version 6 between two addresses given by their segments.
    pub fn new_v6(start: [u16; 8], last: [u16; 8]) -> (r: Result<AddressRange, IpRangeError>)
        ensures
            segments_value(start@) > segments_value(last@) ==> r == Err::<
                AddressRange,
                IpRangeError,
            >(IpRangeError::StartGreaterThanLast),
            segments_value(start@) <= segments_value(last@) ==> r is Ok && r->Ok_0.family_of()
                == Family::V6 && r->Ok_0.first() == segments_value(start@) && r->Ok_0.end()
                == segments_value(last@),
    {
        AddressRange::new(
            IpAddr::V6(Ipv6Addr::from_segments(start)),
            IpAddr::V6(Ipv6Addr::from_segments(last)),
        )
    }

    /// The first address of the range.
    pub closed spec fn start_address(self) -> IpAddr {
        match self.family {
            Family::V4 => IpAddr::V4(Ipv4Addr(self.start as u32)),
            Family::V6 => IpAddr::V6(Ipv6Addr(self.start)),
        }
    }

    /// The last address of the range.
    pub closed spec fn last_address(self) -> IpAddr {
        match self.family {
            Family::V4 => IpAddr::V4(Ipv4Addr(self.last as u32)),
            Family::V6 => IpAddr::V6(Ipv6Addr(self.last)),
        }
    }

    /// The first address of the range.
    pub fn start(&self) -> (a: IpAddr)
        ensures
            a == self.start_address(),
            a.family_of() == self.family_of(),
            a.value() == self.first(),
    {
        proof {
            use_type_invariant(self);
            lemma_pow2_128();
        }
        match self.family {
            Family::V4 => IpAddr::V4(Ipv4Addr(self.start as u32)),
            Family::V6 => IpAddr::V6(Ipv6Addr(self.start)),
        }
    }

    /// The last address of the range.
    pub fn last(&self) -> (a: IpAddr)
        ensures
            a == self.last_address(),
            a.family_of() == self.family_of(),
            a.value() == self.end(),
    {
        proof {
            use_type_invariant(self);
            lemma_pow2_128();
        }
        match self.family {
            Family::V4 => IpAddr::V4(Ipv4Addr(self.last as u32)),
            Family::V6 => IpAddr::V6(Ipv6Addr(self.last)),
        }
    }

    pub fn family(&self) -> (f: Family)
        ensures
            f == self.family_of(),
    {
        self.family
    }

    /// The prefixes that the range falls apart into, in ascending order:
    /// each time the largest block that starts where the rest of the range
    /// starts and ends within it.
    pub fn to_cidrs(&self) -> (r: Vec<Cidr>)
        ensures
            cidrs_view(r@) == range_blocks(self.first(), self.end(), self.family_of().bits()),
            forall|i: int| 0 <= i < r@.len() ==> (#[trigger] r@[i]).family_of() == self.family_of(),
    {
        proof {
            use_type_invariant(self);
            lemma_pow2_128();
            lemma_range_blocks_chain(self.first(), self.end(), self.family.bits());
        }
        let width: u8 = self.family.width();
        let blocks = decompose(self.start, self.last, width);
        let ghost model = range_blocks(self.first(), self.end(), self.family.bits());
        let mut out: Vec<Cidr> = Vec::new();
        let mut i: usize = 0;
        while i < blocks.len()
            invariant
                i <= blocks.len(),
                width == self.family.bits(),
                self.last < pow2(self.family.bits()),
                model == range_blocks(self.first(), self.end(), self.family.bits()),
                blocks_view(blocks@) == model,
                forall|k: int|
                    0 <= k < model.len() ==> {
                        let b = #[trigger] model[k];
                        b.1 <= width && b.0 + block_size(width as nat, b.1) - 1 <= self.last
                    },
                out@.len() == i,
                forall|k: int| 0 <= k < i ==> (#[trigger] out@[k]).family_of() == self.family,
                forall|k: int|
                    0 <= k < i ==> (#[trigger] out@[k]).network_value() == model[k].0 && out@[k].prefix()
                        == model[k].1,
            decreases blocks.len() - i,
        {
            let network: u128 = blocks[i].0;
            let prefix: u8 = blocks[i].1;
            proof {
                lemma_pow2_128();
                assert(model[i as int] == (network as nat, prefix as nat));
                lemma_pow2_pos((width - prefix) as nat);
            }
            let cidr = match self.family {
                Family::V4 => Cidr::Ipv4(Ipv4Cidr::from_parts(Ipv4Addr(network as u32), prefix)),
                Family::V6 => Cidr::Ipv6(Ipv6Cidr::from_parts(Ipv6Addr(network), prefix)),
            };
            out.push(cidr);
            i = i + 1;
        }
        assert(cidrs_view(out@) =~= model);
        out
    }
}

/// The prefixes of a range hold exactly the addresses of the range: every
/// address of the range lies in one of them, none of them holds an address
/// outside the range, and no address lies in two of them.
pub proof fn lemma_to_cidrs_partition(range: AddressRange, cidrs: Seq<Cidr>)
    requires
        range.first() <= range.end(),
        cidrs_view(cidrs) == range_blocks(range.first(), range.end(), range.family_of().bits()),
        forall|i: int| 0 <= i < cidrs.len() ==> (#[trigger] cidrs[i]).family_of() == range.family_of(),
    ensures
        forall|addr: IpAddr|
            #[trigger] range.holds(addr) <==> exists|i: int|
                0 <= i < cidrs.len() && #[trigger] cidrs[i].contains(addr),
        forall|addr: IpAddr, i: int, j: int|
            0 <= i < cidrs.len() && 0 <= j < cidrs.len() && #[trigger] cidrs[i].contains(addr)
                && #[trigger] cidrs[j].contains(addr) ==> i == j,
        forall|i: int, j: int|
            0 <= i < j < cidrs.len() ==> (#[trigger] cidrs[i]).network_value() < (
            #[trigger] cidrs[j]).network_value(),
{
    let width = range.family_of().bits();
    let bs = range_blocks(range.first(), range.end(), width);
    lemma_range_blocks_partition(range.first(), range.end(), width);
    assert forall|i: int| 0 <= i < cidrs.len() implies bs[i] == (
        (#[trigger] cidrs[i]).network_value(),
        cidrs[i].prefix(),
    ) by {
        assert(cidrs_view(cidrs)[i] == bs[i]);
    }
    assert forall|addr: IpAddr| #[trigger] range.holds(addr) implies exists|i: int|
        0 <= i < cidrs.len() && #[trigger] cidrs[i].contains(addr) by {
        assert(covered(bs, width, addr.value()));
        let i = choose|i: int|
            0 <= i < bs.len() && block_contains((#[trigger] bs[i]).0, bs[i].1, width, addr.value());
        assert(cidrs[i].contains(addr));
    }
    assert forall|addr: IpAddr|
        (exists|i: int| 0 <= i < cidrs.len() && #[trigger] cidrs[i].contains(addr))
        implies #[trigger] range.holds(addr) by {
        let i = choose|i: int| 0 <= i < cidrs.len() && #[trigger] cidrs[i].contains(addr);
        assert(block_contains(bs[i].0, bs[i].1, width, addr.value()));
        assert(covered(bs, width, addr.value()));
    }
    assert forall|addr: IpAddr, i: int, j: int|
        0 <= i < cidrs.len() && 0 <= j < cidrs.len() && #[trigger] cidrs[i].contains(addr)
            && #[trigger] cidrs[j].contains(addr) implies i == j by {
        assert(block_contains(bs[i].0, bs[i].1, width, addr.value()));
        assert(block_contains(bs[j].0, bs[j].1, width, addr.value()));
    }
    assert forall|i: int, j: int| 0 <= i < j < cidrs.len() implies (
    #[trigger] cidrs[i]).network_value() < (#[trigger] cidrs[j]).network_value() by {
        assert(bs[i].0 < bs[j].0);
    }
}

/// The prefixes of a range are as few as can be: no list of prefixes that
/// covers exactly the range, in whatever order and however the prefixes lie
/// to each other, is shorter.
pub proof fn lemma_to_cidrs_minimal(range: AddressRange, cidrs: Seq<Cidr>, other: Seq<Cidr>)
    requires
        range.first() <= range.end() < pow2(range.family_of().bits()),
        cidrs_view(cidrs) == range_blocks(range.first(), range.end(), range.family_of().bits()),
        forall|i: int|
            0 <= i < other.len() ==> (#[trigger] other[i]).family_of() == range.family_of()
                && other[i].prefix() <= range.family_of().bits(),
        forall|addr: IpAddr|
            #[trigger] range.holds(addr) <==> exists|i: int|
                0 <= i < other.len() && #[trigger] other[i].contains(addr),
    ensures
        cidrs.len() <= other.len(),
{
    let width = range.family_of().bits();
    let bs = cidrs_view(other);
    lemma_pow2_128();
    assert forall|x: nat| range.first() <= x <= range.end() implies #[trigger] covered(
        bs,
        width,
        x,
    ) by {
        let addr = address_of(range.family_of(), x);
        assert(range.holds(addr));
        let i = choose|i: int| 0 <= i < other.len() && #[trigger] other[i].contains(addr);
        assert(block_contains(bs[i].0, bs[i].1, width, x));
    }
    assert forall|x: nat| #[trigger] covered(bs, width, x) implies range.first() <= x
        <= range.end() by {
        let i = choose|i: int|
            0 <= i < bs.len() && block_contains((#[trigger] bs[i]).0, bs[i].1, width, x);
        lemma_block_within_width(bs[i].0, bs[i].1, width, x);
        let addr = address_of(range.family_of(), x);
        assert(other[i].contains(addr));
        assert(range.holds(addr));
    }
    lemma_range_blocks_fewest(bs, range.first(), range.end(), width);
    assert(cidrs_view(cidrs).len() == cidrs.len());
    assert(bs.len() == other.len());
}

/// The address of a family with the given number, for a number that the
/// family has.
pub open spec fn address_of(family: Family, x: nat) -> IpAddr {
    match family {
        Family::V4 => IpAddr::V4(Ipv4Addr(x as u32)),
        Family::V6 => IpAddr::V6(Ipv6Addr(x as u128)),
    }
}

/// What the prefix at place `i` of the prefixes of a range is: of a prefix
/// length that its family has, at a multiple of its size, and within the
/// range.
proof fn lemma_emitted(range: AddressRange, cidrs: Seq<Cidr>, i: int)
    requires
        range.first() <= range.end(),
        cidrs_view(cidrs) == range_blocks(range.first(), range.end(), range.family_of().bits()),
        0 <= i < cidrs.len(),
    ensures
        cidrs[i].prefix() <= range.family_of().bits(),
        cidrs[i].network_value() % block_size(range.family_of().bits(), cidrs[i].prefix()) == 0,
        i == 0 ==> cidrs[i].network_value() == range.first(),
        i == cidrs.len() - 1 ==> cidrs[i].network_value() + block_size(
            range.family_of().bits(),
            cidrs[i].prefix(),
        ) - 1 == range.end(),
{
    let width = range.family_of().bits();
    let bs = range_blocks(range.first(), range.end(), width);
    lemma_range_blocks_chain(range.first(), range.end(), width);
    assert(cidrs_view(cidrs)[i] == bs[i]);
    assert(cidrs.len() == bs.len());
    assert(bs[i].1 <= width && bs[i].0 % block_size(width, bs[i].1) == 0);
    lemma_pow2_pos((width - bs[i].1) as nat);
}

/// The prefixes of a range can be written and read again: the text of each
/// reads as that prefix, each starts at a multiple of its size, so that its
/// address has no bit set behind the prefix, the first starts where the
/// range starts and the last ends where the range ends. With the law of
/// the partition, the prefixes that are read make up the range again.
pub proof fn lemma_to_cidrs_reread(range: AddressRange, cidrs: Seq<Cidr>)
    requires
        range.first() <= range.end(),
        cidrs_view(cidrs) == range_blocks(range.first(), range.end(), range.family_of().bits()),
        forall|i: int| 0 <= i < cidrs.len() ==> (#[trigger] cidrs[i]).family_of() == range.family_of(),
    ensures
        cidrs.len() >= 1,
        forall|i: int| 0 <= i < cidrs.len() ==> rereads(#[trigger] cidrs[i]),
        cidrs[0].network_value() == range.first(),
        cidrs.last().network_value() + block_size(
            range.family_of().bits(),
            cidrs.last().prefix(),
        ) - 1 == range.end(),
{
    lemma_range_blocks_chain(range.first(), range.end(), range.family_of().bits());
    assert(cidrs_view(cidrs).len() == cidrs.len());
    lemma_emitted(range, cidrs, 0);
    lemma_emitted(range, cidrs, cidrs.len() - 1);
    assert forall|i: int| 0 <= i < cidrs.len() implies rereads(#[trigger] cidrs[i]) by {
        lemma_emitted(range, cidrs, i);
        lemma_cidr_round_trip(cidrs[i]);
    }
}

/// The text of the prefix reads as the prefix, and the address of the
/// prefix has no bit set behind the prefix.
pub open spec fn rereads(c: Cidr) -> bool {
    &&& parse_cidr_spec(cidr_text(c)) == Some(c)
    &&& c.network_value() % block_size(c.family_of().bits(), c.prefix()) == 0
}

} // verus!
