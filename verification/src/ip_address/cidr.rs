//! Prefixes: an address together with the number of leading bits that
//! every address of the block shares with it.

use vstd::prelude::*;
use crate::ip_address::blocks::{
    block_contains, block_first, block_has, block_start, blocks_overlap, lemma_block_all,
    lemma_block_single, lemma_overlap_reflexive, lemma_overlap_shares_address,
    lemma_overlap_symmetric, lemma_pow2_128,
};
use crate::ip_address::{Family, IpAddr, Ipv4Addr, Ipv6Addr};
use crate::ordered::SortKey;
use crate::text::{lemma_seq_lt_tagged, seq_lt};

verus! {

/// Why a prefix could not be made.
#[derive(Clone, Copy, Debug, PartialEq, Eq, Structural)]
pub enum CidrError {
    /// The prefix length is larger than the number of bits of an address.
    InvalidNetmask,
}

/// A prefix of version 4: an address and a prefix length of at most 32.
#[derive(Clone, Copy, Debug, PartialEq, Eq, Structural, PartialOrd, Ord, Hash)]
pub struct Ipv4Cidr {
    addr: Ipv4Addr,
    mask: u8,
}

/// A prefix of version 6: an address and a prefix length of at most 128.
#[derive(Clone, Copy, Debug, PartialEq, Eq, Structural, PartialOrd, Ord, Hash)]
pub struct Ipv6Cidr {
    addr: Ipv6Addr,
    mask: u8,
}

/// A prefix of either family.
#[derive(Clone, Copy, Debug, PartialEq, Eq, Structural, PartialOrd, Ord, Hash)]
pub enum Cidr {
    Ipv4(Ipv4Cidr),
    Ipv6(Ipv6Cidr),
}

impl Ipv4Cidr {
    #[verifier::type_invariant]
    spec fn well_formed(self) -> bool {
        self.mask <= 32
    }

    /// The address that the prefix was made with.
    pub closed spec fn network(self) -> Ipv4Addr {
        self.addr
    }

    /// The prefix length.
    pub closed spec fn prefix(self) -> nat {
        self.mask as nat
    }

    /// The address lies in the block of the prefix.
    pub open spec fn contains(self, addr: Ipv4Addr) -> bool {
        block_contains(self.network().0 as nat, self.prefix(), 32, addr.0 as nat)
    }

    /// The blocks of the two prefixes share an address.
    pub open spec fn overlaps_with(self, other: Ipv4Cidr) -> bool {
        blocks_overlap(
            self.network().0 as nat,
            self.prefix(),
            other.network().0 as nat,
            other.prefix(),
            32,
        )
    }

    /// A prefix is what its address and its length are.
    pub proof fn lemma_same(self, other: Ipv4Cidr)
        requires
            self.network() == other.network(),
            self.prefix() == other.prefix(),
        ensures
            self == other,
    {
    }

    /// The prefix of the given address and prefix length.
    pub closed spec fn of(addr: Ipv4Addr, mask: u8) -> Ipv4Cidr {
        Ipv4Cidr { addr, mask }
    }

    /// What the prefix of an address and a prefix length is made of.
    pub proof fn lemma_of(addr: Ipv4Addr, mask: u8)
        ensures
            Ipv4Cidr::of(addr, mask).network() == addr,
            Ipv4Cidr::of(addr, mask).prefix() == mask,
    {
    }

    pub fn new(addr: Ipv4Addr, mask: u8) -> (r: Result<Ipv4Cidr, CidrError>)
        ensures
            mask <= 32 ==> r == Ok::<Ipv4Cidr, CidrError>(Ipv4Cidr::of(addr, mask)),
            mask <= 32 ==> r is Ok && r->Ok_0.network() == addr && r->Ok_0.prefix() == mask,
            mask > 32 ==> r == Err::<Ipv4Cidr, CidrError>(CidrError::InvalidNetmask),
    {
        if mask > 32 {
            Err(CidrError::InvalidNetmask)
        } else {
            Ok(Ipv4Cidr { addr, mask })
        }
    }

    /// The prefix of an address and a prefix length that is known to fit.
    pub fn from_parts(addr: Ipv4Addr, mask: u8) -> (r: Ipv4Cidr)
        requires
            mask <= 32,
        ensures
            r == Ipv4Cidr::of(addr, mask),
            r.network() == addr,
            r.prefix() == mask,
    {
        Ipv4Cidr { addr, mask }
    }

    pub fn address(&self) -> (a: Ipv4Addr)
        ensures
            a == self.network(),
    {
        self.addr
    }

    pub fn mask(&self) -> (m: u8)
        ensures
            m == self.prefix(),
            m <= 32,
    {
        proof {
            use_type_invariant(self);
        }
        self.mask
    }

    /// Whether the address lies in the block of the prefix.
    pub fn contains_address(&self, addr: &Ipv4Addr) -> (r: bool)
        ensures
            r == self.contains(*addr),
    {
        proof {
            use_type_invariant(self);
            lemma_pow2_128();
        }
        block_has(self.addr.0 as u128, self.mask, 32, addr.0 as u128)
    }

    /// Whether the blocks of the two prefixes share an address.
    pub fn overlaps(&self, other: &Ipv4Cidr) -> (r: bool)
        ensures
            r == self.overlaps_with(*other),
    {
        proof {
            use_type_invariant(self);
            use_type_invariant(other);
            lemma_pow2_128();
        }
        let shorter: u8 = if self.mask <= other.mask {
            self.mask
        } else {
            other.mask
        };
        block_has(self.addr.0 as u128, shorter, 32, other.addr.0 as u128)
    }

    /// The same block, named by its first address.
    pub closed spec fn canonical_spec(self) -> Ipv4Cidr {
        Ipv4Cidr {
            addr: Ipv4Addr(block_first(self.addr.0 as nat, self.mask as nat, 32) as u32),
            mask: self.mask,
        }
    }

    /// The same block, named by its first address.
    pub fn canonical(&self) -> (r: Ipv4Cidr)
        ensures
            r == self.canonical_spec(),
            r.prefix() == self.prefix(),
            r.network().0 == block_first(self.network().0 as nat, self.prefix(), 32),
    {
        proof {
            use_type_invariant(self);
            lemma_pow2_128();
        }
        let first: u128 = block_start(self.addr.0 as u128, self.mask, 32);
        Ipv4Cidr { addr: Ipv4Addr(first as u32), mask: self.mask }
    }
}

impl Ipv6Cidr {
    #[verifier::type_invariant]
    spec fn well_formed(self) -> bool {
        self.mask <= 128
    }

    /// The address that the prefix was made with.
    pub closed spec fn network(self) -> Ipv6Addr {
        self.addr
    }

    /// The prefix length.
    pub closed spec fn prefix(self) -> nat {
        self.mask as nat
    }

    /// The address lies in the block of the prefix.
    pub open spec fn contains(self, addr: Ipv6Addr) -> bool {
        block_contains(self.network().0 as nat, self.prefix(), 128, addr.0 as nat)
    }

    /// The blocks of the two prefixes share an address.
    pub open spec fn overlaps_with(self, other: Ipv6Cidr) -> bool {
        blocks_overlap(
            self.network().0 as nat,
            self.prefix(),
            other.network().0 as nat,
            other.prefix(),
            128,
        )
    }

    /// A prefix is what its address and its length are.
    pub proof fn lemma_same(self, other: Ipv6Cidr)
        requires
            self.network() == other.network(),
            self.prefix() == other.prefix(),
        ensures
            self == other,
    {
    }

    /// The prefix of the given address and prefix length.
    pub closed spec fn of(addr: Ipv6Addr, mask: u8) -> Ipv6Cidr {
        Ipv6Cidr { addr, mask }
    }

    /// What the prefix of an address and a prefix length is made of.
    pub proof fn lemma_of(addr: Ipv6Addr, mask: u8)
        ensures
            Ipv6Cidr::of(addr, mask).network() == addr,
            Ipv6Cidr::of(addr, mask).prefix() == mask,
    {
    }

    pub fn new(addr: Ipv6Addr, mask: u8) -> (r: Result<Ipv6Cidr, CidrError>)
        ensures
            mask <= 128 ==> r == Ok::<Ipv6Cidr, CidrError>(Ipv6Cidr::of(addr, mask)),
            mask <= 128 ==> r is Ok && r->Ok_0.network() == addr && r->Ok_0.prefix() == mask,
            mask > 128 ==> r == Err::<Ipv6Cidr, CidrError>(CidrError::InvalidNetmask),
    {
        if mask > 128 {
            Err(CidrError::InvalidNetmask)
        } else {
            Ok(Ipv6Cidr { addr, mask })
        }
    }

    /// The prefix of an address and a prefix length that is known to fit.
    pub fn from_parts(addr: Ipv6Addr, mask: u8) -> (r: Ipv6Cidr)
        requires
            mask <= 128,
        ensures
            r == Ipv6Cidr::of(addr, mask),
            r.network() == addr,
            r.prefix() == mask,
    {
        Ipv6Cidr { addr, mask }
    }

    pub fn address(&self) -> (a: Ipv6Addr)
        ensures
            a == self.network(),
    {
        self.addr
    }

    pub fn mask(&self) -> (m: u8)
        ensures
            m == self.prefix(),
            m <= 128,
    {
        proof {
            use_type_invariant(self);
        }
        self.mask
    }

    /// Whether the address lies in the block of the prefix.
    pub fn contains_address(&self, addr: &Ipv6Addr) -> (r: bool)
        ensures
            r == self.contains(*addr),
    {
        proof {
            use_type_invariant(self);
            lemma_pow2_128();
        }
        block_has(self.addr.0, self.mask, 128, addr.0)
    }

    /// Whether the blocks of the two prefixes share an address.
    pub fn overlaps(&self, other: &Ipv6Cidr) -> (r: bool)
        ensures
            r == self.overlaps_with(*other),
    {
        proof {
            use_type_invariant(self);
            use_type_invariant(other);
            lemma_pow2_128();
        }
        let shorter: u8 = if self.mask <= other.mask {
            self.mask
        } else {
            other.mask
        };
        block_has(self.addr.0, shorter, 128, other.addr.0)
    }

    /// The same block, named by its first address.
    pub closed spec fn canonical_spec(self) -> Ipv6Cidr {
        Ipv6Cidr {
            addr: Ipv6Addr(block_first(self.addr.0 as nat, self.mask as nat, 128) as u128),
            mask: self.mask,
        }
    }

    /// The same block, named by its first address.
    pub fn canonical(&self) -> (r: Ipv6Cidr)
        ensures
            r == self.canonical_spec(),
            r.prefix() == self.prefix(),
            r.network().0 == block_first(self.network().0 as nat, self.prefix(), 128),
    {
        proof {
            use_type_invariant(self);
            lemma_pow2_128();
        }
        let first: u128 = block_start(self.addr.0, self.mask, 128);
        Ipv6Cidr { addr: Ipv6Addr(first), mask: self.mask }
    }
}

impl Cidr {
    /// The family of the prefix.
    pub open spec fn family_of(self) -> Family {
        match self {
            Cidr::Ipv4(_) => Family::V4,
            Cidr::Ipv6(_) => Family::V6,
        }
    }

    /// The address that the prefix was made with, as a number.
    pub open spec fn network_value(self) -> nat {
        match self {
            Cidr::Ipv4(c) => c.network().0 as nat,
            Cidr::Ipv6(c) => c.network().0 as nat,
        }
    }

    /// The prefix length.
    pub open spec fn prefix(self) -> nat {
        match self {
            Cidr::Ipv4(c) => c.prefix(),
            Cidr::Ipv6(c) => c.prefix(),
        }
    }

    /// The address is of the family of the prefix and lies in its block.
    pub open spec fn contains(self, addr: IpAddr) -> bool {
        match (self, addr) {
            (Cidr::Ipv4(c), IpAddr::V4(a)) => c.contains(a),
            (Cidr::Ipv6(c), IpAddr::V6(a)) => c.contains(a),
            _ => false,
        }
    }

    /// The two prefixes are of one family and their blocks share an address.
    pub open spec fn overlaps_with(self, other: Cidr) -> bool {
        match (self, other) {
            (Cidr::Ipv4(c), Cidr::Ipv4(d)) => c.overlaps_with(d),
            (Cidr::Ipv6(c), Cidr::Ipv6(d)) => c.overlaps_with(d),
            _ => false,
        }
    }

    /// The prefix of version 4 with the given octets and prefix length.
    pub fn new_v4(octets: [u8; 4], mask: u8) -> (r: Result<Cidr, CidrError>)
        ensures
            mask <= 32 ==> r is Ok && r->Ok_0 is Ipv4 && r->Ok_0.prefix() == mask
                && r->Ok_0.network_value() == crate::ip_address::octets_value(
                octets[0] as int,
                octets[1] as int,
                octets[2] as int,
                octets[3] as int,
            ),
            mask > 32 ==> r == Err::<Cidr, CidrError>(CidrError::InvalidNetmask),
    {
        match Ipv4Cidr::new(Ipv4Addr::from_octets(octets), mask) {
            Ok(c) => Ok(Cidr::Ipv4(c)),
            Err(e) => Err(e),
        }
    }

    /// The prefix of version 6 with the given segments and prefix length.
    pub fn new_v6(segments: [u16; 8], mask: u8) -> (r: Result<Cidr, CidrError>)
        ensures
            mask <= 128 ==> r is Ok && r->Ok_0 is Ipv6 && r->Ok_0.prefix() == mask
                && r->Ok_0.network_value() == crate::ip_address::segments_value(segments@),
            mask > 128 ==> r == Err::<Cidr, CidrError>(CidrError::InvalidNetmask),
    {
        match Ipv6Cidr::new(Ipv6Addr::from_segments(segments), mask) {
            Ok(c) => Ok(Cidr::Ipv6(c)),
            Err(e) => Err(e),
        }
    }

    /// The prefix that holds the one address and no other.
    pub closed spec fn host_of(addr: IpAddr) -> Cidr {
        match addr {
            IpAddr::V4(a) => Cidr::Ipv4(Ipv4Cidr { addr: a, mask: 32 }),
            IpAddr::V6(a) => Cidr::Ipv6(Ipv6Cidr { addr: a, mask: 128 }),
        }
    }

    /// The prefix that holds the one address and no other.
    pub fn from_address(addr: IpAddr) -> (r: Cidr)
        ensures
            r == Cidr::host_of(addr),
            r.family_of() == addr.family_of(),
            r.network_value() == addr.value(),
            r.prefix() == addr.family_of().bits(),
    {
        match addr {
            IpAddr::V4(a) => Cidr::Ipv4(Ipv4Cidr { addr: a, mask: 32 }),
            IpAddr::V6(a) => Cidr::Ipv6(Ipv6Cidr { addr: a, mask: 128 }),
        }
    }

    pub fn family(&self) -> (f: Family)
        ensures
            f == self.family_of(),
    {
        match self {
            Cidr::Ipv4(_) => Family::V4,
            Cidr::Ipv6(_) => Family::V6,
        }
    }

    pub fn is_ipv4(&self) -> (r: bool)
        ensures
            r == (self.family_of() == Family::V4),
    {
        match self {
            Cidr::Ipv4(_) => true,
            Cidr::Ipv6(_) => false,
        }
    }

    pub fn is_ipv6(&self) -> (r: bool)
        ensures
            r == (self.family_of() == Family::V6),
    {
        match self {
            Cidr::Ipv4(_) => false,
            Cidr::Ipv6(_) => true,
        }
    }

    /// Whether the address is of the family of the prefix and lies in its
    /// block.
    pub fn contains_address(&self, addr: &IpAddr) -> (r: bool)
        ensures
            r == self.contains(*addr),
    {
        match (self, addr) {
            (Cidr::Ipv4(c), IpAddr::V4(a)) => c.contains_address(a),
            (Cidr::Ipv6(c), IpAddr::V6(a)) => c.contains_address(a),
            _ => false,
        }
    }

    /// Whether the two prefixes are of one family and share an address.
    pub fn overlaps(&self, other: &Cidr) -> (r: bool)
        ensures
            r == self.overlaps_with(*other),
    {
        match (self, other) {
            (Cidr::Ipv4(c), Cidr::Ipv4(d)) => c.overlaps(d),
            (Cidr::Ipv6(c), Cidr::Ipv6(d)) => c.overlaps(d),
            _ => false,
        }
    }
}

/// A prefix of full length contains the address it was made from.
pub proof fn lemma_full_prefix_contains_own_address(c: Cidr, addr: IpAddr)
    requires
        c.family_of() == addr.family_of(),
        c.network_value() == addr.value(),
        c.prefix() == addr.family_of().bits(),
    ensures
        c.contains(addr),
        forall|other: IpAddr| c.contains(other) ==> other == addr,
{
    assert forall|other: IpAddr| c.contains(other) implies other == addr by {
        lemma_block_single(c.network_value(), c.prefix(), other.value());
    }
}

/// A prefix of length zero contains every address of its family.
pub proof fn lemma_zero_prefix_contains_all(c: Cidr, addr: IpAddr)
    requires
        c.family_of() == addr.family_of(),
        c.prefix() == 0,
    ensures
        c.contains(addr),
{
    lemma_pow2_128();
    lemma_block_all(c.network_value(), c.family_of().bits(), addr.value());
}

/// Overlap does not depend on the order of the two prefixes, and every
/// prefix overlaps itself.
pub proof fn lemma_overlaps_symmetric(a: Cidr, b: Cidr)
    ensures
        a.overlaps_with(b) == b.overlaps_with(a),
        a.overlaps_with(a),
{
    lemma_overlap_symmetric(a.network_value(), a.prefix(), b.network_value(), b.prefix(), 32);
    lemma_overlap_symmetric(a.network_value(), a.prefix(), b.network_value(), b.prefix(), 128);
    lemma_overlap_reflexive(a.network_value(), a.prefix(), 32);
    lemma_overlap_reflexive(a.network_value(), a.prefix(), 128);
}

/// Two prefixes overlap exactly when some address lies in both.
pub proof fn lemma_overlaps_share_address(a: Cidr, b: Cidr)
    requires
        a.prefix() <= a.family_of().bits(),
        b.prefix() <= b.family_of().bits(),
    ensures
        a.overlaps_with(b) <==> exists|addr: IpAddr| a.contains(addr) && #[trigger] b.contains(addr),
{
    let width = a.family_of().bits();
    if a.overlaps_with(b) {
        let addr = if a.prefix() <= b.prefix() {
            match b {
                Cidr::Ipv4(d) => IpAddr::V4(d.network()),
                Cidr::Ipv6(d) => IpAddr::V6(d.network()),
            }
        } else {
            match a {
                Cidr::Ipv4(c) => IpAddr::V4(c.network()),
                Cidr::Ipv6(c) => IpAddr::V6(c.network()),
            }
        };
        assert(a.contains(addr) && b.contains(addr));
    }
    if exists|addr: IpAddr| a.contains(addr) && #[trigger] b.contains(addr) {
        let addr = choose|addr: IpAddr| a.contains(addr) && #[trigger] b.contains(addr);
        assert(block_contains(a.network_value(), a.prefix(), width, addr.value())
            && block_contains(b.network_value(), b.prefix(), width, addr.value()));
        lemma_overlap_shares_address(
            a.network_value(),
            a.prefix(),
            b.network_value(),
            b.prefix(),
            width,
        );
    }
}

impl View for Cidr {
    type V = Cidr;

    open spec fn view(&self) -> Cidr {
        *self
    }
}

/// The place of a family in the order of prefixes: version 4 first.
pub open spec fn family_tag(c: Cidr) -> int {
    match c {
        Cidr::Ipv4(_) => 0,
        Cidr::Ipv6(_) => 1,
    }
}

/// A sequence of one integer comes before another when its integer is the
/// smaller.
pub proof fn lemma_seq_lt_single(a: int, b: int)
    ensures
        seq_lt(seq![a], seq![b]) <==> a < b,
{
    lemma_seq_lt_tagged(a, Seq::empty(), b, Seq::empty());
    assert(seq![a] + Seq::<int>::empty() =~= seq![a]);
    assert(seq![b] + Seq::<int>::empty() =~= seq![b]);
    crate::text::lemma_seq_lt_irreflexive(Seq::<int>::empty());
}

/// Sequences of three integers are ordered by their first, then by their
/// second, then by their third.
pub proof fn lemma_seq_lt_triple(a: int, b: int, c: int, x: int, y: int, z: int)
    ensures
        seq_lt(seq![a, b, c], seq![x, y, z]) <==> (a < x || (a == x && (b < y || (b == y && c
            < z)))),
{
    lemma_seq_lt_tagged(a, seq![b, c], x, seq![y, z]);
    lemma_seq_lt_tagged(b, seq![c], y, seq![z]);
    lemma_seq_lt_single(c, z);
    assert(seq![a] + seq![b, c] =~= seq![a, b, c]);
    assert(seq![x] + seq![y, z] =~= seq![x, y, z]);
    assert(seq![b] + seq![c] =~= seq![b, c]);
    assert(seq![y] + seq![z] =~= seq![y, z]);
}

impl SortKey for Cidr {
    /// Prefixes are ordered by family, then by address, then by prefix
    /// length.
    open spec fn rank(v: Cidr) -> Seq<int> {
        seq![family_tag(v), v.network_value() as int, v.prefix() as int]
    }

    proof fn lemma_rank_injective(a: Cidr, b: Cidr) {
        let ra = Self::rank(a);
        let rb = Self::rank(b);
        assert(ra[0] == rb[0] && ra[1] == rb[1] && ra[2] == rb[2]);
        match (a, b) {
            (Cidr::Ipv4(x), Cidr::Ipv4(y)) => {
                assert(x.network().0 == y.network().0);
                x.lemma_same(y);
            },
            (Cidr::Ipv6(x), Cidr::Ipv6(y)) => {
                assert(x.network().0 == y.network().0);
                x.lemma_same(y);
            },
            _ => {},
        }
    }

    fn precedes(&self, other: &Self) -> (r: bool) {
        proof {
            lemma_seq_lt_triple(
                family_tag(*self),
                self.network_value() as int,
                self.prefix() as int,
                family_tag(*other),
                other.network_value() as int,
                other.prefix() as int,
            );
        }
        match (self, other) {
            (Cidr::Ipv4(a), Cidr::Ipv4(b)) => a.address().0 < b.address().0 || (a.address().0
                == b.address().0 && a.mask() < b.mask()),
            (Cidr::Ipv4(_), Cidr::Ipv6(_)) => true,
            (Cidr::Ipv6(_), Cidr::Ipv4(_)) => false,
            (Cidr::Ipv6(a), Cidr::Ipv6(b)) => a.address().0 < b.address().0 || (a.address().0
                == b.address().0 && a.mask() < b.mask()),
        }
    }

    fn same(&self, other: &Self) -> (r: bool) {
        match (self, other) {
            (Cidr::Ipv4(a), Cidr::Ipv4(b)) => {
                proof {
                    if a.network() == b.network() && a.prefix() == b.prefix() {
                        a.lemma_same(*b);
                    }
                }
                a.address().0 == b.address().0 && a.mask() == b.mask()
            },
            (Cidr::Ipv6(a), Cidr::Ipv6(b)) => {
                proof {
                    if a.network() == b.network() && a.prefix() == b.prefix() {
                        a.lemma_same(*b);
                    }
                }
                a.address().0 == b.address().0 && a.mask() == b.mask()
            },
            _ => false,
        }
    }
}

} // verus!
