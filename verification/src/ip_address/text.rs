//! Addresses and prefixes as text.
//!
//! An address of version 4 is written as four decimal octets with dots
//! between them. An address of version 6 is written as hexadecimal segments
//! with colons between them, the first longest run of two or more zero
//! segments shortened to `::`; an address that maps one of version 4 is
//! written as `::ffff:` and that address.

use vstd::prelude::*;
use crate::ip_address::cidr::{Cidr, Ipv4Cidr, Ipv6Cidr};
use crate::ip_address::{IpAddr, Ipv4Addr, Ipv6Addr};
use crate::ip_address::octets_value;
use crate::text::{
    is_digit, lemma_dec_text, lemma_index_from_is, all_digits, chars_of, dec_text, dec_value, digits_only, find_from, hex_text, index_from,
    number_of, push_dec, push_hex,
};

verus! {

/// The text of an address of version 4.
pub open spec fn ipv4_text(v: u32) -> Seq<char> {
    dec_text((v / 0x100_0000) as nat) + seq!['.'] + dec_text(((v / 0x1_0000) % 256) as nat)
        + seq!['.'] + dec_text(((v / 0x100) % 256) as nat) + seq!['.'] + dec_text(
        (v % 256) as nat,
    )
}

/// The number of zero segments in a row that start at place `i`.
pub open spec fn run_len(segs: Seq<u16>, i: int) -> nat
    decreases segs.len() - i,
{
    if 0 <= i < segs.len() && segs[i] == 0 {
        1 + run_len(segs, i + 1)
    } else {
        0
    }
}

/// The first longest run of zero segments among those that start before
/// place `n`, as its start and its length.
pub open spec fn best_run(segs: Seq<u16>, n: int) -> (int, nat)
    decreases n,
{
    if n <= 0 {
        (0, 0)
    } else {
        let b = best_run(segs, n - 1);
        if run_len(segs, n - 1) > b.1 {
            (n - 1, run_len(segs, n - 1))
        } else {
            b
        }
    }
}

/// Segments in hexadecimal with colons between them.
pub open spec fn join_hex(segs: Seq<u16>) -> Seq<char>
    decreases segs.len(),
{
    if segs.len() == 0 {
        Seq::empty()
    } else if segs.len() == 1 {
        hex_text(segs[0] as nat)
    } else {
        join_hex(segs.drop_last()) + seq![':'] + hex_text(segs.last() as nat)
    }
}

/// The eight segments of an address of version 6.
pub open spec fn segments_of(v: u128) -> Seq<u16> {
    Seq::new(8, |i: int| Ipv6Addr(v).segment_at(i) as u16)
}

/// The address maps an address of version 4: ten zero octets, two octets of
/// ones, then the four octets of that address.
pub open spec fn is_ipv4_mapped(v: u128) -> bool {
    v / 0x1_0000_0000 == 0xffff
}

/// The text of an address of version 6.
pub open spec fn ipv6_text(v: u128) -> Seq<char> {
    if is_ipv4_mapped(v) {
        seq![':', ':', 'f', 'f', 'f', 'f', ':'] + ipv4_text((v % 0x1_0000_0000) as u32)
    } else {
        let segs = segments_of(v);
        let best = best_run(segs, 8);
        if best.1 > 1 {
            join_hex(segs.subrange(0, best.0)) + seq![':', ':'] + join_hex(
                segs.subrange(best.0 + best.1, 8),
            )
        } else {
            join_hex(segs)
        }
    }
}

/// The text of an address of either family.
pub open spec fn ip_text(a: IpAddr) -> Seq<char> {
    match a {
        IpAddr::V4(a) => ipv4_text(a.0),
        IpAddr::V6(a) => ipv6_text(a.0),
    }
}

/// The text of a prefix: its address, a slash and its prefix length.
pub open spec fn cidr_text(c: Cidr) -> Seq<char> {
    match c {
        Cidr::Ipv4(c) => ipv4_cidr_text(c),
        Cidr::Ipv6(c) => ipv6_cidr_text(c),
    }
}

pub open spec fn ipv4_cidr_text(c: Ipv4Cidr) -> Seq<char> {
    ipv4_text(c.network().0) + seq!['/'] + dec_text(c.prefix())
}

pub open spec fn ipv6_cidr_text(c: Ipv6Cidr) -> Seq<char> {
    ipv6_text(c.network().0) + seq!['/'] + dec_text(c.prefix())
}

/// Appends the text of an address of version 4.
pub fn push_ipv4(out: &mut String, addr: Ipv4Addr)
    ensures
        final(out)@ == old(out)@ + ipv4_text(addr.0),
{
    let o = addr.octets();
    push_dec(out, o[0] as u32);
    out.push('.');
    push_dec(out, o[1] as u32);
    out.push('.');
    push_dec(out, o[2] as u32);
    out.push('.');
    push_dec(out, o[3] as u32);
    assert(final(out)@ =~= old(out)@ + ipv4_text(addr.0));
}

/// The number of zero segments in a row that start at place `i`.
fn zero_run(segs: &[u16; 8], i: usize) -> (n: usize)
    requires
        i <= 8,
    ensures
        n == run_len(segs@, i as int),
        i + n <= 8,
{
    let mut j: usize = i;
    while j < 8 && segs[j] == 0
        invariant
            i <= j <= 8,
            run_len(segs@, i as int) == (j - i) + run_len(segs@, j as int),
        decreases 8 - j,
    {
        j = j + 1;
    }
    j - i
}

/// Appends the segments from place `from` up to place `to` in hexadecimal
/// with colons between them.
fn push_segments(out: &mut String, segs: &[u16; 8], from: usize, to: usize)
    requires
        from <= to <= 8,
    ensures
        final(out)@ == old(out)@ + join_hex(segs@.subrange(from as int, to as int)),
{
    let mut i: usize = from;
    assert(segs@.subrange(from as int, from as int) =~= Seq::<u16>::empty());
    assert(out@ =~= old(out)@ + join_hex(segs@.subrange(from as int, i as int)));
    while i < to
        invariant
            from <= i <= to <= 8,
            out@ == old(out)@ + join_hex(segs@.subrange(from as int, i as int)),
        decreases to - i,
    {
        let ghost before = out@;
        let ghost part = segs@.subrange(from as int, i + 1);
        proof {
            assert(part.drop_last() =~= segs@.subrange(from as int, i as int));
            assert(part.last() == segs@[i as int]);
        }
        if i > from {
            out.push(':');
        }
        push_hex(out, segs[i] as u32);
        proof {
            if i > from {
                assert(out@ =~= old(out)@ + join_hex(part));
            } else {
                assert(part.len() == 1);
                assert(part[0] == segs@[i as int]);
                assert(out@ =~= old(out)@ + join_hex(part));
            }
        }
        i = i + 1;
    }
}

/// Appends the text of an address of version 6.
pub fn push_ipv6(out: &mut String, addr: Ipv6Addr)
    ensures
        final(out)@ == old(out)@ + ipv6_text(addr.0),
{
    let v: u128 = addr.0;
    if v / 0x1_0000_0000 == 0xffff {
        out.push(':');
        out.push(':');
        out.push('f');
        out.push('f');
        out.push('f');
        out.push('f');
        out.push(':');
        push_ipv4(out, Ipv4Addr((v % 0x1_0000_0000) as u32));
        assert(final(out)@ =~= old(out)@ + ipv6_text(addr.0));
        return ;
    }
    let segs = addr.segments();
    assert(segs@ =~= segments_of(v));
    let mut start: usize = 0;
    let mut len: usize = 0;
    let mut i: usize = 0;
    while i < 8
        invariant
            i <= 8,
            start <= 8,
            start + len <= 8,
            best_run(segs@, i as int) == (start as int, len as nat),
        decreases 8 - i,
    {
        let n: usize = zero_run(&segs, i);
        if n > len {
            start = i;
            len = n;
        }
        i = i + 1;
    }
    if len > 1 {
        push_segments(out, &segs, 0, start);
        out.push(':');
        out.push(':');
        push_segments(out, &segs, start + len, 8);
    } else {
        push_segments(out, &segs, 0, 8);
        assert(segs@.subrange(0, 8) =~= segs@);
    }
    assert(final(out)@ =~= old(out)@ + ipv6_text(addr.0));
}

/// Appends the text of an address.
pub fn push_ip(out: &mut String, addr: IpAddr)
    ensures
        final(out)@ == old(out)@ + ip_text(addr),
{
    match addr {
        IpAddr::V4(a) => push_ipv4(out, a),
        IpAddr::V6(a) => push_ipv6(out, a),
    }
}

impl Ipv4Addr {
    /// The address as text.
    pub fn to_text(&self) -> (r: String)
        ensures
            r@ == ipv4_text(self.0),
    {
        let mut out = String::new();
        push_ipv4(&mut out, *self);
        assert(out@ =~= ipv4_text(self.0));
        out
    }
}

impl Ipv6Addr {
    /// The address as text.
    pub fn to_text(&self) -> (r: String)
        ensures
            r@ == ipv6_text(self.0),
    {
        let mut out = String::new();
        push_ipv6(&mut out, *self);
        assert(out@ =~= ipv6_text(self.0));
        out
    }
}

impl IpAddr {
    /// The address as text.
    pub fn to_text(&self) -> (r: String)
        ensures
            r@ == ip_text(*self),
    {
        match self {
            IpAddr::V4(a) => a.to_text(),
            IpAddr::V6(a) => a.to_text(),
        }
    }
}

impl Ipv4Cidr {
    /// The prefix as text.
    pub fn to_text(&self) -> (r: String)
        ensures
            r@ == ipv4_cidr_text(*self),
    {
        let mut out = String::new();
        push_ipv4(&mut out, self.address());
        out.push('/');
        push_dec(&mut out, self.mask() as u32);
        assert(out@ =~= ipv4_cidr_text(*self));
        out
    }
}

impl Ipv6Cidr {
    /// The prefix as text.
    pub fn to_text(&self) -> (r: String)
        ensures
            r@ == ipv6_cidr_text(*self),
    {
        let mut out = String::new();
        push_ipv6(&mut out, self.address());
        out.push('/');
        push_dec(&mut out, self.mask() as u32);
        assert(out@ =~= ipv6_cidr_text(*self));
        out
    }
}

impl Cidr {
    /// The prefix as text.
    pub fn to_text(&self) -> (r: String)
        ensures
            r@ == cidr_text(*self),
    {
        match self {
            Cidr::Ipv4(c) => c.to_text(),
            Cidr::Ipv6(c) => c.to_text(),
        }
    }
}

/// What a text means as an octet: one to three decimal digits, without a
/// leading zero unless it is the one digit, and a value of at most 255.
pub open spec fn octet_of(s: Seq<char>) -> Option<u8> {
    if 1 <= s.len() <= 3 && all_digits(s) && (s.len() == 1 || s[0] != '0') && dec_value(s) <= 255 {
        Some(dec_value(s) as u8)
    } else {
        None
    }
}

/// What a text means as an address of version 4: four octets with a dot
/// between each two.
pub open spec fn parse_ipv4_spec(s: Seq<char>) -> Option<Ipv4Addr> {
    let a = index_from(s, '.', 0);
    let b = index_from(s, '.', a + 1);
    let c = index_from(s, '.', b + 1);
    if a < s.len() && b < s.len() && c < s.len() {
        match (
            octet_of(s.subrange(0, a)),
            octet_of(s.subrange(a + 1, b)),
            octet_of(s.subrange(b + 1, c)),
            octet_of(s.subrange(c + 1, s.len() as int)),
        ) {
            (Some(w), Some(x), Some(y), Some(z)) => Some(
                Ipv4Addr(octets_value(w as int, x as int, y as int, z as int) as u32),
            ),
            _ => None,
        }
    } else {
        None
    }
}

/// Reads the octet that `v` holds from place `from` up to place `to`.
pub fn octet_at(v: &Vec<char>, from: usize, to: usize) -> (r: Option<u8>)
    requires
        from <= to <= v.len(),
    ensures
        r == octet_of(v@.subrange(from as int, to as int)),
{
    let n: usize = to - from;
    if n < 1 || n > 3 {
        return None;
    }
    if !digits_only(v, from, to) {
        return None;
    }
    if n > 1 && v[from] == '0' {
        assert(v@.subrange(from as int, to as int)[0] == '0');
        return None;
    }
    assert(n > 1 ==> v@.subrange(from as int, to as int)[0] != '0');
    let value: u32 = number_of(v, from, to);
    if value > 255 {
        return None;
    }
    Some(value as u8)
}

impl Ipv4Addr {
    /// Reads an address of version 4 from its text.
    pub fn parse_text(s: &str) -> (r: Option<Ipv4Addr>)
        ensures
            r == parse_ipv4_spec(s@),
    {
        let v = chars_of(s);
        let n: usize = v.len();
        let a: usize = find_from(&v, '.', 0);
        if a >= n {
            return None;
        }
        let b: usize = find_from(&v, '.', a + 1);
        if b >= n {
            return None;
        }
        let c: usize = find_from(&v, '.', b + 1);
        if c >= n {
            return None;
        }
        let w = octet_at(&v, 0, a);
        let x = octet_at(&v, a + 1, b);
        let y = octet_at(&v, b + 1, c);
        let z = octet_at(&v, c + 1, n);
        match (w, x, y, z) {
            (Some(w), Some(x), Some(y), Some(z)) => Some(Ipv4Addr::new(w, x, y, z)),
            _ => None,
        }
    }
}

/// The numeral of an octet reads as that octet.
pub proof fn lemma_octet_round_trip(o: nat)
    requires
        o <= 255,
    ensures
        octet_of(dec_text(o)) == Some(o as u8),
{
    lemma_dec_text(o);
}

/// The text of an address of version 4 reads as that address.
pub proof fn lemma_ipv4_round_trip(v: u32)
    ensures
        parse_ipv4_spec(ipv4_text(v)) == Some(Ipv4Addr(v)),
{
    let o0 = (v / 0x100_0000) as nat;
    let o1 = ((v / 0x1_0000) % 256) as nat;
    let o2 = ((v / 0x100) % 256) as nat;
    let o3 = (v % 256) as nat;
    let ta = dec_text(o0);
    let tb = dec_text(o1);
    let tc = dec_text(o2);
    let td = dec_text(o3);
    lemma_dec_text(o0);
    lemma_dec_text(o1);
    lemma_dec_text(o2);
    lemma_dec_text(o3);
    lemma_octet_round_trip(o0);
    lemma_octet_round_trip(o1);
    lemma_octet_round_trip(o2);
    lemma_octet_round_trip(o3);
    let s = ipv4_text(v);
    let a = ta.len() as int;
    let b = a + 1 + tb.len();
    let c = b + 1 + tc.len();
    assert(s.len() == c + 1 + td.len());
    assert forall|j: int| 0 <= j < a implies s[j] != '.' by {
        assert(s[j] == ta[j]);
        assert(is_digit(ta[j]));
    }
    assert(s[a] == '.');
    lemma_index_from_is(s, '.', 0, a);
    assert forall|j: int| a + 1 <= j < b implies s[j] != '.' by {
        assert(s[j] == tb[j - a - 1]);
        assert(is_digit(tb[j - a - 1]));
    }
    assert(s[b] == '.');
    lemma_index_from_is(s, '.', a + 1, b);
    assert forall|j: int| b + 1 <= j < c implies s[j] != '.' by {
        assert(s[j] == tc[j - b - 1]);
        assert(is_digit(tc[j - b - 1]));
    }
    assert(s[c] == '.');
    lemma_index_from_is(s, '.', b + 1, c);
    assert(s.subrange(0, a) =~= ta);
    assert(s.subrange(a + 1, b) =~= tb);
    assert(s.subrange(b + 1, c) =~= tc);
    assert(s.subrange(c + 1, s.len() as int) =~= td);
    assert(octets_value(o0 as int, o1 as int, o2 as int, o3 as int) == v);
}

} // verus!
