//! Addresses, prefixes and ranges read from text.
//!
//! An address of version 6 is read as groups of one to four hexadecimal
//! digits with colons between them. Once, two colons may stand for one
//! or more groups of zeros, and the last two groups may be written as an
//! address of version 4. A text is an address only as a whole.

use vstd::prelude::*;
use crate::ip_address::cidr::{Cidr, Ipv4Cidr, Ipv6Cidr};
use crate::ip_address::range::{AddressRange, IpRange};
use crate::ip_address::text::{
    ipv4_cidr_text, ipv4_text, lemma_ipv4_round_trip, octet_at, octet_of, parse_ipv4_spec,
};
use crate::ip_address::{octets_value, segments_value, IpAddr, Ipv4Addr, Ipv6Addr};
use crate::text::{
    char_is_digit, char_is_hex_digit, chars_of, dec_text, find_from, index_of, is_digit,
    is_hex_digit, lemma_dec_text, lemma_index_from_is, lemma_parse_dec_text, parse_u32,
    parse_u32_spec, string_of,
};

verus! {

/// The value of a hexadecimal digit.
pub open spec fn hex_value(c: char) -> int {
    if is_digit(c) {
        c as int - 48
    } else if 'a' <= c <= 'f' {
        c as int - 87
    } else {
        c as int - 55
    }
}

/// The number that a sequence of hexadecimal digits stands for.
pub open spec fn hex_number(s: Seq<char>) -> nat
    decreases s.len(),
{
    if s.len() == 0 {
        0
    } else {
        (hex_number(s.drop_last()) * 16 + hex_value(s.last())) as nat
    }
}

/// The place behind the hexadecimal digits that start at place `i`.
pub open spec fn hex_run_end(s: Seq<char>, i: int) -> int
    decreases s.len() - i,
{
    if 0 <= i < s.len() && is_hex_digit(s[i]) {
        hex_run_end(s, i + 1)
    } else {
        i
    }
}

/// The place behind the decimal digits that start at place `i`.
pub open spec fn dec_run_end(s: Seq<char>, i: int) -> int
    decreases s.len() - i,
{
    if 0 <= i < s.len() && is_digit(s[i]) {
        dec_run_end(s, i + 1)
    } else {
        i
    }
}

/// The group that starts at place `i`, with the place behind it: all the
/// hexadecimal digits that stand there, of which there have to be one to
/// four.
pub open spec fn read_group(s: Seq<char>, i: int) -> Option<(u16, int)> {
    let e = hex_run_end(s, i);
    if 1 <= e - i <= 4 {
        Some((hex_number(s.subrange(i, e)) as u16, e))
    } else {
        None
    }
}

/// The octet that starts at place `i`, with the place behind it: all the
/// decimal digits that stand there, which have to read as an octet.
pub open spec fn read_octet(s: Seq<char>, i: int) -> Option<(u8, int)> {
    let e = dec_run_end(s, i);
    match octet_of(s.subrange(i, e)) {
        Some(v) => Some((v, e)),
        None => None,
    }
}

/// The octet behind a dot at place `i`.
pub open spec fn read_dot_octet(s: Seq<char>, i: int) -> Option<(u8, int)> {
    if 0 <= i < s.len() && s[i] == '.' {
        read_octet(s, i + 1)
    } else {
        None
    }
}

/// The address of version 4 that starts at place `i`, with the place behind
/// it: four octets with a dot between each two.
pub open spec fn read_ipv4(s: Seq<char>, i: int) -> Option<(u32, int)> {
    match read_octet(s, i) {
        None => None,
        Some((a, p1)) => match read_dot_octet(s, p1) {
            None => None,
            Some((b, p2)) => match read_dot_octet(s, p2) {
                None => None,
                Some((c, p3)) => match read_dot_octet(s, p3) {
                    None => None,
                    Some((d, p4)) => Some(
                        (octets_value(a as int, b as int, c as int, d as int) as u32, p4),
                    ),
                },
            },
        },
    }
}

/// What reading groups gives: the groups, the place behind them, and
/// whether the last two were written as an address of version 4.
pub struct Groups {
    pub groups: Seq<u16>,
    pub end: int,
    pub ipv4: bool,
}

/// Reads up to `limit` groups from place `i` on, `acc` being the groups
/// that have been read. Behind the first group each group has a colon
/// before it. Where two groups can still be read, an address of version 4
/// is taken as those two and ends the reading.
pub open spec fn read_groups(s: Seq<char>, i: int, limit: nat, acc: Seq<u16>) -> Groups
    decreases limit - acc.len(),
{
    if acc.len() >= limit {
        Groups { groups: acc, end: i, ipv4: false }
    } else {
        let start = if acc.len() == 0 {
            Some(i)
        } else if 0 <= i < s.len() && s[i] == ':' {
            Some(i + 1)
        } else {
            None
        };
        match start {
            None => Groups { groups: acc, end: i, ipv4: false },
            Some(p) => if acc.len() + 1 < limit && read_ipv4(s, p) is Some {
                let v = read_ipv4(s, p)->Some_0;
                Groups {
                    groups: acc.push((v.0 / 0x1_0000) as u16).push((v.0 % 0x1_0000) as u16),
                    end: v.1,
                    ipv4: true,
                }
            } else {
                match read_group(s, p) {
                    Some((v, e)) => read_groups(s, e, limit, acc.push(v)),
                    None => Groups { groups: acc, end: i, ipv4: false },
                }
            },
        }
    }
}

/// What a text means as an address of version 6, as its eight segments.
pub open spec fn parse_ipv6_segments(s: Seq<char>) -> Option<Seq<u16>> {
    let head = read_groups(s, 0, 8, Seq::empty());
    if head.groups.len() == 8 {
        if head.end == s.len() {
            Some(head.groups)
        } else {
            None
        }
    } else if head.ipv4 {
        None
    } else if !(head.end + 1 < s.len() && s[head.end] == ':' && s[head.end + 1] == ':') {
        None
    } else {
        let tail = read_groups(s, head.end + 2, (7 - head.groups.len()) as nat, Seq::empty());
        if tail.end == s.len() {
            Some(
                head.groups + Seq::new(
                    (8 - head.groups.len() - tail.groups.len()) as nat,
                    |k: int| 0u16,
                ) + tail.groups,
            )
        } else {
            None
        }
    }
}

/// What a text means as an address of version 6.
pub open spec fn parse_ipv6_spec(s: Seq<char>) -> Option<Ipv6Addr> {
    match parse_ipv6_segments(s) {
        Some(g) => Some(Ipv6Addr(segments_value(g) as u128)),
        None => None,
    }
}

/// The value of a hexadecimal digit.
pub fn value_of_hex(c: char) -> (v: u8)
    requires
        is_hex_digit(c),
    ensures
        v as int == hex_value(c),
        v < 16,
{
    if c >= '0' && c <= '9' {
        (c as u8) - 48u8
    } else if c >= 'a' && c <= 'f' {
        (c as u8) - 87u8
    } else {
        (c as u8) - 55u8
    }
}

/// The place behind the hexadecimal digits that start at place `i`.
fn hex_run(v: &Vec<char>, i: usize) -> (e: usize)
    requires
        i <= v.len(),
    ensures
        e == hex_run_end(v@, i as int),
        i <= e <= v.len(),
        forall|j: int| i <= j < e ==> is_hex_digit(#[trigger] v@[j]),
{
    let mut e: usize = i;
    while e < v.len() && char_is_hex_digit(v[e])
        invariant
            i <= e <= v.len(),
            hex_run_end(v@, e as int) == hex_run_end(v@, i as int),
            forall|j: int| i <= j < e ==> is_hex_digit(#[trigger] v@[j]),
        decreases v.len() - e,
    {
        e = e + 1;
    }
    e
}

/// The place behind the decimal digits that start at place `i`.
fn dec_run(v: &Vec<char>, i: usize) -> (e: usize)
    requires
        i <= v.len(),
    ensures
        e == dec_run_end(v@, i as int),
        i <= e <= v.len(),
{
    let mut e: usize = i;
    while e < v.len() && char_is_digit(v[e])
        invariant
            i <= e <= v.len(),
            dec_run_end(v@, e as int) == dec_run_end(v@, i as int),
        decreases v.len() - e,
    {
        e = e + 1;
    }
    e
}

/// Reads the group that starts at place `i`.
fn group_at(v: &Vec<char>, i: usize) -> (r: Option<(u16, usize)>)
    requires
        i <= v.len(),
    ensures
        match read_group(v@, i as int) {
            Some((g, e)) => r == Some((g, e as usize)) && i < e <= v.len(),
            None => r is None,
        },
{
    let e: usize = hex_run(v, i);
    if e - i < 1 || e - i > 4 {
        return None;
    }
    let mut acc: u16 = 0;
    let mut k: usize = i;
    let ghost digits = v@.subrange(i as int, e as int);
    assert(digits.subrange(0, 0) =~= Seq::<char>::empty());
    while k < e
        invariant
            i <= k <= e <= v.len(),
            e - i <= 4,
            digits == v@.subrange(i as int, e as int),
            forall|j: int| i <= j < e ==> is_hex_digit(#[trigger] v@[j]),
            acc == hex_number(digits.subrange(0, k - i)),
            (k - i == 0 ==> acc == 0) && (k - i == 1 ==> acc < 0x10) && (k - i == 2 ==> acc < 0x100)
                && (k - i == 3 ==> acc < 0x1000),
        decreases e - k,
    {
        let c: char = v[k];
        proof {
            let prefix = digits.subrange(0, k - i + 1);
            assert(prefix.drop_last() =~= digits.subrange(0, k - i));
            assert(prefix.last() == c);
            assert(is_hex_digit(v@[k as int]));
        }
        acc = acc * 16 + value_of_hex(c) as u16;
        k = k + 1;
    }
    assert(digits.subrange(0, k - i) =~= digits);
    Some((acc, e))
}

/// Reads the octet that starts at place `i`.
fn octet_from(v: &Vec<char>, i: usize) -> (r: Option<(u8, usize)>)
    requires
        i <= v.len(),
    ensures
        match read_octet(v@, i as int) {
            Some((o, e)) => r == Some((o, e as usize)) && i < e <= v.len(),
            None => r is None,
        },
{
    let e: usize = dec_run(v, i);
    match octet_at(v, i, e) {
        Some(o) => Some((o, e)),
        None => None,
    }
}

/// Reads the octet behind a dot at place `i`.
fn dot_octet_from(v: &Vec<char>, i: usize) -> (r: Option<(u8, usize)>)
    requires
        i <= v.len(),
    ensures
        match read_dot_octet(v@, i as int) {
            Some((o, e)) => r == Some((o, e as usize)) && i < e <= v.len(),
            None => r is None,
        },
{
    if i < v.len() && v[i] == '.' {
        octet_from(v, i + 1)
    } else {
        None
    }
}

/// Reads the address of version 4 that starts at place `i`.
fn ipv4_at(v: &Vec<char>, i: usize) -> (r: Option<(u32, usize)>)
    requires
        i <= v.len(),
    ensures
        match read_ipv4(v@, i as int) {
            Some((a, e)) => r == Some((a, e as usize)) && i < e <= v.len(),
            None => r is None,
        },
{
    let (a, p1) = match octet_from(v, i) {
        Some(x) => x,
        None => {
            return None;
        },
    };
    let (b, p2) = match dot_octet_from(v, p1) {
        Some(x) => x,
        None => {
            return None;
        },
    };
    let (c, p3) = match dot_octet_from(v, p2) {
        Some(x) => x,
        None => {
            return None;
        },
    };
    let (d, p4) = match dot_octet_from(v, p3) {
        Some(x) => x,
        None => {
            return None;
        },
    };
    Some((Ipv4Addr::new(a, b, c, d).0, p4))
}

/// Reads up to `limit` groups from place `i` on.
fn groups_at(v: &Vec<char>, i: usize, limit: usize) -> (r: (Vec<u16>, usize, bool))
    requires
        i <= v.len(),
        limit <= 8,
    ensures
        r.0@ == read_groups(v@, i as int, limit as nat, Seq::empty()).groups,
        r.1 == read_groups(v@, i as int, limit as nat, Seq::empty()).end,
        r.2 == read_groups(v@, i as int, limit as nat, Seq::empty()).ipv4,
        r.0@.len() <= limit,
        i <= r.1 <= v.len(),
{
    let mut groups: Vec<u16> = Vec::new();
    let mut at: usize = i;
    while groups.len() < limit
        invariant
            i <= at <= v.len(),
            limit <= 8,
            groups@.len() <= limit,
            read_groups(v@, at as int, limit as nat, groups@) == read_groups(
                v@,
                i as int,
                limit as nat,
                Seq::empty(),
            ),
        decreases limit - groups.len(),
    {
        let start: usize = if groups.len() == 0 {
            at
        } else if at < v.len() && v[at] == ':' {
            at + 1
        } else {
            return (groups, at, false);
        };
        if groups.len() + 1 < limit {
            match ipv4_at(v, start) {
                Some((addr, end)) => {
                    groups.push((addr / 0x1_0000) as u16);
                    groups.push((addr % 0x1_0000) as u16);
                    return (groups, end, true);
                },
                None => {},
            }
        }
        match group_at(v, start) {
            Some((g, end)) => {
                groups.push(g);
                at = end;
            },
            None => {
                return (groups, at, false);
            },
        }
    }
    (groups, at, false)
}

impl Ipv6Addr {
    /// Reads an address of version 6 from its text.
    pub fn parse_text(s: &str) -> (r: Option<Ipv6Addr>)
        ensures
            r == parse_ipv6_spec(s@),
    {
        let v = chars_of(s);
        let (head, at, ipv4) = groups_at(&v, 0, 8);
        if head.len() == 8 {
            if at != v.len() {
                return None;
            }
            return Some(segments_to_address(&head));
        }
        if ipv4 {
            return None;
        }
        if !(at < v.len() && v.len() - at >= 2 && v[at] == ':' && v[at + 1] == ':') {
            return None;
        }
        let (tail, end, _) = groups_at(&v, at + 2, 7 - head.len());
        if end != v.len() {
            return None;
        }
        let mut all: Vec<u16> = Vec::new();
        let mut k: usize = 0;
        while k < head.len()
            invariant
                k <= head.len(),
                all@ == head@.subrange(0, k as int),
            decreases head.len() - k,
        {
            all.push(head[k]);
            k = k + 1;
            assert(all@ =~= head@.subrange(0, k as int));
        }
        let zeros: usize = 8 - head.len() - tail.len();
        let ghost filler = Seq::new(zeros as nat, |k: int| 0u16);
        let mut z: usize = 0;
        assert(all@ =~= head@ + filler.subrange(0, 0));
        while z < zeros
            invariant
                z <= zeros,
                filler == Seq::new(zeros as nat, |k: int| 0u16),
                all@ == head@ + filler.subrange(0, z as int),
            decreases zeros - z,
        {
            all.push(0);
            z = z + 1;
            assert(all@ =~= head@ + filler.subrange(0, z as int));
        }
        assert(filler.subrange(0, z as int) =~= filler);
        let mut t: usize = 0;
        assert(all@ =~= head@ + filler + tail@.subrange(0, 0));
        while t < tail.len()
            invariant
                t <= tail.len(),
                all@ == head@ + filler + tail@.subrange(0, t as int),
            decreases tail.len() - t,
        {
            all.push(tail[t]);
            t = t + 1;
            assert(all@ =~= head@ + filler + tail@.subrange(0, t as int));
        }
        assert(tail@.subrange(0, t as int) =~= tail@);
        Some(segments_to_address(&all))
    }
}

/// The address whose segments are the given eight.
fn segments_to_address(g: &Vec<u16>) -> (r: Ipv6Addr)
    requires
        g@.len() == 8,
    ensures
        r.0 == segments_value(g@),
{
    let segments: [u16; 8] = [g[0], g[1], g[2], g[3], g[4], g[5], g[6], g[7]];
    assert(segments@ =~= g@);
    Ipv6Addr::from_segments(segments)
}

/// What a text means as a number of eight bits.
pub open spec fn parse_u8_spec(s: Seq<char>) -> Option<u8> {
    match parse_u32_spec(s) {
        Some(n) => if n <= 255 {
            Some(n as u8)
        } else {
            None
        },
        None => None,
    }
}

/// Reads a number of eight bits as `str::parse::<u8>` does.
pub fn parse_u8(s: &str) -> (r: Option<u8>)
    ensures
        r == parse_u8_spec(s@),
{
    match parse_u32(s) {
        Some(n) => if n <= 255 {
            Some(n as u8)
        } else {
            None
        },
        None => None,
    }
}

/// What a text means as a prefix of version 4: an address alone, with the
/// full prefix length, or an address, a slash and a prefix length of at most
/// 32.
pub open spec fn parse_ipv4_cidr_spec(s: Seq<char>) -> Option<Ipv4Cidr> {
    let at = index_of(s, '/');
    if at >= s.len() {
        match parse_ipv4_spec(s) {
            Some(a) => Some(Ipv4Cidr::of(a, 32u8)),
            None => None,
        }
    } else {
        match (parse_u8_spec(s.subrange(at + 1, s.len() as int)), parse_ipv4_spec(s.subrange(0, at))) {
            (Some(m), Some(a)) => if m <= 32 {
                Some(Ipv4Cidr::of(a, m))
            } else {
                None
            },
            _ => None,
        }
    }
}

/// The text of an address of version 4 holds digits and dots only.
pub proof fn lemma_ipv4_text_chars(v: u32)
    ensures
        forall|j: int|
            0 <= j < ipv4_text(v).len() ==> is_digit(#[trigger] ipv4_text(v)[j]) || ipv4_text(
                v,
            )[j] == '.',
{
    let ta = dec_text((v / 0x100_0000) as nat);
    let tb = dec_text(((v / 0x1_0000) % 256) as nat);
    let tc = dec_text(((v / 0x100) % 256) as nat);
    let td = dec_text((v % 256) as nat);
    lemma_dec_text((v / 0x100_0000) as nat);
    lemma_dec_text(((v / 0x1_0000) % 256) as nat);
    lemma_dec_text(((v / 0x100) % 256) as nat);
    lemma_dec_text((v % 256) as nat);
    let s = ipv4_text(v);
    let a = ta.len() as int;
    let b = a + 1 + tb.len();
    let c = b + 1 + tc.len();
    assert(s.len() == c + 1 + td.len());
    assert forall|j: int| 0 <= j < s.len() implies is_digit(#[trigger] s[j]) || s[j] == '.' by {
        if j < a {
            assert(s[j] == ta[j]);
        } else if j == a {
        } else if j < b {
            assert(s[j] == tb[j - a - 1]);
        } else if j == b {
        } else if j < c {
            assert(s[j] == tc[j - b - 1]);
        } else if j == c {
        } else {
            assert(s[j] == td[j - c - 1]);
        }
    }
}

/// The text of a prefix of version 4 reads as that prefix.
pub proof fn lemma_ipv4_cidr_round_trip(c: Ipv4Cidr)
    requires
        c.prefix() <= 32,
    ensures
        parse_ipv4_cidr_spec(ipv4_cidr_text(c)) == Some(c),
{
    let v = c.network().0;
    let head = ipv4_text(v);
    let tail = dec_text(c.prefix());
    let s = ipv4_cidr_text(c);
    let at = head.len() as int;
    lemma_ipv4_text_chars(v);
    lemma_ipv4_round_trip(v);
    lemma_parse_dec_text(c.prefix() as u32);
    assert forall|j: int| 0 <= j < at implies s[j] != '/' by {
        assert(s[j] == head[j]);
    }
    assert(s[at] == '/');
    lemma_index_from_is(s, '/', 0, at);
    assert(s.subrange(0, at) =~= head);
    assert(s.subrange(at + 1, s.len() as int) =~= tail);
    Ipv4Cidr::lemma_of(Ipv4Addr(v), c.prefix() as u8);
    c.lemma_same(Ipv4Cidr::of(Ipv4Addr(v), c.prefix() as u8));
}

/// What a text means as a prefix of version 6.
pub open spec fn parse_ipv6_cidr_spec(s: Seq<char>) -> Option<Ipv6Cidr> {
    let at = index_of(s, '/');
    if at >= s.len() {
        match parse_ipv6_spec(s) {
            Some(a) => Some(Ipv6Cidr::of(a, 128u8)),
            None => None,
        }
    } else {
        match (parse_u8_spec(s.subrange(at + 1, s.len() as int)), parse_ipv6_spec(s.subrange(0, at))) {
            (Some(m), Some(a)) => if m <= 128 {
                Some(Ipv6Cidr::of(a, m))
            } else {
                None
            },
            _ => None,
        }
    }
}

/// What a text means as a prefix: one of version 4 where it reads as one,
/// else one of version 6.
pub open spec fn parse_cidr_spec(s: Seq<char>) -> Option<Cidr> {
    match parse_ipv4_cidr_spec(s) {
        Some(c) => Some(Cidr::Ipv4(c)),
        None => match parse_ipv6_cidr_spec(s) {
            Some(c) => Some(Cidr::Ipv6(c)),
            None => None,
        },
    }
}

impl Ipv4Cidr {
    /// Reads a prefix of version 4 from its text.
    pub fn parse_text(s: &str) -> (r: Option<Ipv4Cidr>)
        ensures
            r == parse_ipv4_cidr_spec(s@),
    {
        let v = chars_of(s);
        let at: usize = find_from(&v, '/', 0);
        if at >= v.len() {
            return match Ipv4Addr::parse_text(s) {
                Some(a) => Some(Ipv4Cidr::from_parts(a, 32)),
                None => None,
            };
        }
        let mask_text = string_of(&v, at + 1, v.len());
        let addr_text = string_of(&v, 0, at);
        let mask = match parse_u8(mask_text.as_str()) {
            Some(m) => m,
            None => {
                return None;
            },
        };
        let addr = match Ipv4Addr::parse_text(addr_text.as_str()) {
            Some(a) => a,
            None => {
                return None;
            },
        };
        match Ipv4Cidr::new(addr, mask) {
            Ok(c) => Some(c),
            Err(_) => None,
        }
    }
}

impl Ipv6Cidr {
    /// Reads a prefix of version 6 from its text.
    pub fn parse_text(s: &str) -> (r: Option<Ipv6Cidr>)
        ensures
            r == parse_ipv6_cidr_spec(s@),
    {
        let v = chars_of(s);
        let at: usize = find_from(&v, '/', 0);
        if at >= v.len() {
            return match Ipv6Addr::parse_text(s) {
                Some(a) => Some(Ipv6Cidr::from_parts(a, 128)),
                None => None,
            };
        }
        let mask_text = string_of(&v, at + 1, v.len());
        let addr_text = string_of(&v, 0, at);
        let mask = match parse_u8(mask_text.as_str()) {
            Some(m) => m,
            None => {
                return None;
            },
        };
        let addr = match Ipv6Addr::parse_text(addr_text.as_str()) {
            Some(a) => a,
            None => {
                return None;
            },
        };
        match Ipv6Cidr::new(addr, mask) {
            Ok(c) => Some(c),
            Err(_) => None,
        }
    }
}

impl Cidr {
    /// Reads a prefix from its text: as one of version 4 where the text
    /// reads as one, else as one of version 6.
    pub fn parse_text(s: &str) -> (r: Option<Cidr>)
        ensures
            r == parse_cidr_spec(s@),
    {
        match Ipv4Cidr::parse_text(s) {
            Some(c) => Some(Cidr::Ipv4(c)),
            None => match Ipv6Cidr::parse_text(s) {
                Some(c) => Some(Cidr::Ipv6(c)),
                None => None,
            },
        }
    }
}

/// What a text means as an address: one of version 4 where it reads as one,
/// else one of version 6.
pub open spec fn parse_ip_spec(s: Seq<char>) -> Option<IpAddr> {
    match parse_ipv4_spec(s) {
        Some(a) => Some(IpAddr::V4(a)),
        None => match parse_ipv6_spec(s) {
            Some(a) => Some(IpAddr::V6(a)),
            None => None,
        },
    }
}

impl IpAddr {
    /// Reads an address from its text.
    pub fn parse_text(s: &str) -> (r: Option<IpAddr>)
        ensures
            r == parse_ip_spec(s@),
    {
        match Ipv4Addr::parse_text(s) {
            Some(a) => Some(IpAddr::V4(a)),
            None => match Ipv6Addr::parse_text(s) {
                Some(a) => Some(IpAddr::V6(a)),
                None => None,
            },
        }
    }
}

/// The range between two addresses of version 6 that a text and another
/// read as, if they do and the first is not behind the last.
pub open spec fn range6_of(first: Seq<char>, last: Seq<char>) -> Option<IpRange> {
    match (parse_ipv6_spec(first), parse_ipv6_spec(last)) {
        (Some(x), Some(y)) => if x.0 <= y.0 {
            Some(AddressRange::between(IpAddr::V6(x), IpAddr::V6(y)))
        } else {
            None
        },
        _ => None,
    }
}

/// What a text means as a range: two addresses of one family with a
/// hyphen between them, the first not behind the last.
pub open spec fn parse_range_spec(s: Seq<char>) -> Option<IpRange> {
    let at = index_of(s, '-');
    if at >= s.len() {
        None
    } else {
        let first = s.subrange(0, at);
        let last = s.subrange(at + 1, s.len() as int);
        match (parse_ipv4_spec(first), parse_ipv4_spec(last)) {
            (Some(a), Some(b)) => if a.0 <= b.0 {
                Some(AddressRange::between(IpAddr::V4(a), IpAddr::V4(b)))
            } else {
                range6_of(first, last)
            },
            _ => range6_of(first, last),
        }
    }
}

impl AddressRange {
    /// Reads a range from its text.
    pub fn parse_text(s: &str) -> (r: Option<AddressRange>)
        ensures
            r == parse_range_spec(s@),
    {
        let v = chars_of(s);
        let at: usize = find_from(&v, '-', 0);
        if at >= v.len() {
            return None;
        }
        let first = string_of(&v, 0, at);
        let last = string_of(&v, at + 1, v.len());
        match (Ipv4Addr::parse_text(first.as_str()), Ipv4Addr::parse_text(last.as_str())) {
            (Some(a), Some(b)) => {
                match AddressRange::new(IpAddr::V4(a), IpAddr::V4(b)) {
                    Ok(range) => {
                        return Some(range);
                    },
                    Err(_) => {},
                }
            },
            _ => {},
        }
        match (Ipv6Addr::parse_text(first.as_str()), Ipv6Addr::parse_text(last.as_str())) {
            (Some(a), Some(b)) => match AddressRange::new(IpAddr::V6(a), IpAddr::V6(b)) {
                Ok(range) => Some(range),
                Err(_) => None,
            },
            _ => None,
        }
    }
}

} // verus!
