//! Hardware addresses of network devices.
//!
//! A hardware address is six octets. As text it is six hexadecimal
//! numerals with colons between them, written with two upper-case digits
//! each. Each numeral is read as the standard library reads an unsigned
//! number in base 16: an optional plus sign, then at least one digit of
//! either case.

use vstd::prelude::*;
use crate::ip_address::parse::{hex_number, hex_value, value_of_hex};
use crate::ip_address::{segments_value, Ipv6Addr};
use crate::text::{
    all_hex, chars_of, find_from, hex_only, index_from, is_hex_digit, lemma_index_from_is,
};

verus! {

/// A hardware address.
#[derive(Clone, Copy, Debug, PartialEq, Eq, PartialOrd, Ord, Hash)]
pub struct MacAddress(pub [u8; 6]);

/// What a text means as an octet in base 16: an optional plus sign, then
/// at least one hexadecimal digit, the number at most 255.
pub open spec fn hex_octet(s: Seq<char>) -> Option<u8> {
    let d = if s.len() > 0 && s[0] == '+' {
        s.subrange(1, s.len() as int)
    } else {
        s
    };
    if d.len() > 0 && all_hex(d) && hex_number(d) <= 255 {
        Some(hex_number(d) as u8)
    } else {
        None
    }
}

/// The octets that a text holds from place `from` on: `count` of them,
/// with a colon between each two and nothing behind the last.
pub open spec fn octets_from(s: Seq<char>, from: int, count: nat) -> Option<Seq<u8>>
    decreases count,
{
    if count == 0 || from < 0 || from > s.len() {
        None
    } else {
        let end = index_from(s, ':', from);
        match hex_octet(s.subrange(from, end)) {
            None => None,
            Some(b) => if count == 1 {
                if end >= s.len() {
                    Some(seq![b])
                } else {
                    None
                }
            } else if end >= s.len() {
                None
            } else {
                match octets_from(s, end + 1, (count - 1) as nat) {
                    Some(rest) => Some(seq![b] + rest),
                    None => None,
                }
            },
        }
    }
}

/// What a text means as a hardware address.
pub open spec fn parse_mac_spec(s: Seq<char>) -> Option<Seq<u8>> {
    octets_from(s, 0, 6)
}

/// The upper-case hexadecimal digit that stands for `d`, for `d` below
/// sixteen.
pub open spec fn upper_hex_char(d: int) -> char {
    if d < 10 {
        (48 + d) as char
    } else {
        (55 + d) as char
    }
}

/// The text of an octet: two upper-case hexadecimal digits.
pub open spec fn octet_text(b: u8) -> Seq<char> {
    seq![upper_hex_char(b as int / 16), upper_hex_char(b as int % 16)]
}

/// The text of a hardware address.
pub open spec fn mac_text(o: Seq<u8>) -> Seq<char> {
    octet_text(o[0]) + seq![':'] + octet_text(o[1]) + seq![':'] + octet_text(o[2]) + seq![':']
        + octet_text(o[3]) + seq![':'] + octet_text(o[4]) + seq![':'] + octet_text(o[5])
}

/// The segments of the link-local address that is made from a hardware
/// address: the prefix `fe80::/64`, then the first three octets with the
/// second-lowest bit of the first one flipped, `ff`, `fe`, and the last
/// three octets.
pub open spec fn eui64_segments(o: Seq<u8>) -> Seq<u16> {
    seq![
        0xfe80u16,
        0u16,
        0u16,
        0u16,
        ((o[0] ^ 2u8) as int * 256 + o[1] as int) as u16,
        (o[2] as int * 256 + 0xff) as u16,
        (0xfe00 + o[3] as int) as u16,
        (o[4] as int * 256 + o[5] as int) as u16,
    ]
}

/// The number that the first digits of a numeral stand for is at most the
/// number that the whole numeral stands for.
pub proof fn lemma_hex_number_monotonic(s: Seq<char>, k: int)
    requires
        all_hex(s),
        0 <= k <= s.len(),
    ensures
        hex_number(s.subrange(0, k)) <= hex_number(s),
    decreases s.len() - k,
{
    if k == s.len() {
        assert(s.subrange(0, k) =~= s);
    } else {
        lemma_hex_number_monotonic(s, k + 1);
        let longer = s.subrange(0, k + 1);
        assert(longer.drop_last() =~= s.subrange(0, k));
        assert(is_hex_digit(s[k]));
        assert(longer.last() == s[k]);
        assert(hex_value(s[k]) >= 0);
        assert(hex_number(longer) == hex_number(s.subrange(0, k)) * 16 + hex_value(s[k]));
    }
}

/// What the text of an octet is made of: two hexadecimal digits that read
/// as the octet.
pub proof fn lemma_octet_text(b: u8)
    ensures
        octet_text(b).len() == 2,
        is_hex_digit(octet_text(b)[0]),
        is_hex_digit(octet_text(b)[1]),
        hex_octet(octet_text(b)) == Some(b),
{
    let t = octet_text(b);
    let hi = upper_hex_char(b as int / 16);
    let lo = upper_hex_char(b as int % 16);
    assert(hex_value(hi) == b as int / 16);
    assert(hex_value(lo) == b as int % 16);
    assert(t.drop_last() =~= seq![hi]);
    assert(seq![hi].drop_last() =~= Seq::<char>::empty());
    assert(hex_number(Seq::<char>::empty()) == 0);
    assert(hex_number(seq![hi]) == b as int / 16);
    assert(hex_number(t) == (b as int / 16) * 16 + b as int % 16);
}

/// The text of a hardware address reads, from its octet at place `k` on,
/// as the octets from that place on.
proof fn lemma_mac_tail(o: Seq<u8>, k: int)
    requires
        o.len() == 6,
        0 <= k < 6,
    ensures
        octets_from(mac_text(o), 3 * k, (6 - k) as nat) == Some(o.subrange(k, 6)),
    decreases 6 - k,
{
    let s = mac_text(o);
    lemma_octet_text(o[0]);
    lemma_octet_text(o[1]);
    lemma_octet_text(o[2]);
    lemma_octet_text(o[3]);
    lemma_octet_text(o[4]);
    lemma_octet_text(o[5]);
    assert(s.len() == 17);
    assert(s[3 * k] == octet_text(o[k])[0] && s[3 * k + 1] == octet_text(o[k])[1]) by {
        if k == 0 {
        } else if k == 1 {
        } else if k == 2 {
        } else if k == 3 {
        } else if k == 4 {
        } else {
        }
    }
    assert(k < 5 ==> s[3 * k + 2] == ':');
    assert(s.subrange(3 * k, 3 * k + 2) =~= octet_text(o[k]));
    lemma_index_from_is(s, ':', 3 * k, 3 * k + 2);
    if k < 5 {
        lemma_mac_tail(o, k + 1);
        assert(seq![o[k]] + o.subrange(k + 1, 6) =~= o.subrange(k, 6));
    } else {
        assert(seq![o[5]] =~= o.subrange(5, 6));
    }
}

/// The text of a hardware address reads as that address.
pub proof fn lemma_mac_round_trip(o: Seq<u8>)
    requires
        o.len() == 6,
    ensures
        parse_mac_spec(mac_text(o)) == Some(o),
{
    lemma_mac_tail(o, 0);
    assert(o.subrange(0, 6) =~= o);
}

/// Reads the octet that stands from place `from` up to place `to`.
fn octet_in(v: &Vec<char>, from: usize, to: usize) -> (r: Option<u8>)
    requires
        from <= to <= v.len(),
    ensures
        r == hex_octet(v@.subrange(from as int, to as int)),
{
    let ghost s = v@.subrange(from as int, to as int);
    let start: usize = if from < to && v[from] == '+' {
        from + 1
    } else {
        from
    };
    let ghost d = v@.subrange(start as int, to as int);
    assert(d =~= if s.len() > 0 && s[0] == '+' {
        s.subrange(1, s.len() as int)
    } else {
        s
    });
    if start >= to {
        return None;
    }
    if !hex_only(v, start, to) {
        return None;
    }
    let mut acc: u32 = 0;
    let mut i: usize = start;
    assert(d.subrange(0, 0) =~= Seq::<char>::empty());
    while i < to
        invariant
            start <= i <= to <= v.len(),
            from <= start,
            s == v@.subrange(from as int, to as int),
            d == v@.subrange(start as int, to as int),
            d == if s.len() > 0 && s[0] == '+' {
                s.subrange(1, s.len() as int)
            } else {
                s
            },
            all_hex(d),
            acc == hex_number(d.subrange(0, i - start)),
            acc <= 255,
        decreases to - i,
    {
        let c: char = v[i];
        proof {
            let longer = d.subrange(0, i - start + 1);
            assert(longer.drop_last() =~= d.subrange(0, i - start));
            assert(longer.last() == c);
            assert(is_hex_digit(d[i - start]));
            assert(hex_number(longer) == acc * 16 + hex_value(c));
            lemma_hex_number_monotonic(d, i - start + 1);
        }
        let next: u32 = acc * 16 + value_of_hex(c) as u32;
        if next > 255 {
            return None;
        }
        acc = next;
        i = i + 1;
    }
    assert(d.subrange(0, to - start) =~= d);
    Some(acc as u8)
}

/// The character of a hexadecimal digit, in upper case.
fn upper_hex_digit_of(d: u8) -> (c: char)
    requires
        d < 16,
    ensures
        c == upper_hex_char(d as int),
{
    if d < 10 {
        (48u8 + d) as char
    } else {
        (55u8 + d) as char
    }
}

/// Appends the text of an octet.
fn push_octet(out: &mut String, b: u8)
    ensures
        final(out)@ == old(out)@ + octet_text(b),
{
    out.push(upper_hex_digit_of(b / 16));
    out.push(upper_hex_digit_of(b % 16));
    assert(final(out)@ =~= old(out)@ + octet_text(b));
}

impl MacAddress {
    /// The hardware address of the given octets.
    pub fn new(address: [u8; 6]) -> (r: MacAddress)
        ensures
            r.0 == address,
    {
        MacAddress(address)
    }

    /// The six octets.
    pub fn octets(&self) -> (r: [u8; 6])
        ensures
            r == self.0,
    {
        self.0
    }

    /// Reads a hardware address from its text.
    pub fn parse_text(s: &str) -> (r: Option<MacAddress>)
        ensures
            match parse_mac_spec(s@) {
                Some(o) => r is Some && r->Some_0.0@ == o,
                None => r is None,
            },
    {
        let v = chars_of(s);
        let n: usize = v.len();
        let mut found: Vec<u8> = Vec::new();
        let mut from: usize = 0;
        while found.len() < 6
            invariant
                v@ == s@,
                n == v.len(),
                from <= n,
                found@.len() <= 5,
                parse_mac_spec(s@) == match octets_from(
                    s@,
                    from as int,
                    (6 - found@.len()) as nat,
                ) {
                    Some(rest) => Some(found@ + rest),
                    None => None,
                },
            decreases 6 - found@.len(),
        {
            let end = find_from(&v, ':', from);
            let b = match octet_in(&v, from, end) {
                Some(b) => b,
                None => {
                    return None;
                },
            };
            if found.len() == 5 {
                if end < n {
                    return None;
                }
                let address = MacAddress([found[0], found[1], found[2], found[3], found[4], b]);
                assert(address.0@ =~= found@ + seq![b]);
                return Some(address);
            }
            if end >= n {
                return None;
            }
            proof {
                let rest = octets_from(s@, end as int + 1, (5 - found@.len()) as nat);
                if rest is Some {
                    assert(found@ + (seq![b] + rest->Some_0) =~= found@.push(b) + rest->Some_0);
                }
            }
            found.push(b);
            from = end + 1;
        }
        None
    }

    /// The text of the hardware address.
    pub fn to_text(&self) -> (r: String)
        ensures
            r@ == mac_text(self.0@),
    {
        let mut out = String::new();
        push_octet(&mut out, self.0[0]);
        out.push(':');
        push_octet(&mut out, self.0[1]);
        out.push(':');
        push_octet(&mut out, self.0[2]);
        out.push(':');
        push_octet(&mut out, self.0[3]);
        out.push(':');
        push_octet(&mut out, self.0[4]);
        out.push(':');
        push_octet(&mut out, self.0[5]);
        assert(out@ =~= mac_text(self.0@));
        out
    }

    /// The link-local address of version 6 that is made from the hardware
    /// address.
    pub fn eui64_link_local_address(&self) -> (r: Ipv6Addr)
        ensures
            r.0 == segments_value(eui64_segments(self.0@)),
    {
        let o = self.0;
        let first: u8 = o[0] ^ 2u8;
        let segments: [u16; 8] = [
            0xfe80u16,
            0u16,
            0u16,
            0u16,
            (first as u16) * 256 + (o[1] as u16),
            (o[2] as u16) * 256 + 0xffu16,
            0xfe00u16 + (o[3] as u16),
            (o[4] as u16) * 256 + (o[5] as u16),
        ];
        assert(segments@ =~= eui64_segments(self.0@));
        Ipv6Addr::from_segments(segments)
    }
}

} // verus!
