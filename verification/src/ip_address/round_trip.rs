//! The text of an address and of a prefix reads as that address and that
//! prefix.

use vstd::prelude::*;
use vstd::arithmetic::div_mod::{lemma_div_denominator, lemma_fundamental_div_mod};
use vstd::arithmetic::power2::{lemma2_to64, lemma_pow2_adds, lemma_pow2_pos, pow2};
use crate::ip_address::blocks::lemma_pow2_128;
use crate::ip_address::cidr::{Cidr, Ipv6Cidr};
use crate::ip_address::parse::{
    dec_run_end, hex_number, hex_run_end, hex_value, lemma_ipv4_cidr_round_trip,
    lemma_ipv4_text_chars, parse_cidr_spec, parse_ipv4_cidr_spec, parse_ipv6_cidr_spec,
    parse_ipv6_segments, parse_ipv6_spec, read_group, read_groups, read_ipv4, read_octet, Groups,
};
use crate::ip_address::text::{
    best_run, cidr_text, ipv4_text, ipv6_cidr_text, ipv6_text, is_ipv4_mapped, join_hex,
    lemma_octet_round_trip, parse_ipv4_spec, run_len, segments_of,
};
use crate::ip_address::{octets_value, segments_value, Ipv6Addr};
use crate::text::{
    dec_text, hex_char, hex_text, index_from, is_digit, is_hex_digit, lemma_dec_text,
    lemma_index_from, lemma_index_from_is, lemma_parse_dec_text,
};

verus! {

/// The eight segments of an address spell the address.
pub proof fn lemma_segments_spell(v: u128, k: int)
    requires
        0 <= k <= 8,
    ensures
        segments_value(segments_of(v).subrange(0, k)) == v as int / pow2(
            (16 * (8 - k)) as nat,
        ) as int,
    decreases k,
{
    let segs = segments_of(v);
    lemma2_to64();
    if k == 0 {
        lemma_pow2_128();
        assert(segs.subrange(0, 0) =~= Seq::<u16>::empty());
        vstd::arithmetic::div_mod::lemma_basic_div(v as int, pow2(128) as int);
    } else {
        lemma_segments_spell(v, k - 1);
        let part = segs.subrange(0, k);
        assert(part.drop_last() =~= segs.subrange(0, k - 1));
        assert(part.last() == segs[k - 1]);
        let e = (16 * (8 - k)) as nat;
        lemma_pow2_pos(e);
        lemma_pow2_adds(e, 16);
        assert((16 * (8 - (k - 1))) as nat == e + 16);
        let y = v as int / pow2(e) as int;
        lemma_div_denominator(v as int, pow2(e) as int, 0x1_0000);
        assert(pow2(e + 16) == pow2(e) * 0x1_0000);
        lemma_fundamental_div_mod(y, 0x1_0000);
        assert(Ipv6Addr(v).segment_at(k - 1) == y % 0x1_0000);
        assert(0 <= y % 0x1_0000 < 0x1_0000);
        assert(segs[k - 1] as int == y % 0x1_0000);
    }
}

/// What a hexadecimal numeral is made of: one to four digits for a number of
/// 16 bits, hexadecimal digits only, and the number is what the numeral
/// stands for.
pub proof fn lemma_hex_text(n: nat)
    ensures
        hex_text(n).len() >= 1,
        forall|j: int| 0 <= j < hex_text(n).len() ==> is_hex_digit(#[trigger] hex_text(n)[j]),
        hex_number(hex_text(n)) == n,
        n < 0x10 ==> hex_text(n).len() == 1,
        n < 0x100 ==> hex_text(n).len() <= 2,
        n < 0x1000 ==> hex_text(n).len() <= 3,
        n < 0x1_0000 ==> hex_text(n).len() <= 4,
    decreases n,
{
    let s = hex_text(n);
    if n < 16 {
        assert(s.drop_last() =~= Seq::<char>::empty());
        assert(is_hex_digit(s[0]));
        assert(hex_value(s[0]) == n);
        assert(hex_number(s.drop_last()) == 0);
    } else {
        lemma_hex_text(n / 16);
        let d = hex_char((n % 16) as int);
        assert(is_hex_digit(d));
        assert(hex_value(d) == n % 16);
        assert(s.drop_last() =~= hex_text(n / 16));
        assert(s.last() == d);
    }
}

/// Hexadecimal digits that end at a character that is none are read up to
/// there.
pub proof fn lemma_hex_run(s: Seq<char>, i: int, e: int)
    requires
        0 <= i <= e <= s.len(),
        forall|j: int| i <= j < e ==> is_hex_digit(#[trigger] s[j]),
        e == s.len() || !is_hex_digit(s[e]),
    ensures
        hex_run_end(s, i) == e,
    decreases e - i,
{
    if i < e {
        lemma_hex_run(s, i + 1, e);
    }
}

/// The decimal digits that start at a place end within the text.
pub proof fn lemma_dec_run(s: Seq<char>, i: int)
    requires
        0 <= i <= s.len(),
    ensures
        i <= dec_run_end(s, i) <= s.len(),
        forall|j: int| i <= j < dec_run_end(s, i) ==> is_digit(#[trigger] s[j]),
        dec_run_end(s, i) == s.len() || !is_digit(s[dec_run_end(s, i)]),
    decreases s.len() - i,
{
    if i < s.len() && is_digit(s[i]) {
        lemma_dec_run(s, i + 1);
    }
}

/// Where the decimal digits at a place have no dot behind them, no address
/// of version 4 stands there.
pub proof fn lemma_no_ipv4(s: Seq<char>, i: int)
    requires
        0 <= i <= s.len(),
        dec_run_end(s, i) == s.len() || s[dec_run_end(s, i)] != '.',
    ensures
        read_ipv4(s, i) is None,
{
    lemma_dec_run(s, i);
}

/// Segments joined with colons are hexadecimal digits and colons, and
/// where there is a segment, the text starts with a digit.
pub proof fn lemma_join_chars(segs: Seq<u16>)
    ensures
        forall|j: int|
            0 <= j < join_hex(segs).len() ==> is_hex_digit(#[trigger] join_hex(segs)[j])
                || join_hex(segs)[j] == ':',
        segs.len() >= 1 ==> join_hex(segs).len() >= 1,
    decreases segs.len(),
{
    if segs.len() == 1 {
        lemma_hex_text(segs[0] as nat);
    } else if segs.len() > 1 {
        lemma_join_chars(segs.drop_last());
        lemma_hex_text(segs.last() as nat);
        let a = join_hex(segs.drop_last());
        let t = join_hex(segs);
        assert forall|j: int| 0 <= j < t.len() implies is_hex_digit(#[trigger] t[j]) || t[j]
            == ':' by {
            if j < a.len() {
                assert(t[j] == a[j]);
            } else if j > a.len() {
                assert(t[j] == hex_text(segs.last() as nat)[j - a.len() - 1]);
            }
        }
    }
}

/// The group that stands at a place where the numeral of a segment stands,
/// with no hexadecimal digit behind it.
pub proof fn lemma_read_numeral(s: Seq<char>, p: int, x: u16)
    requires
        0 <= p,
        p + hex_text(x as nat).len() <= s.len(),
        s.subrange(p, p + hex_text(x as nat).len()) == hex_text(x as nat),
        p + hex_text(x as nat).len() == s.len() || !is_hex_digit(
            s[p + hex_text(x as nat).len()],
        ),
    ensures
        read_group(s, p) == Some((x, p + hex_text(x as nat).len())),
{
    let t = hex_text(x as nat);
    lemma_hex_text(x as nat);
    let e = p + t.len();
    assert forall|j: int| p <= j < e implies is_hex_digit(#[trigger] s[j]) by {
        assert(s[j] == s.subrange(p, e)[j - p]);
    }
    lemma_hex_run(s, p, e);
}

/// Reading groups where segments stand joined with colons, in a text
/// without dots, takes in all of them.
pub proof fn lemma_read_joined(s: Seq<char>, at: int, limit: nat, segs: Seq<u16>)
    requires
        1 <= segs.len() <= limit,
        0 <= at,
        at + join_hex(segs).len() <= s.len(),
        s.subrange(at, at + join_hex(segs).len()) == join_hex(segs),
        at + join_hex(segs).len() == s.len() || s[at + join_hex(segs).len()] == ':',
        forall|j: int| 0 <= j < s.len() ==> #[trigger] s[j] != '.',
    ensures
        read_groups(s, at, limit, Seq::empty()) == read_groups(
            s,
            at + join_hex(segs).len(),
            limit,
            segs,
        ),
    decreases segs.len(),
{
    let text = join_hex(segs);
    let x = segs.last();
    let numeral = hex_text(x as nat);
    lemma_hex_text(x as nat);
    let end = at + text.len();
    if segs.len() == 1 {
        assert(segs[0] == x);
        lemma_dec_run(s, at);
        lemma_no_ipv4(s, at);
        lemma_read_numeral(s, at, x);
        assert(Seq::<u16>::empty().push(x) =~= segs);
    } else {
        let init = segs.drop_last();
        let before = join_hex(init);
        lemma_join_chars(init);
        assert(text == before + seq![':'] + numeral);
        let colon = at + before.len();
        assert(s.subrange(at, colon) =~= before) by {
            assert forall|j: int| 0 <= j < before.len() implies s.subrange(at, colon)[j]
                == before[j] by {
                assert(s[at + j] == s.subrange(at, end)[j]);
                assert(text[j] == before[j]);
            }
        }
        assert(s[colon] == ':') by {
            assert(s[colon] == s.subrange(at, end)[before.len() as int]);
        }
        lemma_read_joined(s, at, limit, init);
        let p = colon + 1;
        assert(s.subrange(p, end) =~= numeral) by {
            assert forall|j: int| 0 <= j < numeral.len() implies s.subrange(p, end)[j]
                == numeral[j] by {
                assert(s[p + j] == s.subrange(at, end)[before.len() + 1 + j]);
            }
        }
        lemma_dec_run(s, p);
        lemma_no_ipv4(s, p);
        lemma_read_numeral(s, p, x);
        assert(init.push(x) =~= segs);
    }
}

/// Reading groups stops where two colons stand.
pub proof fn lemma_read_stops(s: Seq<char>, at: int, limit: nat, read: Seq<u16>)
    requires
        0 <= at,
        at + 1 < s.len(),
        s[at] == ':',
        s[at + 1] == ':',
    ensures
        read_groups(s, at, limit, read) == (Groups { groups: read, end: at, ipv4: false }),
{
    let p = if read.len() == 0 {
        at
    } else {
        at + 1
    };
    lemma_dec_run(s, p);
    lemma_no_ipv4(s, p);
}

/// Reading groups stops at the end of the text.
pub proof fn lemma_read_ends(s: Seq<char>, limit: nat, read: Seq<u16>)
    ensures
        read_groups(s, s.len() as int, limit, read) == (Groups {
            groups: read,
            end: s.len() as int,
            ipv4: false,
        }),
{
    lemma_dec_run(s, s.len() as int);
    lemma_no_ipv4(s, s.len() as int);
}

/// A run of zero segments lies within the segments and holds zeros only.
pub proof fn lemma_run(segs: Seq<u16>, i: int)
    requires
        0 <= i <= segs.len(),
    ensures
        i + run_len(segs, i) <= segs.len(),
        forall|j: int| i <= j < i + run_len(segs, i) ==> #[trigger] segs[j] == 0,
    decreases segs.len() - i,
{
    if i < segs.len() && segs[i] == 0 {
        lemma_run(segs, i + 1);
    }
}

/// The first longest run is a run.
pub proof fn lemma_best_run(segs: Seq<u16>, n: int)
    requires
        0 <= n <= segs.len(),
    ensures
        0 <= best_run(segs, n).0 <= segs.len(),
        best_run(segs, n).0 + best_run(segs, n).1 <= segs.len(),
        forall|j: int|
            best_run(segs, n).0 <= j < best_run(segs, n).0 + best_run(segs, n).1
                ==> #[trigger] segs[j] == 0,
    decreases n,
{
    if n > 0 {
        lemma_best_run(segs, n - 1);
        lemma_run(segs, n - 1);
    }
}

/// The text of segments with the run from place `b` on, `l` segments long,
/// written as two colons, reads as the segments.
proof fn lemma_shortened_reads(segs: Seq<u16>, b: int, l: int)
    requires
        segs.len() == 8,
        0 <= b,
        2 <= l,
        b + l <= 8,
        forall|j: int| b <= j < b + l ==> #[trigger] segs[j] == 0,
    ensures
        parse_ipv6_segments(
            join_hex(segs.subrange(0, b)) + seq![':', ':'] + join_hex(segs.subrange(b + l, 8)),
        ) == Some(segs),
{
    let head = segs.subrange(0, b);
    let tail = segs.subrange(b + l, 8);
    let first = join_hex(head);
    let second = join_hex(tail);
    let s = first + seq![':', ':'] + second;
    let mid = first.len() as int;
    lemma_join_chars(head);
    lemma_join_chars(tail);
    assert forall|j: int| 0 <= j < s.len() implies #[trigger] s[j] != '.' by {
        if j < mid {
            assert(s[j] == first[j]);
        } else if j >= mid + 2 {
            assert(s[j] == second[j - mid - 2]);
        }
    }
    assert(s[mid] == ':' && s[mid + 1] == ':');
    if b > 0 {
        assert(s.subrange(0, mid) =~= first);
        lemma_read_joined(s, 0, 8, head);
    }
    lemma_read_stops(s, mid, 8, head);
    let got = read_groups(s, 0, 8, Seq::empty());
    assert(got == (Groups { groups: head, end: mid, ipv4: false })) by {
        if b == 0 {
            assert(head =~= Seq::<u16>::empty());
            assert(first =~= Seq::<char>::empty());
        }
    }
    let limit = (7 - b) as nat;
    let from = mid + 2;
    if tail.len() > 0 {
        assert(s.subrange(from, from + second.len()) =~= second);
        lemma_read_joined(s, from, limit, tail);
    } else {
        assert(tail =~= Seq::<u16>::empty());
        assert(second =~= Seq::<char>::empty());
    }
    lemma_read_ends(s, limit, tail);
    assert(from + second.len() == s.len());
    let rest = read_groups(s, from, limit, Seq::empty());
    assert(rest == (Groups { groups: tail, end: s.len() as int, ipv4: false }));
    let zeros = Seq::new((8 - head.len() - tail.len()) as nat, |k: int| 0u16);
    assert(head + zeros + tail =~= segs);
}

/// The text of an address of version 6 that maps none of version 4 reads
/// as its segments.
proof fn lemma_plain_reads(v: u128)
    requires
        !is_ipv4_mapped(v),
    ensures
        parse_ipv6_segments(ipv6_text(v)) == Some(segments_of(v)),
{
    let segs = segments_of(v);
    let best = best_run(segs, 8);
    lemma_best_run(segs, 8);
    if best.1 > 1 {
        lemma_shortened_reads(segs, best.0, best.1 as int);
    } else {
        let s = join_hex(segs);
        lemma_join_chars(segs);
        assert(s.subrange(0, s.len() as int) =~= s);
        lemma_read_joined(s, 0, 8, segs);
        lemma_read_ends(s, 8, segs);
    }
}

/// Decimal digits that end at a character that is none are read up to
/// there.
pub proof fn lemma_dec_run_is(s: Seq<char>, i: int, e: int)
    requires
        0 <= i <= e <= s.len(),
        forall|j: int| i <= j < e ==> is_digit(#[trigger] s[j]),
        e == s.len() || !is_digit(s[e]),
    ensures
        dec_run_end(s, i) == e,
    decreases e - i,
{
    if i < e {
        lemma_dec_run_is(s, i + 1, e);
    }
}

/// The octet that stands at a place where its numeral stands, with no
/// digit behind it.
proof fn lemma_read_octet(s: Seq<char>, p: int, o: nat)
    requires
        o <= 255,
        0 <= p,
        p + dec_text(o).len() <= s.len(),
        s.subrange(p, p + dec_text(o).len()) == dec_text(o),
        p + dec_text(o).len() == s.len() || !is_digit(s[p + dec_text(o).len()]),
    ensures
        read_octet(s, p) == Some((o as u8, p + dec_text(o).len())),
{
    let t = dec_text(o);
    lemma_dec_text(o);
    lemma_octet_round_trip(o);
    let e = p + t.len();
    assert forall|j: int| p <= j < e implies is_digit(#[trigger] s[j]) by {
        assert(s[j] == s.subrange(p, e)[j - p]);
        assert(is_digit(t[j - p]));
    }
    lemma_dec_run_is(s, p, e);
}

/// The address of version 4 that stands at a place from which its text
/// runs to the end.
proof fn lemma_read_ipv4_text(s: Seq<char>, p: int, w: u32)
    requires
        0 <= p <= s.len(),
        s.subrange(p, s.len() as int) == ipv4_text(w),
    ensures
        read_ipv4(s, p) == Some((w, s.len() as int)),
{
    let o0 = (w / 0x100_0000) as nat;
    let o1 = ((w / 0x1_0000) % 256) as nat;
    let o2 = ((w / 0x100) % 256) as nat;
    let o3 = (w % 256) as nat;
    let ta = dec_text(o0);
    let tb = dec_text(o1);
    let tc = dec_text(o2);
    let td = dec_text(o3);
    lemma_dec_text(o0);
    lemma_dec_text(o1);
    lemma_dec_text(o2);
    lemma_dec_text(o3);
    let t = ipv4_text(w);
    let a = p + ta.len();
    let b = a + 1 + tb.len();
    let c = b + 1 + tc.len();
    assert(t.len() == ta.len() + tb.len() + tc.len() + td.len() + 3);
    assert(s.len() == c + 1 + td.len());
    assert forall|j: int| p <= j < s.len() implies s[j] == #[trigger] t[j - p] by {
        assert(s[j] == s.subrange(p, s.len() as int)[j - p]);
    }
    assert(s.subrange(p, a) =~= ta) by {
        assert forall|j: int| 0 <= j < ta.len() implies s.subrange(p, a)[j] == ta[j] by {
            assert(s[p + j] == t[p + j - p]);
        }
    }
    assert(s[a] == t[a - p] && t[a - p] == '.');
    lemma_read_octet(s, p, o0);
    assert(s.subrange(a + 1, b) =~= tb) by {
        assert forall|j: int| 0 <= j < tb.len() implies s.subrange(a + 1, b)[j] == tb[j] by {
            assert(s[a + 1 + j] == t[a + 1 + j - p]);
        }
    }
    assert(s[b] == t[b - p] && t[b - p] == '.');
    lemma_read_octet(s, a + 1, o1);
    assert(s.subrange(b + 1, c) =~= tc) by {
        assert forall|j: int| 0 <= j < tc.len() implies s.subrange(b + 1, c)[j] == tc[j] by {
            assert(s[b + 1 + j] == t[b + 1 + j - p]);
        }
    }
    assert(s[c] == t[c - p] && t[c - p] == '.');
    lemma_read_octet(s, b + 1, o2);
    assert(s.subrange(c + 1, s.len() as int) =~= td) by {
        assert forall|j: int| 0 <= j < td.len() implies s.subrange(c + 1, s.len() as int)[j]
            == td[j] by {
            assert(s[c + 1 + j] == t[c + 1 + j - p]);
        }
    }
    lemma_read_octet(s, c + 1, o3);
    assert(octets_value(o0 as int, o1 as int, o2 as int, o3 as int) == w);
}

/// The segments of an address that maps one of version 4: five of zero,
/// one of ones, and the two halves of that address.
pub open spec fn mapped_segments(w: u32) -> Seq<u16> {
    seq![
        0u16,
        0u16,
        0u16,
        0u16,
        0u16,
        0xffffu16,
        (w / 0x1_0000) as u16,
        (w % 0x1_0000) as u16,
    ]
}

/// What the segments of an address that maps one of version 4 are.
proof fn lemma_mapped_segments(v: u128)
    requires
        is_ipv4_mapped(v),
    ensures
        segments_of(v) == mapped_segments((v % 0x1_0000_0000) as u32),
{
    let w = (v % 0x1_0000_0000) as u32;
    let segs = segments_of(v);
    lemma2_to64();
    lemma_pow2_adds(32, 16);
    lemma_pow2_adds(64, 16);
    lemma_pow2_adds(64, 32);
    lemma_pow2_adds(64, 48);
    assert(pow2(48) == 0x1_0000_0000_0000) by (nonlinear_arith)
        requires
            pow2(48) == pow2(32) * pow2(16),
            pow2(32) == 0x1_0000_0000,
            pow2(16) == 0x1_0000,
    ;
    assert(v < 0x1_0000_0000_0000);
    assert(pow2(80) >= 0x1_0000_0000_0000 && pow2(96) >= 0x1_0000_0000_0000 && pow2(112)
        >= 0x1_0000_0000_0000) by (nonlinear_arith)
        requires
            pow2(80) == pow2(64) * pow2(16),
            pow2(96) == pow2(64) * pow2(32),
            pow2(112) == pow2(64) * pow2(48),
            pow2(64) == 0x1_0000_0000_0000_0000,
            pow2(16) == 0x1_0000,
            pow2(32) == 0x1_0000_0000,
            pow2(48) == 0x1_0000_0000_0000,
    ;
    assert(Ipv6Addr(v).segment_at(0) == 0) by {
        vstd::arithmetic::div_mod::lemma_basic_div(v as int, pow2(112) as int);
    }
    assert(Ipv6Addr(v).segment_at(1) == 0) by {
        vstd::arithmetic::div_mod::lemma_basic_div(v as int, pow2(96) as int);
    }
    assert(Ipv6Addr(v).segment_at(2) == 0) by {
        vstd::arithmetic::div_mod::lemma_basic_div(v as int, pow2(80) as int);
    }
    assert(Ipv6Addr(v).segment_at(3) == 0) by {
        vstd::arithmetic::div_mod::lemma_basic_div(v as int, pow2(64) as int);
    }
    assert(Ipv6Addr(v).segment_at(4) == 0) by {
        vstd::arithmetic::div_mod::lemma_basic_div(v as int, pow2(48) as int);
    }
    assert(Ipv6Addr(v).segment_at(5) == 0xffff);
    let x = v as int;
    assert(x == 0xffff * 0x1_0000_0000 + w as int) by {
        lemma_fundamental_div_mod(x, 0x1_0000_0000);
    }
    assert(Ipv6Addr(v).segment_at(6) == w as int / 0x1_0000) by {
        assert((16 * (7 - 6)) as nat == 16);
        assert(pow2(16) == 0x1_0000);
        assert(x / 0x1_0000 == 0xffff * 0x1_0000 + w as int / 0x1_0000);
    }
    assert(Ipv6Addr(v).segment_at(7) == w as int % 0x1_0000) by {
        assert((16 * (7 - 7)) as nat == 0);
        assert(pow2(0) == 1);
        assert(x % 0x1_0000 == w as int % 0x1_0000);
    }
    assert(segs =~= mapped_segments(w));
}

/// What is read before and behind the two colons of the text of an
/// address that maps one of version 4.
proof fn lemma_mapped_groups(s: Seq<char>, w: u32)
    requires
        s == seq![':', ':', 'f', 'f', 'f', 'f', ':'] + ipv4_text(w),
    ensures
        s.len() > 7,
        s[0] == ':',
        s[1] == ':',
        read_groups(s, 0, 8, Seq::empty()) == (Groups {
            groups: Seq::empty(),
            end: 0,
            ipv4: false,
        }),
        read_groups(s, 2, 7, Seq::empty()) == (Groups {
            groups: Seq::<u16>::empty().push(0xffffu16).push((w / 0x1_0000) as u16).push(
                (w % 0x1_0000) as u16,
            ),
            end: s.len() as int,
            ipv4: true,
        }),
{
    assert(s.subrange(7, s.len() as int) =~= ipv4_text(w));
    lemma_read_ipv4_text(s, 7, w);
    lemma_read_stops(s, 0, 8, Seq::empty());
    lemma_mapped_tail(s, w);
}

/// The text of an address that maps one of version 4 reads as five
/// segments of zero, one of ones, and the two halves of that address.
proof fn lemma_mapped_parse(s: Seq<char>, w: u32)
    requires
        s == seq![':', ':', 'f', 'f', 'f', 'f', ':'] + ipv4_text(w),
    ensures
        parse_ipv6_segments(s) == Some(mapped_segments(w)),
{
    lemma_mapped_groups(s, w);
    let tail = Seq::<u16>::empty().push(0xffffu16).push((w / 0x1_0000) as u16).push(
        (w % 0x1_0000) as u16,
    );
    let zeros = Seq::new(5, |k: int| 0u16);
    assert(Seq::<u16>::empty() + zeros + tail =~= mapped_segments(w));
}

/// The text of an address that maps one of version 4 reads as its
/// segments.
proof fn lemma_mapped_reads(v: u128)
    requires
        is_ipv4_mapped(v),
    ensures
        parse_ipv6_segments(ipv6_text(v)) == Some(segments_of(v)),
{
    let w = (v % 0x1_0000_0000) as u32;
    lemma_mapped_parse(ipv6_text(v), w);
    lemma_mapped_segments(v);
}

/// Behind the two colons of the text of an address that maps one of version
/// 4, the group of ones and that address are read.
proof fn lemma_mapped_tail(s: Seq<char>, w: u32)
    requires
        s == seq![':', ':', 'f', 'f', 'f', 'f', ':'] + ipv4_text(w),
        read_ipv4(s, 7) == Some((w, s.len() as int)),
    ensures
        read_groups(s, 2, 7, Seq::empty()) == (Groups {
            groups: Seq::<u16>::empty().push(0xffffu16).push((w / 0x1_0000) as u16).push(
                (w % 0x1_0000) as u16,
            ),
            end: s.len() as int,
            ipv4: true,
        }),
{
    let numeral = hex_text(0xffff);
    assert(numeral =~= seq!['f', 'f', 'f', 'f']) by {
        reveal_with_fuel(hex_text, 5);
    }
    assert(s.subrange(2, 6) =~= numeral);
    assert(s[6] == ':');
    lemma_read_numeral(s, 2, 0xffffu16);
    lemma_dec_run_is(s, 2, 2);
    lemma_no_ipv4(s, 2);
    let one = Seq::<u16>::empty().push(0xffffu16);
    assert(read_groups(s, 2, 7, Seq::empty()) == read_groups(s, 6, 7, one));
}

/// The text of an address of version 6 reads as that address.
pub proof fn lemma_ipv6_round_trip(v: u128)
    ensures
        parse_ipv6_spec(ipv6_text(v)) == Some(Ipv6Addr(v)),
{
    if is_ipv4_mapped(v) {
        lemma_mapped_reads(v);
    } else {
        lemma_plain_reads(v);
    }
    lemma_segments_spell(v, 8);
    lemma2_to64();
    assert(segments_of(v).subrange(0, 8) =~= segments_of(v));
    assert((16 * (8 - 8)) as nat == 0);
    assert(pow2(0) == 1);
    let segs = segments_of(v);
    assert(segments_value(segs.subrange(0, 8)) == v as int / pow2(0) as int);
    assert(segments_value(segs) == v as int);
}

/// A character that the text of an address of version 6 is written with:
/// a hexadecimal digit, a colon or a dot.
pub open spec fn is_address_char(c: char) -> bool {
    is_hex_digit(c) || c == ':' || c == '.'
}

/// The text of an address of version 6 is written with hexadecimal digits,
/// colons and dots, and holds a colon.
pub proof fn lemma_ipv6_text_chars(v: u128)
    ensures
        forall|j: int|
            0 <= j < ipv6_text(v).len() ==> is_address_char(#[trigger] ipv6_text(v)[j]),
        exists|j: int| 0 <= j < ipv6_text(v).len() && #[trigger] ipv6_text(v)[j] == ':',
{
    let s = ipv6_text(v);
    if is_ipv4_mapped(v) {
        let w = (v % 0x1_0000_0000) as u32;
        lemma_ipv4_text_chars(w);
        assert forall|j: int| 0 <= j < s.len() implies is_address_char(#[trigger] s[j]) by {
            if j >= 7 {
                assert(s[j] == ipv4_text(w)[j - 7]);
            }
        }
        assert(s[0] == ':');
    } else {
        let segs = segments_of(v);
        let best = best_run(segs, 8);
        lemma_best_run(segs, 8);
        if best.1 > 1 {
            let first = join_hex(segs.subrange(0, best.0));
            let second = join_hex(segs.subrange(best.0 + best.1, 8));
            lemma_join_chars(segs.subrange(0, best.0));
            lemma_join_chars(segs.subrange(best.0 + best.1, 8));
            let mid = first.len() as int;
            assert forall|j: int| 0 <= j < s.len() implies is_address_char(#[trigger] s[j]) by {
                if j < mid {
                    assert(s[j] == first[j]);
                } else if j >= mid + 2 {
                    assert(s[j] == second[j - mid - 2]);
                }
            }
            assert(s[mid] == ':');
        } else {
            lemma_join_chars(segs);
            lemma_join_chars(segs.drop_last());
            let at = join_hex(segs.drop_last()).len() as int;
            lemma_hex_text(segs.last() as nat);
            assert(s[at] == ':');
        }
    }
}

/// A text that holds a colon is no address of version 4.
pub proof fn lemma_colon_is_no_ipv4(s: Seq<char>, at: int)
    requires
        0 <= at < s.len(),
        s[at] == ':',
    ensures
        parse_ipv4_spec(s) is None,
{
    let a = index_from(s, '.', 0);
    lemma_index_from(s, '.', 0);
    if a < s.len() {
        let b = index_from(s, '.', a + 1);
        lemma_index_from(s, '.', a + 1);
        if b < s.len() {
            let c = index_from(s, '.', b + 1);
            lemma_index_from(s, '.', b + 1);
            if c < s.len() {
                if at < a {
                    assert(!is_digit(s.subrange(0, a)[at]));
                } else if at < b {
                    assert(!is_digit(s.subrange(a + 1, b)[at - a - 1]));
                } else if at < c {
                    assert(!is_digit(s.subrange(b + 1, c)[at - b - 1]));
                } else {
                    assert(!is_digit(s.subrange(c + 1, s.len() as int)[at - c - 1]));
                }
            }
        }
    }
}

/// The text of a prefix of version 6 reads as that prefix.
pub proof fn lemma_ipv6_cidr_round_trip(c: Ipv6Cidr)
    requires
        c.prefix() <= 128,
    ensures
        parse_ipv6_cidr_spec(ipv6_cidr_text(c)) == Some(c),
        parse_ipv4_cidr_spec(ipv6_cidr_text(c)) is None,
{
    let v = c.network().0;
    let head = ipv6_text(v);
    let tail = dec_text(c.prefix());
    let s = ipv6_cidr_text(c);
    let at = head.len() as int;
    lemma_ipv6_text_chars(v);
    lemma_ipv6_round_trip(v);
    lemma_parse_dec_text(c.prefix() as u32);
    assert forall|j: int| 0 <= j < at implies s[j] != '/' by {
        assert(s[j] == head[j]);
        assert(is_address_char(head[j]));
    }
    assert(s[at] == '/');
    lemma_index_from_is(s, '/', 0, at);
    assert(s.subrange(0, at) =~= head);
    assert(s.subrange(at + 1, s.len() as int) =~= tail);
    Ipv6Cidr::lemma_of(Ipv6Addr(v), c.prefix() as u8);
    c.lemma_same(Ipv6Cidr::of(Ipv6Addr(v), c.prefix() as u8));
    let colon = choose|j: int| 0 <= j < head.len() && #[trigger] head[j] == ':';
    lemma_colon_is_no_ipv4(head, colon);
}

/// The text of a prefix reads as that prefix.
pub proof fn lemma_cidr_round_trip(c: Cidr)
    requires
        c.prefix() <= c.family_of().bits(),
    ensures
        parse_cidr_spec(cidr_text(c)) == Some(c),
{
    match c {
        Cidr::Ipv4(x) => {
            lemma_ipv4_cidr_round_trip(x);
        },
        Cidr::Ipv6(x) => {
            lemma_ipv6_cidr_round_trip(x);
        },
    }
}

} // verus!
