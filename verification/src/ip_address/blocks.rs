//! Address blocks as intervals of natural numbers: what a prefix contains,
//! when two blocks overlap, and how a range falls apart into blocks, as few
//! as can be.
//!
//! An address of `width` bits is a number below `pow2(width)`. A block is a
//! pair of a network address and a prefix length; it holds the addresses that
//! agree with the network address in their first `prefix` bits.

use vstd::prelude::*;
use vstd::arithmetic::power2::*;
use vstd::arithmetic::div_mod::*;
use vstd::arithmetic::mul::*;

verus! {

/// The number of addresses in a block with the given prefix length.
pub open spec fn block_size(width: nat, prefix: nat) -> nat {
    pow2((width - prefix) as nat)
}

/// `x` agrees with `network` in its first `prefix` bits.
pub open spec fn block_contains(network: nat, prefix: nat, width: nat, x: nat) -> bool {
    x / block_size(width, prefix) == network / block_size(width, prefix)
}

/// The first address of the block that `network` lies in.
pub open spec fn block_first(network: nat, prefix: nat, width: nat) -> nat {
    (network / block_size(width, prefix)) * block_size(width, prefix)
}

/// The last address of the block that `network` lies in.
pub open spec fn block_last(network: nat, prefix: nat, width: nat) -> nat {
    (block_first(network, prefix, width) + block_size(width, prefix) - 1) as nat
}

/// Two blocks overlap when, under the shorter of the two prefixes, either
/// contains the network address of the other.
pub open spec fn blocks_overlap(n1: nat, p1: nat, n2: nat, p2: nat, width: nat) -> bool {
    let p = if p1 <= p2 { p1 } else { p2 };
    block_contains(n1, p, width, n2)
}

/// A block holds exactly the addresses from its first to its last.
pub proof fn lemma_block_is_interval(network: nat, prefix: nat, width: nat, x: nat)
    ensures
        block_contains(network, prefix, width, x) <==> block_first(network, prefix, width) <= x
            <= block_last(network, prefix, width),
{
    let s = block_size(width, prefix);
    lemma_pow2_pos((width - prefix) as nat);
    let q = network / s;
    lemma_fundamental_div_mod(x as int, s as int);
    lemma_mod_bound(x as int, s as int);
    assert(x == s * (x / s) + x % s);
    if x / s == q {
        assert(s * q == q * s) by (nonlinear_arith);
    } else if x / s < q {
        assert(s * (x / s) + s <= q * s) by (nonlinear_arith)
            requires
                x / s < q,
                s > 0,
        ;
    } else {
        assert(s * (x / s) >= q * s + s) by (nonlinear_arith)
            requires
                x / s > q,
                s > 0,
        ;
    }
}

/// A block contains the address it was made from.
pub proof fn lemma_block_contains_network(network: nat, prefix: nat, width: nat)
    ensures
        block_contains(network, prefix, width, network),
{
}

/// With a full-length prefix a block holds its own address and no other.
pub proof fn lemma_block_single(network: nat, width: nat, x: nat)
    ensures
        block_contains(network, width, width, x) <==> x == network,
{
    lemma2_to64();
    assert(block_size(width, width) == 1);
}

/// With prefix length zero a block holds every address of the width.
pub proof fn lemma_block_all(network: nat, width: nat, x: nat)
    requires
        network < pow2(width),
        x < pow2(width),
    ensures
        block_contains(network, 0, width, x),
{
    let s = pow2(width);
    lemma_basic_div(network as int, s as int);
    lemma_basic_div(x as int, s as int);
}

/// Overlap does not depend on the order of the two blocks.
pub proof fn lemma_overlap_symmetric(n1: nat, p1: nat, n2: nat, p2: nat, width: nat)
    ensures
        blocks_overlap(n1, p1, n2, p2, width) == blocks_overlap(n2, p2, n1, p1, width),
{
}

/// Every block overlaps itself.
pub proof fn lemma_overlap_reflexive(network: nat, prefix: nat, width: nat)
    ensures
        blocks_overlap(network, prefix, network, prefix, width),
{
}

/// Two blocks overlap exactly when some address lies in both.
pub proof fn lemma_overlap_shares_address(n1: nat, p1: nat, n2: nat, p2: nat, width: nat)
    requires
        p1 <= width,
        p2 <= width,
    ensures
        blocks_overlap(n1, p1, n2, p2, width) <==> exists|x: nat|
            block_contains(n1, p1, width, x) && #[trigger] block_contains(n2, p2, width, x),
{
    if p1 <= p2 {
        lemma_overlap_shares_address_ordered(n1, p1, n2, p2, width);
    } else {
        lemma_overlap_shares_address_ordered(n2, p2, n1, p1, width);
        if exists|x: nat|
            block_contains(n1, p1, width, x) && #[trigger] block_contains(n2, p2, width, x) {
            let x = choose|x: nat|
                block_contains(n1, p1, width, x) && #[trigger] block_contains(n2, p2, width, x);
            assert(block_contains(n2, p2, width, x) && block_contains(n1, p1, width, x));
        }
        if exists|x: nat|
            block_contains(n2, p2, width, x) && #[trigger] block_contains(n1, p1, width, x) {
            let x = choose|x: nat|
                block_contains(n2, p2, width, x) && #[trigger] block_contains(n1, p1, width, x);
            assert(block_contains(n1, p1, width, x) && block_contains(n2, p2, width, x));
        }
    }
}

/// A block with a longer prefix lies inside the block that its address has
/// under a shorter prefix.
pub proof fn lemma_block_nested(network: nat, short: nat, long: nat, width: nat, x: nat)
    requires
        short <= long <= width,
        block_contains(network, long, width, x),
    ensures
        block_contains(network, short, width, x),
{
    let big = block_size(width, short);
    let small = block_size(width, long);
    let k = (long - short) as nat;
    lemma_pow2_pos((width - long) as nat);
    lemma_pow2_pos(k);
    lemma_pow2_adds((width - long) as nat, k);
    assert(big == small * pow2(k));
    lemma_div_denominator(x as int, small as int, pow2(k) as int);
    lemma_div_denominator(network as int, small as int, pow2(k) as int);
}

proof fn lemma_overlap_shares_address_ordered(n1: nat, p1: nat, n2: nat, p2: nat, width: nat)
    requires
        p1 <= p2 <= width,
    ensures
        blocks_overlap(n1, p1, n2, p2, width) <==> exists|x: nat|
            block_contains(n1, p1, width, x) && #[trigger] block_contains(n2, p2, width, x),
{
    if blocks_overlap(n1, p1, n2, p2, width) {
        assert(block_contains(n1, p1, width, n2) && block_contains(n2, p2, width, n2));
    }
    if exists|x: nat|
        block_contains(n1, p1, width, x) && #[trigger] block_contains(n2, p2, width, x) {
        let x = choose|x: nat|
            block_contains(n1, p1, width, x) && #[trigger] block_contains(n2, p2, width, x);
        lemma_block_nested(n2, p1, p2, width, x);
    }
}

/// Two to the power 128, one more than the largest value of 128 bits.
pub proof fn lemma_pow2_128()
    ensures
        pow2(128) == 0x1_0000_0000_0000_0000_0000_0000_0000_0000,
        pow2(64) == 0x1_0000_0000_0000_0000,
        pow2(32) == 0x1_0000_0000,
{
    lemma2_to64();
    lemma_pow2_adds(64, 64);
    assert(0x1_0000_0000_0000_0000int * 0x1_0000_0000_0000_0000int
        == 0x1_0000_0000_0000_0000_0000_0000_0000_0000int) by (nonlinear_arith);
}

/// Two to the power `k`.
pub fn pow2_u128(k: u8) -> (r: u128)
    requires
        k <= 127,
    ensures
        r == pow2(k as nat),
        r >= 1,
{
    let mut r: u128 = 1;
    let mut i: u8 = 0;
    proof {
        lemma2_to64();
    }
    while i < k
        invariant
            i <= k <= 127,
            r == pow2(i as nat),
        decreases k - i,
    {
        proof {
            lemma_pow2_unfold((i + 1) as nat);
            lemma_pow2_128();
            if i + 1 < 128 {
                lemma_pow2_strictly_increases((i + 1) as nat, 128);
            }
        }
        r = r * 2;
        i = i + 1;
    }
    proof {
        lemma_pow2_pos(k as nat);
    }
    r
}


/// A block of `h` host bits at `current` may double: the doubled block
/// still starts at `current` and still ends at or before `last`.
pub open spec fn can_grow(current: nat, last: nat, h: nat, width: nat) -> bool {
    &&& h < width
    &&& (current / pow2(h)) % 2 == 0
    &&& pow2(h + 1) - 1 <= last - current
}

/// The host bits of the block that a block of `h` host bits grows to.
pub open spec fn host_bits_from(current: nat, last: nat, h: nat, width: nat) -> nat
    decreases width - h,
{
    if can_grow(current, last, h, width) {
        host_bits_from(current, last, h + 1, width)
    } else {
        h
    }
}

/// The host bits of the largest block that starts at `current` and ends at
/// or before `last`.
pub open spec fn host_bits(current: nat, last: nat, width: nat) -> nat {
    host_bits_from(current, last, 0, width)
}

/// The blocks, as pairs of network address and prefix length, that the range
/// from `current` to `last` falls apart into: the largest block that starts
/// at `current`, then the blocks of what is left behind it.
pub open spec fn range_blocks(current: nat, last: nat, width: nat) -> Seq<(nat, nat)>
    decreases last - current,
{
    if current > last {
        Seq::empty()
    } else {
        let h = host_bits(current, last, width);
        let end = current + pow2(h) - 1;
        let head = seq![(current, (width - h) as nat)];
        if end >= last {
            head
        } else {
            proof {
                lemma_pow2_pos(h);
            }
            head + range_blocks((end + 1) as nat, last, width)
        }
    }
}

/// The first address of a block given as a pair.
pub open spec fn pair_first(b: (nat, nat)) -> nat {
    b.0
}

/// The last address of a block given as a pair, where its network address
/// is its first.
pub open spec fn pair_last(b: (nat, nat), width: nat) -> nat {
    (b.0 + block_size(width, b.1) - 1) as nat
}

proof fn lemma_even_quotient(c: nat, s: nat)
    requires
        s > 0,
        c % s == 0,
        (c / s) % 2 == 0,
    ensures
        c % (2 * s) == 0,
{
    let q = c / s;
    lemma_fundamental_div_mod(c as int, s as int);
    lemma_fundamental_div_mod(q as int, 2);
    let r = q / 2;
    assert(c == s * q);
    assert(q == 2 * r);
    assert(c == r * (2 * s)) by (nonlinear_arith)
        requires
            c == s * q,
            q == 2 * r,
    ;
    lemma_mod_multiples_basic(r as int, (2 * s) as int);
}

proof fn lemma_odd_quotient(c: nat, s: nat)
    requires
        s > 0,
        c % s == 0,
        (c / s) % 2 != 0,
    ensures
        c % (2 * s) != 0,
{
    let q = c / s;
    lemma_fundamental_div_mod(c as int, s as int);
    lemma_fundamental_div_mod(c as int, (2 * s) as int);
    if c % (2 * s) == 0 {
        let t = c / (2 * s);
        assert(c == (2 * s) * t);
        assert(c == s * (2 * t)) by (nonlinear_arith)
            requires
                c == (2 * s) * t,
        ;
        assert(s * q == s * (2 * t));
        assert(q == 2 * t) by (nonlinear_arith)
            requires
                s * q == s * (2 * t),
                s > 0,
        ;
        assert(false);
    }
}

/// The block that growing ends with starts at `current`, ends at or before
/// `last`, and is the largest such block.
pub proof fn lemma_host_bits_from(current: nat, last: nat, h: nat, width: nat)
    requires
        h <= width,
        current <= last,
        current % pow2(h) == 0,
        pow2(h) - 1 <= last - current,
    ensures
        h <= host_bits_from(current, last, h, width) <= width,
        current % pow2(host_bits_from(current, last, h, width)) == 0,
        pow2(host_bits_from(current, last, h, width)) - 1 <= last - current,
        forall|g: nat|
            host_bits_from(current, last, h, width) < g <= width ==> !(current % #[trigger] pow2(g)
                == 0 && pow2(g) - 1 <= last - current),
    decreases width - h,
{
    lemma_pow2_pos(h);
    lemma_pow2_unfold(h + 1);
    if can_grow(current, last, h, width) {
        lemma_even_quotient(current, pow2(h));
        lemma_host_bits_from(current, last, h + 1, width);
    } else if h < width {
        if (current / pow2(h)) % 2 != 0 {
            lemma_odd_quotient(current, pow2(h));
        }
        assert forall|g: nat| h < g <= width implies !(current % #[trigger] pow2(g) == 0 && pow2(g)
            - 1 <= last - current) by {
            if current % pow2(g) == 0 && pow2(g) - 1 <= last - current {
                lemma_aligned_below(current, h + 1, g);
                if h + 1 < g {
                    lemma_pow2_strictly_increases(h + 1, g);
                }
            }
        }
    }
}

proof fn lemma_aligned_below(c: nat, low: nat, high: nat)
    requires
        low <= high,
        c % pow2(high) == 0,
    ensures
        c % pow2(low) == 0,
{
    let k = (high - low) as nat;
    lemma_pow2_pos(low);
    lemma_pow2_pos(k);
    lemma_pow2_pos(high);
    lemma_pow2_adds(low, k);
    lemma_fundamental_div_mod(c as int, pow2(high) as int);
    let q = c / pow2(high);
    assert(c == (q * pow2(k)) * pow2(low)) by (nonlinear_arith)
        requires
            c == pow2(high) * q,
            pow2(high) == pow2(low) * pow2(k),
    ;
    lemma_mod_multiples_basic((q * pow2(k)) as int, pow2(low) as int);
}

/// The largest block at `current` within the range, characterised.
pub proof fn lemma_host_bits(current: nat, last: nat, width: nat)
    requires
        current <= last,
    ensures
        host_bits(current, last, width) <= width,
        current % pow2(host_bits(current, last, width)) == 0,
        pow2(host_bits(current, last, width)) - 1 <= last - current,
        forall|g: nat|
            host_bits(current, last, width) < g <= width ==> !(current % #[trigger] pow2(g) == 0
                && pow2(g) - 1 <= last - current),
{
    lemma2_to64();
    lemma_host_bits_from(current, last, 0, width);
}

/// The blocks of a range cover it exactly: each is a proper block within the
/// range, the first starts where the range starts, each next one starts
/// right behind the one before, and the last ends where the range ends.
pub proof fn lemma_range_blocks_chain(current: nat, last: nat, width: nat)
    requires
        current <= last,
    ensures
        range_blocks(current, last, width).len() >= 1,
        pair_first(range_blocks(current, last, width)[0]) == current,
        pair_last(range_blocks(current, last, width).last(), width) == last,
        forall|i: int|
            0 <= i < range_blocks(current, last, width).len() ==> {
                let b = #[trigger] range_blocks(current, last, width)[i];
                &&& b.1 <= width
                &&& b.0 % block_size(width, b.1) == 0
                &&& current <= pair_first(b)
                &&& pair_last(b, width) <= last
            },
        forall|i: int|
            0 <= i < range_blocks(current, last, width).len() - 1 ==> pair_first(
                #[trigger] range_blocks(current, last, width)[i + 1],
            ) == pair_last(range_blocks(current, last, width)[i], width) + 1,
    decreases last - current,
{
    let bs = range_blocks(current, last, width);
    let h = host_bits(current, last, width);
    lemma_host_bits(current, last, width);
    lemma_pow2_pos(h);
    let end = (current + pow2(h) - 1) as nat;
    let head = seq![(current, (width - h) as nat)];
    assert(block_size(width, (width - h) as nat) == pow2(h));
    if end >= last {
        assert(bs == head);
    } else {
        let rest = range_blocks(end + 1, last, width);
        lemma_range_blocks_chain(end + 1, last, width);
        assert(bs == head + rest);
        assert(bs[0] == head[0]);
        assert(bs.last() == rest.last());
        assert forall|i: int| 0 <= i < bs.len() implies {
            let b = #[trigger] bs[i];
            &&& b.1 <= width
            &&& b.0 % block_size(width, b.1) == 0
            &&& current <= pair_first(b)
            &&& pair_last(b, width) <= last
        } by {
            if i > 0 {
                assert(bs[i] == rest[i - 1]);
            }
        }
        assert forall|i: int| 0 <= i < bs.len() - 1 implies pair_first(#[trigger] bs[i + 1])
            == pair_last(bs[i], width) + 1 by {
            assert(bs[i + 1] == rest[i]);
            if i > 0 {
                assert(bs[i] == rest[i - 1]);
                assert(pair_first(rest[(i - 1) + 1]) == pair_last(rest[i - 1], width) + 1);
            } else {
                assert(bs[0] == (current, (width - h) as nat));
                assert(pair_first(rest[0]) == end + 1);
            }
        }
    }
}

/// Blocks that follow one another lie in ascending order, apart from each
/// other.
pub proof fn lemma_chain_ascends(bs: Seq<(nat, nat)>, width: nat, i: int, j: int)
    requires
        0 <= i < j < bs.len(),
        forall|k: int|
            0 <= k < bs.len() - 1 ==> pair_first(#[trigger] bs[k + 1]) == pair_last(bs[k], width)
                + 1,
    ensures
        pair_last(bs[i], width) < pair_first(bs[j]),
    decreases j - i,
{
    lemma_pow2_pos((width - bs[j - 1].1) as nat);
    assert(pair_first(bs[(j - 1) + 1]) == pair_last(bs[j - 1], width) + 1);
    if i < j - 1 {
        lemma_chain_ascends(bs, width, i, j - 1);
    }
}

/// An address that lies between the start of a chain of blocks and its end
/// lies in one of them.
pub proof fn lemma_chain_covers(bs: Seq<(nat, nat)>, width: nat, x: nat, n: int) -> (i: int)
    requires
        1 <= n <= bs.len(),
        forall|k: int|
            0 <= k < bs.len() - 1 ==> pair_first(#[trigger] bs[k + 1]) == pair_last(bs[k], width)
                + 1,
        pair_first(bs[0]) <= x <= pair_last(bs[n - 1], width),
    ensures
        0 <= i < n,
        pair_first(bs[i]) <= x <= pair_last(bs[i], width),
    decreases n,
{
    if pair_first(bs[n - 1]) <= x {
        n - 1
    } else {
        assert(pair_first(bs[(n - 2) + 1]) == pair_last(bs[n - 2], width) + 1);
        lemma_chain_covers(bs, width, x, n - 1)
    }
}

/// Some block of `bs` holds the address `x`.
pub open spec fn covered(bs: Seq<(nat, nat)>, width: nat, x: nat) -> bool {
    exists|i: int| 0 <= i < bs.len() && block_contains((#[trigger] bs[i]).0, bs[i].1, width, x)
}

/// The blocks of a range hold exactly the addresses of the range, each
/// address in one block only, and the blocks come in ascending order.
pub proof fn lemma_range_blocks_partition(start: nat, last: nat, width: nat)
    requires
        start <= last,
    ensures
        forall|x: nat|
            start <= x <= last <==> #[trigger] covered(range_blocks(start, last, width), width, x),
        forall|x: nat, i: int, j: int|
            0 <= i < range_blocks(start, last, width).len() && 0 <= j < range_blocks(
                start,
                last,
                width,
            ).len() && #[trigger] block_contains(
                range_blocks(start, last, width)[i].0,
                range_blocks(start, last, width)[i].1,
                width,
                x,
            ) && #[trigger] block_contains(
                range_blocks(start, last, width)[j].0,
                range_blocks(start, last, width)[j].1,
                width,
                x,
            ) ==> i == j,
        forall|i: int, j: int|
            0 <= i < j < range_blocks(start, last, width).len() ==> #[trigger] range_blocks(
                start,
                last,
                width,
            )[i].0 < #[trigger] range_blocks(start, last, width)[j].0,
{
    let bs = range_blocks(start, last, width);
    lemma_range_blocks_chain(start, last, width);
    assert forall|i: int, x: nat| 0 <= i < bs.len() implies (#[trigger] block_contains(
        bs[i].0,
        bs[i].1,
        width,
        x,
    ) <==> pair_first(bs[i]) <= x <= pair_last(bs[i], width)) by {
        lemma_aligned_block(bs[i].0, bs[i].1, width);
        lemma_block_is_interval(bs[i].0, bs[i].1, width, x);
    }
    assert forall|x: nat| start <= x <= last implies #[trigger] covered(bs, width, x) by {
        let i = lemma_chain_covers(bs, width, x, bs.len() as int);
        assert(block_contains(bs[i].0, bs[i].1, width, x));
    }
    assert forall|x: nat| #[trigger] covered(bs, width, x) implies start <= x <= last by {
        let i = choose|i: int|
            0 <= i < bs.len() && block_contains((#[trigger] bs[i]).0, bs[i].1, width, x);
        assert(block_contains(bs[i].0, bs[i].1, width, x));
    }
    assert forall|x: nat, i: int, j: int|
        0 <= i < bs.len() && 0 <= j < bs.len() && #[trigger] block_contains(
            bs[i].0,
            bs[i].1,
            width,
            x,
        ) && #[trigger] block_contains(bs[j].0, bs[j].1, width, x) implies i == j by {
        if i < j {
            lemma_chain_ascends(bs, width, i, j);
        } else if j < i {
            lemma_chain_ascends(bs, width, j, i);
        }
    }
    assert forall|i: int, j: int| 0 <= i < j < bs.len() implies #[trigger] bs[i].0
        < #[trigger] bs[j].0 by {
        lemma_chain_ascends(bs, width, i, j);
        lemma_pow2_pos((width - bs[i].1) as nat);
    }
}

/// A block that starts inside another block, behind its start, ends inside
/// it: blocks are nested or apart.
proof fn lemma_block_inside(c: nat, h: nat, x: nat, a: nat)
    requires
        c % pow2(h) == 0,
        x % pow2(a) == 0,
        c < x <= c + pow2(h) - 1,
    ensures
        x + pow2(a) <= c + pow2(h),
{
    lemma_pow2_pos(h);
    lemma_pow2_pos(a);
    if a >= h {
        lemma_aligned_below(x, h, a);
        let s = pow2(h);
        lemma_fundamental_div_mod(x as int, s as int);
        lemma_fundamental_div_mod(c as int, s as int);
        let qx = x / s;
        let qc = c / s;
        assert(x == s * qx);
        assert(c == s * qc);
        assert(qx > qc) by (nonlinear_arith)
            requires
                x == s * qx,
                c == s * qc,
                c < x,
                s > 0,
        ;
        assert(x >= c + s) by (nonlinear_arith)
            requires
                x == s * qx,
                c == s * qc,
                qx >= qc + 1,
                s > 0,
        ;
    } else {
        lemma_aligned_below(c, a, h);
        let t = pow2(a);
        let k = (h - a) as nat;
        lemma_pow2_pos(k);
        lemma_pow2_adds(a, k);
        let top = c + pow2(h);
        lemma_fundamental_div_mod(x as int, t as int);
        lemma_fundamental_div_mod(c as int, t as int);
        let qx = x / t;
        let qc = c / t;
        assert(x == t * qx);
        assert(c == t * qc);
        assert(top == t * (qc + pow2(k))) by (nonlinear_arith)
            requires
                top == c + pow2(h),
                c == t * qc,
                pow2(h) == t * pow2(k),
        ;
        assert(qx < qc + pow2(k)) by (nonlinear_arith)
            requires
                x == t * qx,
                top == t * (qc + pow2(k)),
                x < top,
                t > 0,
        ;
        assert(x + t <= top) by (nonlinear_arith)
            requires
                x == t * qx,
                top == t * (qc + pow2(k)),
                qx + 1 <= qc + pow2(k),
                t > 0,
        ;
    }
}

/// An address in the block of an address of the width is of the width too.
pub proof fn lemma_block_within_width(network: nat, prefix: nat, width: nat, x: nat)
    requires
        prefix <= width,
        network < pow2(width),
        block_contains(network, prefix, width, x),
    ensures
        x < pow2(width),
{
    let h = (width - prefix) as nat;
    let size = pow2(h);
    lemma_pow2_pos(h);
    lemma_pow2_pos(prefix);
    lemma_pow2_adds(h, prefix);
    let q = network / size;
    lemma_fundamental_div_mod(network as int, size as int);
    lemma_fundamental_div_mod(x as int, size as int);
    lemma_mod_bound(x as int, size as int);
    lemma_mod_bound(network as int, size as int);
    assert(q < pow2(prefix)) by (nonlinear_arith)
        requires
            network == size * q + network % size,
            0 <= network % size,
            network < size * pow2(prefix),
            size > 0,
    ;
    assert(x < size * pow2(prefix)) by (nonlinear_arith)
        requires
            x == size * q + x % size,
            x % size < size,
            q + 1 <= pow2(prefix),
            size > 0,
    ;
}

/// Each block that a range falls apart into is the largest that starts at
/// its place and ends within the range.
pub proof fn lemma_range_blocks_largest(current: nat, last: nat, width: nat)
    requires
        current <= last,
    ensures
        forall|i: int|
            0 <= i < range_blocks(current, last, width).len() ==> {
                let b = #[trigger] range_blocks(current, last, width)[i];
                b.0 <= last && b.1 <= width && width - b.1 == host_bits(b.0, last, width)
            },
    decreases last - current,
{
    let bs = range_blocks(current, last, width);
    let h = host_bits(current, last, width);
    lemma_host_bits(current, last, width);
    lemma_pow2_pos(h);
    let end = (current + pow2(h) - 1) as nat;
    if end < last {
        let rest = range_blocks(end + 1, last, width);
        lemma_range_blocks_largest(end + 1, last, width);
        assert(bs == seq![(current, (width - h) as nat)] + rest);
        assert forall|i: int| 0 <= i < bs.len() implies {
            let b = #[trigger] bs[i];
            b.0 <= last && b.1 <= width && width - b.1 == host_bits(b.0, last, width)
        } by {
            if i > 0 {
                assert(bs[i] == rest[i - 1]);
            }
        }
    }
}

/// The blocks `bs` cover exactly the range from `start` to `last`: an
/// address lies in one of them exactly when it lies in the range. The
/// blocks may come in any order, and may lie within each other.
pub open spec fn covers_exactly(bs: Seq<(nat, nat)>, start: nat, last: nat, width: nat) -> bool {
    &&& forall|i: int| 0 <= i < bs.len() ==> (#[trigger] bs[i]).1 <= width
    &&& forall|x: nat| start <= x <= last <==> #[trigger] covered(bs, width, x)
}

/// The number at place `i` of the numbers without `at`.
spec fn past(i: int, at: int) -> int {
    if i < at {
        i
    } else {
        i + 1
    }
}

/// A function that takes the numbers below `n` to numbers below `m`, no
/// two of them to the same, shows that `n` is at most `m`.
proof fn lemma_one_to_one(n: int, m: int, f: spec_fn(int) -> int)
    requires
        0 <= n,
        0 <= m,
        forall|i: int| 0 <= i < n ==> 0 <= #[trigger] f(i) < m,
        forall|i: int, k: int| 0 <= i < k < n ==> #[trigger] f(i) != #[trigger] f(k),
    ensures
        n <= m,
    decreases m,
{
    if n > 0 {
        assert(0 <= f(0) < m);
        if exists|i: int| 0 <= i < n && #[trigger] f(i) == m - 1 {
            let at = choose|i: int| 0 <= i < n && #[trigger] f(i) == m - 1;
            let g = |i: int| f(past(i, at));
            assert forall|i: int| 0 <= i < n - 1 implies 0 <= #[trigger] g(i) < m - 1 by {
                let j = past(i, at);
                assert(0 <= f(j) < m);
                if j < at {
                    assert(f(j) != f(at));
                } else {
                    assert(f(at) != f(j));
                }
            }
            assert forall|i: int, k: int| 0 <= i < k < n - 1 implies #[trigger] g(i) != #[trigger] g(
                k,
            ) by {
                assert(f(past(i, at)) != f(past(k, at)));
            }
            lemma_one_to_one(n - 1, m - 1, g);
        } else {
            assert forall|i: int| 0 <= i < n implies 0 <= #[trigger] f(i) < m - 1 by {
                assert(0 <= f(i) < m);
            }
            lemma_one_to_one(n, m - 1, f);
        }
    }
}

/// A block that lies within the range lies within one of the blocks that
/// the range falls apart into: the one that holds its first address.
proof fn lemma_block_in_one(start: nat, last: nat, width: nat, d: nat, h: nat, i: int)
    requires
        start <= last,
        h <= width,
        d % pow2(h) == 0,
        d + pow2(h) - 1 <= last,
        0 <= i < range_blocks(start, last, width).len(),
        pair_first(range_blocks(start, last, width)[i]) <= d <= pair_last(
            range_blocks(start, last, width)[i],
            width,
        ),
    ensures
        d + pow2(h) - 1 <= pair_last(range_blocks(start, last, width)[i], width),
{
    let g = range_blocks(start, last, width);
    lemma_range_blocks_largest(start, last, width);
    let c = g[i].0;
    let own = host_bits(c, last, width);
    assert(width - g[i].1 == own);
    lemma_host_bits(c, last, width);
    lemma_pow2_pos(h);
    lemma_pow2_pos(own);
    if d == c {
        assert(h <= own) by {
            if h > own {
                assert(c % pow2(h) == 0 && pow2(h) - 1 <= last - c);
            }
        }
        if h < own {
            lemma_pow2_strictly_increases(h, own);
        }
    } else {
        lemma_block_inside(c, own, d, h);
    }
}

/// No list of blocks that covers exactly the range, in whatever order and
/// however the blocks lie to each other, has fewer blocks than the range
/// falls apart into.
pub proof fn lemma_range_blocks_fewest(bs: Seq<(nat, nat)>, start: nat, last: nat, width: nat)
    requires
        start <= last,
        covers_exactly(bs, start, last, width),
    ensures
        covers_exactly(range_blocks(start, last, width), start, last, width),
        range_blocks(start, last, width).len() <= bs.len(),
{
    let g = range_blocks(start, last, width);
    lemma_range_blocks_chain(start, last, width);
    lemma_range_blocks_partition(start, last, width);
    let f = |i: int|
        choose|j: int| 0 <= j < bs.len() && block_contains(bs[j].0, bs[j].1, width, g[i].0);
    assert forall|i: int| 0 <= i < g.len() implies 0 <= #[trigger] f(i) < bs.len() && block_contains(
        bs[f(i)].0,
        bs[f(i)].1,
        width,
        g[i].0,
    ) by {
        lemma_pow2_pos((width - g[i].1) as nat);
        assert(start <= g[i].0 <= last);
        assert(covered(bs, width, g[i].0));
    }
    assert forall|i: int, k: int| 0 <= i < k < g.len() implies #[trigger] f(i) != #[trigger] f(
        k,
    ) by {
        if f(i) == f(k) {
            let j = f(i);
            assert(0 <= f(i) < bs.len() && block_contains(bs[j].0, bs[j].1, width, g[i].0));
            assert(0 <= f(k) < bs.len() && block_contains(bs[j].0, bs[j].1, width, g[k].0));
            let h = (width - bs[j].1) as nat;
            let size = block_size(width, bs[j].1);
            lemma_pow2_pos(h);
            let d = block_first(bs[j].0, bs[j].1, width);
            let e = block_last(bs[j].0, bs[j].1, width);
            lemma_block_is_interval(bs[j].0, bs[j].1, width, d);
            lemma_block_is_interval(bs[j].0, bs[j].1, width, e);
            lemma_block_is_interval(bs[j].0, bs[j].1, width, g[i].0);
            lemma_block_is_interval(bs[j].0, bs[j].1, width, g[k].0);
            assert(covered(bs, width, d));
            assert(covered(bs, width, e));
            lemma_mod_multiples_basic((bs[j].0 / size) as int, size as int);
            let m = lemma_chain_covers(g, width, d, g.len() as int);
            lemma_block_in_one(start, last, width, d, h, m);
            lemma_pow2_pos((width - g[i].1) as nat);
            lemma_pow2_pos((width - g[k].1) as nat);
            if m < i {
                lemma_chain_ascends(g, width, m, i);
            } else if i < m {
                lemma_chain_ascends(g, width, i, m);
            }
            if m < k {
                lemma_chain_ascends(g, width, m, k);
            } else if k < m {
                lemma_chain_ascends(g, width, k, m);
            }
        }
    }
    lemma_one_to_one(g.len() as int, bs.len() as int, f);
}

/// A block whose network address is a multiple of its size starts there.
pub proof fn lemma_aligned_block(network: nat, prefix: nat, width: nat)
    requires
        network % block_size(width, prefix) == 0,
    ensures
        block_first(network, prefix, width) == network,
        block_last(network, prefix, width) == pair_last((network, prefix), width),
{
    lemma_pow2_pos((width - prefix) as nat);
    lemma_fundamental_div_mod(network as int, block_size(width, prefix) as int);
    let s = block_size(width, prefix);
    assert(s * (network / s) == (network / s) * s) by (nonlinear_arith);
}


/// Blocks held as machine integers, read as pairs of natural numbers.
pub open spec fn blocks_view(v: Seq<(u128, u8)>) -> Seq<(nat, nat)> {
    Seq::new(v.len(), |i: int| (v[i].0 as nat, v[i].1 as nat))
}

/// Whether the block of `network` under `prefix` holds `x`.
pub fn block_has(network: u128, prefix: u8, width: u8, x: u128) -> (r: bool)
    requires
        prefix <= width <= 128,
        network < pow2(width as nat),
        x < pow2(width as nat),
    ensures
        r == block_contains(network as nat, prefix as nat, width as nat, x as nat),
{
    if prefix == 0 {
        proof {
            lemma_block_all(network as nat, width as nat, x as nat);
        }
        true
    } else {
        let size: u128 = pow2_u128(width - prefix);
        x / size == network / size
    }
}

/// The first address of the block of `network` under `prefix`.
pub fn block_start(network: u128, prefix: u8, width: u8) -> (r: u128)
    requires
        prefix <= width <= 128,
        network < pow2(width as nat),
    ensures
        r == block_first(network as nat, prefix as nat, width as nat),
        r <= network,
{
    if prefix == 0 {
        proof {
            lemma_basic_div(network as int, pow2(width as nat) as int);
            assert(network as nat / pow2(width as nat) == 0);
            assert(0 * pow2(width as nat) == 0);
        }
        0
    } else {
        let size: u128 = pow2_u128(width - prefix);
        proof {
            lemma_fundamental_div_mod(network as int, size as int);
            lemma_mod_bound(network as int, size as int);
            assert((network / size) * size == size * (network / size)) by (nonlinear_arith);
        }
        (network / size) * size
    }
}

/// The host bits of the largest block that starts at `current` and ends at
/// or before `last`, and the size of that block less one.
pub fn largest_block(current: u128, last: u128, width: u8) -> (r: (u8, u128))
    requires
        current <= last,
        width <= 128,
    ensures
        r.0 == host_bits(current as nat, last as nat, width as nat),
        r.0 <= width,
        r.1 == pow2(r.0 as nat) - 1,
        r.1 <= last - current,
{
    let mut h: u8 = 0;
    let mut below: u128 = 0;
    let room: u128 = last - current;
    proof {
        lemma2_to64();
    }
    while h < width
        invariant
            h <= width <= 128,
            current <= last,
            room == last - current,
            below == pow2(h as nat) - 1,
            below <= room,
            host_bits_from(current as nat, last as nat, h as nat, width as nat) == host_bits(
                current as nat,
                last as nat,
                width as nat,
            ),
        decreases width - h,
    {
        proof {
            lemma_pow2_unfold((h + 1) as nat);
            lemma_pow2_128();
            lemma_pow2_strictly_increases(h as nat, 128);
        }
        let size: u128 = below + 1;
        if (current / size) % 2 != 0 || room == 0 || below > (room - 1) / 2 {
            return (h, below);
        }
        below = 2 * below + 1;
        h = h + 1;
    }
    (h, below)
}

/// The blocks that the range from `start` to `last` falls apart into, each
/// as its network address and prefix length, in ascending order.
pub fn decompose(start: u128, last: u128, width: u8) -> (out: Vec<(u128, u8)>)
    requires
        start <= last,
        width <= 128,
    ensures
        blocks_view(out@) == range_blocks(start as nat, last as nat, width as nat),
{
    let mut out: Vec<(u128, u8)> = Vec::new();
    let mut current: u128 = start;
    assert(blocks_view(out@) + range_blocks(current as nat, last as nat, width as nat)
        =~= range_blocks(start as nat, last as nat, width as nat));
    loop
        invariant
            current <= last,
            width <= 128,
            range_blocks(start as nat, last as nat, width as nat) == blocks_view(out@)
                + range_blocks(current as nat, last as nat, width as nat),
        decreases last - current,
    {
        let (h, below) = largest_block(current, last, width);
        let ghost before = blocks_view(out@);
        let ghost rest = range_blocks(current as nat, last as nat, width as nat);
        let ghost head = seq![(current as nat, (width - h) as nat)];
        out.push((current, width - h));
        assert(blocks_view(out@) =~= before + head);
        let end: u128 = current + below;
        if end >= last {
            assert(rest == head);
            return out;
        }
        proof {
            lemma_pow2_pos(h as nat);
            assert(rest == head + range_blocks((end + 1) as nat, last as nat, width as nat));
            assert(before + rest =~= (before + head) + range_blocks(
                (end + 1) as nat,
                last as nat,
                width as nat,
            ));
        }
        current = end + 1;
    }
}

} // verus!
