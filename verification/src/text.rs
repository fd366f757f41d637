//! Text as sequences of characters: character classes, the lexicographic
//! order that keys are sorted by, and number formatting.

use vstd::prelude::*;

verus! {

/// `String::push` appends one character at the end of the string.
pub assume_specification[ String::push ](s: &mut String, c: char)
    ensures
        final(s)@ == old(s)@.push(c),
;

/// Lexicographic order on sequences of integers: `a` comes before `b` when,
/// at the first place where they differ, `a` has ended or holds the smaller
/// value.
pub open spec fn seq_lt(a: Seq<int>, b: Seq<int>) -> bool {
    exists|k: int| #[trigger] first_gap(a, b, k)
}

/// `k` is a place up to which `a` and `b` agree and at which `a` is smaller.
pub open spec fn first_gap(a: Seq<int>, b: Seq<int>, k: int) -> bool {
    &&& 0 <= k <= a.len()
    &&& k <= b.len()
    &&& forall|j: int| 0 <= j < k ==> a[j] == b[j]
    &&& (k == a.len() && k < b.len()) || (k < a.len() && k < b.len() && a[k] < b[k])
}

/// The code points of a text, the sequence its order is decided on.
pub open spec fn code_points(s: Seq<char>) -> Seq<int> {
    Seq::new(s.len(), |i: int| s[i] as int)
}

pub proof fn lemma_seq_lt_irreflexive(a: Seq<int>)
    ensures
        !seq_lt(a, a),
{
    if seq_lt(a, a) {
        let k = choose|k: int| #[trigger] first_gap(a, a, k);
        assert(false);
    }
}

pub proof fn lemma_seq_lt_asymmetric(a: Seq<int>, b: Seq<int>)
    ensures
        !(seq_lt(a, b) && seq_lt(b, a)),
{
    if seq_lt(a, b) && seq_lt(b, a) {
        let k = choose|k: int| #[trigger] first_gap(a, b, k);
        let m = choose|m: int| #[trigger] first_gap(b, a, m);
        if k < m {
            assert(b[k] == a[k]);
        } else if m < k {
            assert(a[m] == b[m]);
        }
        assert(false);
    }
}

pub proof fn lemma_seq_lt_transitive(a: Seq<int>, b: Seq<int>, c: Seq<int>)
    requires
        seq_lt(a, b),
        seq_lt(b, c),
    ensures
        seq_lt(a, c),
{
    let k = choose|k: int| #[trigger] first_gap(a, b, k);
    let m = choose|m: int| #[trigger] first_gap(b, c, m);
    let n = if k <= m { k } else { m };
    assert forall|j: int| 0 <= j < n implies a[j] == c[j] by {
        assert(a[j] == b[j]);
        assert(b[j] == c[j]);
    }
    if k < m {
        assert(b[k] == c[k]);
    } else if m < k {
        assert(a[m] == b[m]);
    }
    assert(first_gap(a, c, n));
}

/// Two sequences are equal or one comes before the other.
pub proof fn lemma_seq_lt_total(a: Seq<int>, b: Seq<int>)
    ensures
        a == b || seq_lt(a, b) || seq_lt(b, a),
{
    lemma_seq_lt_total_from(a, b, 0);
}

proof fn lemma_seq_lt_total_from(a: Seq<int>, b: Seq<int>, i: int)
    requires
        0 <= i <= a.len(),
        i <= b.len(),
        forall|j: int| 0 <= j < i ==> a[j] == b[j],
    ensures
        a == b || seq_lt(a, b) || seq_lt(b, a),
    decreases a.len() - i,
{
    if i == a.len() {
        if i == b.len() {
            assert(a =~= b);
        } else {
            assert(first_gap(a, b, i));
        }
    } else if i == b.len() {
        assert(first_gap(b, a, i));
    } else if a[i] < b[i] {
        assert(first_gap(a, b, i));
    } else if b[i] < a[i] {
        assert(first_gap(b, a, i));
    } else {
        lemma_seq_lt_total_from(a, b, i + 1);
    }
}

/// Texts with the same code points are the same text.
pub proof fn lemma_code_points_injective(s: Seq<char>, t: Seq<char>)
    requires
        code_points(s) == code_points(t),
    ensures
        s == t,
{
    assert(s.len() == code_points(s).len());
    assert(t.len() == code_points(t).len());
    assert forall|i: int| 0 <= i < s.len() implies s[i] == t[i] by {
        assert(code_points(s)[i] == s[i] as int);
        assert(code_points(t)[i] == t[i] as int);
    }
    assert(s =~= t);
}

/// A tag in front decides first; equal tags leave the decision to the rest.
pub proof fn lemma_seq_lt_tagged(t1: int, a: Seq<int>, t2: int, b: Seq<int>)
    ensures
        seq_lt(seq![t1] + a, seq![t2] + b) <==> (t1 < t2 || (t1 == t2 && seq_lt(a, b))),
{
    let x = seq![t1] + a;
    let y = seq![t2] + b;
    if seq_lt(x, y) {
        let k = choose|k: int| #[trigger] first_gap(x, y, k);
        if k == 0 {
            assert(x[0] < y[0]);
        } else {
            assert(x[0] == y[0]);
            assert forall|j: int| 0 <= j < k - 1 implies a[j] == b[j] by {
                assert(x[j + 1] == y[j + 1]);
            }
            if k < x.len() && k < y.len() {
                assert(x[k] == a[k - 1] && y[k] == b[k - 1]);
            }
            assert(first_gap(a, b, k - 1));
        }
    }
    if t1 < t2 {
        assert(first_gap(x, y, 0));
    }
    if t1 == t2 && seq_lt(a, b) {
        let k = choose|k: int| #[trigger] first_gap(a, b, k);
        assert forall|j: int| 0 <= j < k + 1 implies x[j] == y[j] by {
            if j > 0 {
                assert(x[j] == a[j - 1] && y[j] == b[j - 1]);
            }
        }
        if k < a.len() && k < b.len() {
            assert(x[k + 1] == a[k] && y[k + 1] == b[k]);
        }
        assert(first_gap(x, y, k + 1));
    }
}

/// The characters of `s`, collected in a vector.
pub fn chars_of(s: &str) -> (v: Vec<char>)
    ensures
        v@ == s@,
{
    let n: usize = s.unicode_len();
    let mut v: Vec<char> = Vec::new();
    let mut i: usize = 0;
    while i < n
        invariant
            n == s@.len(),
            i <= n,
            v@ == s@.subrange(0, i as int),
        decreases n - i,
    {
        let c: char = s.get_char(i);
        v.push(c);
        i = i + 1;
        assert(v@ =~= s@.subrange(0, i as int));
    }
    assert(v@ =~= s@);
    v
}

/// Whether two texts are the same.
pub fn text_same(a: &str, b: &str) -> (r: bool)
    ensures
        r == (a@ == b@),
{
    let x = chars_of(a);
    let y = chars_of(b);
    if x.len() != y.len() {
        return false;
    }
    let mut i: usize = 0;
    while i < x.len()
        invariant
            x@ == a@,
            y@ == b@,
            x.len() == y.len(),
            i <= x.len(),
            forall|j: int| 0 <= j < i ==> x@[j] == y@[j],
        decreases x.len() - i,
    {
        if x[i] != y[i] {
            assert(a@[i as int] != b@[i as int]);
            return false;
        }
        i = i + 1;
    }
    assert(x@ =~= y@);
    true
}

/// Whether `a` comes before `b` in lexicographic order of code points.
pub fn text_precedes(a: &str, b: &str) -> (r: bool)
    ensures
        r == seq_lt(code_points(a@), code_points(b@)),
{
    let x = chars_of(a);
    let y = chars_of(b);
    let ghost p = code_points(a@);
    let ghost q = code_points(b@);
    let mut i: usize = 0;
    while i < x.len() && i < y.len()
        invariant
            x@ == a@,
            y@ == b@,
            p == code_points(a@),
            q == code_points(b@),
            i <= x.len(),
            i <= y.len(),
            forall|j: int| 0 <= j < i ==> p[j] == q[j],
        decreases x.len() - i,
    {
        let cx: char = x[i];
        let cy: char = y[i];
        assert(p[i as int] == a@[i as int] as int);
        assert(q[i as int] == b@[i as int] as int);
        if cx < cy {
            assert(first_gap(p, q, i as int));
            return true;
        }
        if cy < cx {
            assert(first_gap(q, p, i as int));
            proof {
                lemma_seq_lt_asymmetric(p, q);
            }
            return false;
        }
        i = i + 1;
    }
    if i < y.len() {
        assert(first_gap(p, q, i as int));
        true
    } else {
        proof {
            if i < x.len() {
                assert(first_gap(q, p, i as int));
                lemma_seq_lt_asymmetric(p, q);
            } else {
                assert(p =~= q);
                lemma_seq_lt_irreflexive(p);
            }
        }
        false
    }
}


/// An ASCII decimal digit.
pub open spec fn is_digit(c: char) -> bool {
    '0' <= c <= '9'
}

/// An ASCII letter.
pub open spec fn is_alphabetic(c: char) -> bool {
    ('a' <= c <= 'z') || ('A' <= c <= 'Z')
}

/// An ASCII letter or decimal digit.
pub open spec fn is_alphanumeric(c: char) -> bool {
    is_alphabetic(c) || is_digit(c)
}

/// An ASCII hexadecimal digit, in either case.
pub open spec fn is_hex_digit(c: char) -> bool {
    is_digit(c) || ('a' <= c <= 'f') || ('A' <= c <= 'F')
}

/// A character of the ASCII range.
pub open spec fn is_ascii_char(c: char) -> bool {
    '\0' <= c <= '\u{7f}'
}

/// ASCII white space: space, tab, line feed, form feed and carriage return.
pub open spec fn is_whitespace(c: char) -> bool {
    c == ' ' || c == '\t' || c == '\n' || c == '\x0c' || c == '\r'
}

pub fn char_is_digit(c: char) -> (r: bool)
    ensures
        r == is_digit(c),
{
    c >= '0' && c <= '9'
}

pub fn char_is_alphabetic(c: char) -> (r: bool)
    ensures
        r == is_alphabetic(c),
{
    (c >= 'a' && c <= 'z') || (c >= 'A' && c <= 'Z')
}

pub fn char_is_alphanumeric(c: char) -> (r: bool)
    ensures
        r == is_alphanumeric(c),
{
    char_is_alphabetic(c) || char_is_digit(c)
}

pub fn char_is_hex_digit(c: char) -> (r: bool)
    ensures
        r == is_hex_digit(c),
{
    char_is_digit(c) || (c >= 'a' && c <= 'f') || (c >= 'A' && c <= 'F')
}

pub fn char_is_ascii(c: char) -> (r: bool)
    ensures
        r == is_ascii_char(c),
{
    c <= '\x7f'
}

pub fn char_is_whitespace(c: char) -> (r: bool)
    ensures
        r == is_whitespace(c),
{
    c == ' ' || c == '\t' || c == '\n' || c == '\x0c' || c == '\r'
}

/// The lower-case form of an ASCII letter; any other character unchanged.
pub open spec fn lower(c: char) -> char {
    if 'A' <= c <= 'Z' {
        ((c as int) + 32) as char
    } else {
        c
    }
}

/// The digit that stands for `d`, for `d` below ten.
pub open spec fn digit_char(d: int) -> char {
    (48 + d) as char
}

/// The lower-case hexadecimal digit that stands for `d`, for `d` below sixteen.
pub open spec fn hex_char(d: int) -> char {
    if d < 10 {
        (48 + d) as char
    } else {
        (87 + d) as char
    }
}

/// The value of a decimal digit.
pub open spec fn digit_value(c: char) -> int {
    c as int - 48
}

/// The decimal numeral of `n`, without leading zeros.
pub open spec fn dec_text(n: nat) -> Seq<char>
    decreases n,
{
    if n < 10 {
        seq![digit_char(n as int)]
    } else {
        dec_text(n / 10).push(digit_char((n % 10) as int))
    }
}

/// The lower-case hexadecimal numeral of `n`, without leading zeros.
pub open spec fn hex_text(n: nat) -> Seq<char>
    decreases n,
{
    if n < 16 {
        seq![hex_char(n as int)]
    } else {
        hex_text(n / 16).push(hex_char((n % 16) as int))
    }
}

/// The numeral of `n` in exactly `width` decimal digits, for `n` below
/// ten to the power `width`.
pub open spec fn dec_fixed(n: nat, width: nat) -> Seq<char>
    decreases width,
{
    if width == 0 {
        Seq::empty()
    } else {
        dec_fixed(n / 10, (width - 1) as nat).push(digit_char((n % 10) as int))
    }
}

/// The numeral of `n` in exactly `width` lower-case hexadecimal digits.
pub open spec fn hex_fixed(n: nat, width: nat) -> Seq<char>
    decreases width,
{
    if width == 0 {
        Seq::empty()
    } else {
        hex_fixed(n / 16, (width - 1) as nat).push(hex_char((n % 16) as int))
    }
}

/// The character of a decimal digit.
pub fn digit_of(d: u8) -> (c: char)
    requires
        d < 10,
    ensures
        c == digit_char(d as int),
        is_digit(c),
{
    (48u8 + d) as char
}

/// The character of a hexadecimal digit, in lower case.
pub fn hex_digit_of(d: u8) -> (c: char)
    requires
        d < 16,
    ensures
        c == hex_char(d as int),
        is_hex_digit(c),
{
    if d < 10 {
        (48u8 + d) as char
    } else {
        (87u8 + d) as char
    }
}

/// Appends the decimal numeral of `n`.
pub fn push_dec(out: &mut String, n: u32)
    ensures
        final(out)@ == old(out)@ + dec_text(n as nat),
    decreases n,
{
    if n >= 10 {
        push_dec(out, n / 10);
    }
    let d: u8 = (n % 10) as u8;
    out.push(digit_of(d));
    assert(final(out)@ =~= old(out)@ + dec_text(n as nat));
}

/// Appends the hexadecimal numeral of `n`, in lower case.
pub fn push_hex(out: &mut String, n: u32)
    ensures
        final(out)@ == old(out)@ + hex_text(n as nat),
    decreases n,
{
    if n >= 16 {
        push_hex(out, n / 16);
    }
    let d: u8 = (n % 16) as u8;
    out.push(hex_digit_of(d));
    assert(final(out)@ =~= old(out)@ + hex_text(n as nat));
}

/// Appends `n` in exactly `width` decimal digits.
pub fn push_dec_fixed(out: &mut String, n: u32, width: u8)
    ensures
        final(out)@ == old(out)@ + dec_fixed(n as nat, width as nat),
    decreases width,
{
    if width > 0 {
        push_dec_fixed(out, n / 10, width - 1);
        let d: u8 = (n % 10) as u8;
        out.push(digit_of(d));
    }
    assert(final(out)@ =~= old(out)@ + dec_fixed(n as nat, width as nat));
}

/// Appends `n` in exactly `width` hexadecimal digits, in lower case.
pub fn push_hex_fixed(out: &mut String, n: u32, width: u8)
    ensures
        final(out)@ == old(out)@ + hex_fixed(n as nat, width as nat),
    decreases width,
{
    if width > 0 {
        push_hex_fixed(out, n / 16, width - 1);
        let d: u8 = (n % 16) as u8;
        out.push(hex_digit_of(d));
    }
    assert(final(out)@ =~= old(out)@ + hex_fixed(n as nat, width as nat));
}

/// The number that a sequence of decimal digits stands for.
pub open spec fn dec_value(s: Seq<char>) -> nat
    decreases s.len(),
{
    if s.len() == 0 {
        0
    } else {
        (dec_value(s.drop_last()) * 10 + digit_value(s.last())) as nat
    }
}

/// Every character of `s` is a decimal digit.
pub open spec fn all_digits(s: Seq<char>) -> bool {
    forall|i: int| 0 <= i < s.len() ==> is_digit(#[trigger] s[i])
}

/// A numeral without its optional plus sign.
pub open spec fn unsigned_part(s: Seq<char>) -> Seq<char> {
    if s.len() > 0 && s[0] == '+' {
        s.subrange(1, s.len() as int)
    } else {
        s
    }
}

/// What a text means as an unsigned number of 32 bits: an optional plus
/// sign, then at least one decimal digit, leading zeros allowed, and a
/// value that fits.
pub open spec fn parse_u32_spec(s: Seq<char>) -> Option<u32> {
    let digits = unsigned_part(s);
    if digits.len() > 0 && all_digits(digits) && dec_value(digits) <= u32::MAX {
        Some(dec_value(digits) as u32)
    } else {
        None
    }
}

pub proof fn lemma_dec_value_monotonic(s: Seq<char>, k: int)
    requires
        all_digits(s),
        0 <= k <= s.len(),
    ensures
        dec_value(s.subrange(0, k)) <= dec_value(s),
    decreases s.len() - k,
{
    if k < s.len() {
        lemma_dec_value_monotonic(s, k + 1);
        let t = s.subrange(0, k + 1);
        assert(t.drop_last() =~= s.subrange(0, k));
        assert(is_digit(s[k]));
        assert(t.last() == s[k]);
    } else {
        assert(s.subrange(0, k) =~= s);
    }
}

/// The value of a decimal digit.
pub fn value_of_digit(c: char) -> (d: u8)
    requires
        is_digit(c),
    ensures
        d as int == digit_value(c),
        d < 10,
{
    (c as u8) - 48u8
}

/// Reads an unsigned number of 32 bits as `str::parse::<u32>` does.
pub fn parse_u32(s: &str) -> (r: Option<u32>)
    ensures
        r == parse_u32_spec(s@),
{
    let v = chars_of(s);
    let mut i: usize = 0;
    if v.len() > 0 && v[0] == '+' {
        i = 1;
    }
    let start: usize = i;
    let ghost digits = unsigned_part(s@);
    assert(digits =~= s@.subrange(start as int, s@.len() as int));
    if i == v.len() {
        return None;
    }
    let mut acc: u32 = 0;
    while i < v.len()
        invariant
            v@ == s@,
            start <= i <= v.len(),
            digits == unsigned_part(s@),
            digits == s@.subrange(start as int, s@.len() as int),
            digits.len() > 0,
            all_digits(digits.subrange(0, i - start)),
            acc as nat == dec_value(digits.subrange(0, i - start)),
        decreases v.len() - i,
    {
        let c: char = v[i];
        let ghost prefix = digits.subrange(0, i - start + 1);
        proof {
            assert(prefix.drop_last() =~= digits.subrange(0, i - start));
            assert(prefix.last() == c);
        }
        if !char_is_digit(c) {
            assert(!is_digit(digits[i - start]));
            return None;
        }
        let d: u32 = value_of_digit(c) as u32;
        proof {
            assert forall|j: int| 0 <= j < prefix.len() implies is_digit(#[trigger] prefix[j]) by {
                if j < i - start {
                    assert(prefix[j] == digits.subrange(0, i - start)[j]);
                }
            }
        }
        if acc > (u32::MAX - d) / 10 {
            proof {
                assert(dec_value(prefix) > u32::MAX);
                if all_digits(digits) {
                    lemma_dec_value_monotonic(digits, i - start + 1);
                }
            }
            return None;
        }
        acc = acc * 10 + d;
        i = i + 1;
    }
    assert(digits.subrange(0, i - start) =~= digits);
    Some(acc)
}


/// The first place at or behind `i` where `s` holds `c`, or the length of
/// `s` where there is none.
pub open spec fn index_from(s: Seq<char>, c: char, i: int) -> int
    decreases s.len() - i,
{
    if 0 <= i < s.len() && s[i] != c {
        index_from(s, c, i + 1)
    } else {
        i
    }
}

/// The first place where `s` holds `c`, or the length of `s`.
pub open spec fn index_of(s: Seq<char>, c: char) -> int {
    index_from(s, c, 0)
}

/// What the first place of a character is: nothing before it is that
/// character, and it is that character or the end.
pub proof fn lemma_index_from(s: Seq<char>, c: char, i: int)
    requires
        0 <= i <= s.len(),
    ensures
        i <= index_from(s, c, i) <= s.len(),
        forall|j: int| i <= j < index_from(s, c, i) ==> s[j] != c,
        index_from(s, c, i) < s.len() ==> s[index_from(s, c, i)] == c,
    decreases s.len() - i,
{
    if i < s.len() && s[i] != c {
        lemma_index_from(s, c, i + 1);
    }
}

/// The first place at or behind `from` where `v` holds `c`.
pub fn find_from(v: &Vec<char>, c: char, from: usize) -> (i: usize)
    requires
        from <= v.len(),
    ensures
        i == index_from(v@, c, from as int),
        from <= i <= v.len(),
{
    let mut i: usize = from;
    while i < v.len() && v[i] != c
        invariant
            from <= i <= v.len(),
            index_from(v@, c, i as int) == index_from(v@, c, from as int),
        decreases v.len() - i,
    {
        i = i + 1;
    }
    i
}

/// The text that `v` holds from place `from` up to place `to`.
pub fn string_of(v: &Vec<char>, from: usize, to: usize) -> (r: String)
    requires
        from <= to <= v.len(),
    ensures
        r@ == v@.subrange(from as int, to as int),
{
    let mut r = String::new();
    let mut i: usize = from;
    while i < to
        invariant
            from <= i <= to <= v.len(),
            r@ == v@.subrange(from as int, i as int),
        decreases to - i,
    {
        r.push(v[i]);
        i = i + 1;
        assert(r@ =~= v@.subrange(from as int, i as int));
    }
    r
}

/// Whether every character of `v` from `from` up to `to` is a decimal digit.
pub fn digits_only(v: &Vec<char>, from: usize, to: usize) -> (r: bool)
    requires
        from <= to <= v.len(),
    ensures
        r == all_digits(v@.subrange(from as int, to as int)),
{
    let mut i: usize = from;
    while i < to
        invariant
            from <= i <= to <= v.len(),
            forall|j: int| from <= j < i ==> is_digit(#[trigger] v@[j]),
        decreases to - i,
    {
        if !char_is_digit(v[i]) {
            assert(!is_digit(v@.subrange(from as int, to as int)[i - from]));
            return false;
        }
        i = i + 1;
    }
    assert forall|j: int| 0 <= j < to - from implies is_digit(
        #[trigger] v@.subrange(from as int, to as int)[j],
    ) by {
        assert(is_digit(v@[from + j]));
    }
    true
}

/// The largest number of `k` decimal digits.
pub open spec fn dec_max(k: nat) -> nat
    decreases k,
{
    if k == 0 {
        0
    } else {
        dec_max((k - 1) as nat) * 10 + 9
    }
}

/// Numbers of at most nine digits fit in 32 bits.
pub proof fn lemma_dec_max(k: nat)
    requires
        k <= 9,
    ensures
        dec_max(k) <= 999_999_999,
{
    reveal_with_fuel(dec_max, 10);
}

/// The number that the digits of `v` from `from` up to `to` stand for, for
/// at most nine digits.
pub fn number_of(v: &Vec<char>, from: usize, to: usize) -> (r: u32)
    requires
        from <= to <= v.len(),
        to - from <= 9,
        all_digits(v@.subrange(from as int, to as int)),
    ensures
        r == dec_value(v@.subrange(from as int, to as int)),
{
    let mut acc: u32 = 0;
    let mut i: usize = from;
    assert(v@.subrange(from as int, from as int) =~= Seq::<char>::empty());
    while i < to
        invariant
            from <= i <= to <= v.len(),
            to - from <= 9,
            all_digits(v@.subrange(from as int, to as int)),
            acc == dec_value(v@.subrange(from as int, i as int)),
            acc <= dec_max((i - from) as nat),
        decreases to - i,
    {
        let c: char = v[i];
        proof {
            let prefix = v@.subrange(from as int, i + 1);
            assert(prefix.drop_last() =~= v@.subrange(from as int, i as int));
            assert(prefix.last() == c);
            assert(is_digit(v@.subrange(from as int, to as int)[i - from]));
            lemma_dec_max((i - from + 1) as nat);
        }
        acc = acc * 10 + value_of_digit(c) as u32;
        i = i + 1;
    }
    acc
}


/// Every character of `s` is a hexadecimal digit.
pub open spec fn all_hex(s: Seq<char>) -> bool {
    forall|i: int| 0 <= i < s.len() ==> is_hex_digit(#[trigger] s[i])
}

/// Whether every character of `v` from `from` up to `to` is a hexadecimal
/// digit.
pub fn hex_only(v: &Vec<char>, from: usize, to: usize) -> (r: bool)
    requires
        from <= to <= v.len(),
    ensures
        r == all_hex(v@.subrange(from as int, to as int)),
{
    let mut i: usize = from;
    while i < to
        invariant
            from <= i <= to <= v.len(),
            forall|j: int| from <= j < i ==> is_hex_digit(#[trigger] v@[j]),
        decreases to - i,
    {
        if !char_is_hex_digit(v[i]) {
            assert(!is_hex_digit(v@.subrange(from as int, to as int)[i - from]));
            return false;
        }
        i = i + 1;
    }
    assert forall|j: int| 0 <= j < to - from implies is_hex_digit(
        #[trigger] v@.subrange(from as int, to as int)[j],
    ) by {
        assert(is_hex_digit(v@[from + j]));
    }
    true
}

/// A numeral of fixed width has that many characters, all decimal digits.
pub proof fn lemma_dec_fixed(n: nat, width: nat)
    ensures
        dec_fixed(n, width).len() == width,
        all_digits(dec_fixed(n, width)),
        all_hex(dec_fixed(n, width)),
    decreases width,
{
    if width > 0 {
        lemma_dec_fixed(n / 10, (width - 1) as nat);
        let d = digit_char((n % 10) as int);
        assert(is_digit(d));
    }
}

/// A hexadecimal numeral of fixed width has that many characters, all
/// hexadecimal digits.
pub proof fn lemma_hex_fixed(n: nat, width: nat)
    ensures
        hex_fixed(n, width).len() == width,
        all_hex(hex_fixed(n, width)),
    decreases width,
{
    if width > 0 {
        lemma_hex_fixed(n / 16, (width - 1) as nat);
        let d = hex_char((n % 16) as int);
        assert(is_hex_digit(d));
    }
}


/// What a decimal numeral is made of: at least one digit and digits only,
/// at most three digits for a number below a thousand, no leading zero but
/// for the numeral of zero, and the number is what the numeral stands for.
pub proof fn lemma_dec_text(n: nat)
    ensures
        dec_text(n).len() >= 1,
        all_digits(dec_text(n)),
        dec_value(dec_text(n)) == n,
        n < 10 ==> dec_text(n).len() == 1,
        n < 100 ==> dec_text(n).len() <= 2,
        n < 1000 ==> dec_text(n).len() <= 3,
        n >= 1 ==> dec_text(n)[0] != '0',
    decreases n,
{
    if n < 10 {
        let s = dec_text(n);
        assert(s.drop_last() =~= Seq::<char>::empty());
        assert(is_digit(s[0]));
        assert(dec_value(s.drop_last()) == 0);
    } else {
        lemma_dec_text(n / 10);
        let s = dec_text(n);
        let d = digit_char((n % 10) as int);
        assert(s.drop_last() =~= dec_text(n / 10));
        assert(s.last() == d);
        assert(is_digit(d));
        assert(s[0] == dec_text(n / 10)[0]);
        assert forall|i: int| 0 <= i < s.len() implies is_digit(#[trigger] s[i]) by {
            if i < s.len() - 1 {
                assert(s[i] == dec_text(n / 10)[i]);
            }
        }
    }
}

/// A decimal numeral reads as the number that it was written for.
pub proof fn lemma_parse_dec_text(n: u32)
    ensures
        parse_u32_spec(dec_text(n as nat)) == Some(n),
{
    lemma_dec_text(n as nat);
    let s = dec_text(n as nat);
    assert(is_digit(s[0]));
    assert(unsigned_part(s) == s);
}

/// Where nothing from place `i` up to place `p` is the character, and
/// place `p` is, or is the end, the first place of the character is `p`.
pub proof fn lemma_index_from_is(s: Seq<char>, c: char, i: int, p: int)
    requires
        0 <= i <= p <= s.len(),
        forall|j: int| i <= j < p ==> s[j] != c,
        p == s.len() || s[p] == c,
    ensures
        index_from(s, c, i) == p,
    decreases p - i,
{
    if i < p {
        lemma_index_from_is(s, c, i + 1, p);
    }
}


/// White space in the sense of Unicode.
pub open spec fn is_space(c: char) -> bool {
    ('\u{9}' <= c <= '\u{d}') || c == ' ' || c == '\u{85}' || c == '\u{a0}' || c == '\u{1680}' || (
    '\u{2000}' <= c <= '\u{200a}') || c == '\u{2028}' || c == '\u{2029}' || c == '\u{202f}' || c
        == '\u{205f}' || c == '\u{3000}'
}

pub fn char_is_space(c: char) -> (r: bool)
    ensures
        r == is_space(c),
{
    (c >= '\u{9}' && c <= '\u{d}') || c == ' ' || c == '\u{85}' || c == '\u{a0}' || c == '\u{1680}' || (
    c >= '\u{2000}' && c <= '\u{200a}') || c == '\u{2028}' || c == '\u{2029}' || c == '\u{202f}' || c
        == '\u{205f}' || c == '\u{3000}'
}

/// The first place at or behind `i` that holds no white space.
pub open spec fn skip_space(s: Seq<char>, i: int) -> int
    decreases s.len() - i,
{
    if 0 <= i < s.len() && is_space(s[i]) {
        skip_space(s, i + 1)
    } else {
        i
    }
}

/// The place behind the last character before place `j` that is no white
/// space, or `i` where there is none from place `i` on.
pub open spec fn trim_end(s: Seq<char>, i: int, j: int) -> int
    decreases j - i,
{
    if i < j <= s.len() && is_space(s[j - 1]) {
        trim_end(s, i, j - 1)
    } else {
        j
    }
}

/// The first place at or behind `i` that holds ASCII white space.
pub open spec fn word_end(s: Seq<char>, i: int) -> int
    decreases s.len() - i,
{
    if 0 <= i < s.len() && !is_whitespace(s[i]) {
        word_end(s, i + 1)
    } else {
        i
    }
}

/// The first place at or behind `i` that holds no white space.
pub fn skip_space_from(v: &Vec<char>, i: usize) -> (r: usize)
    requires
        i <= v.len(),
    ensures
        r == skip_space(v@, i as int),
        i <= r <= v.len(),
{
    let mut k: usize = i;
    while k < v.len() && char_is_space(v[k])
        invariant
            i <= k <= v.len(),
            skip_space(v@, k as int) == skip_space(v@, i as int),
        decreases v.len() - k,
    {
        k = k + 1;
    }
    k
}

/// The place behind the last character before place `j` that is no white
/// space.
pub fn trim_end_to(v: &Vec<char>, i: usize, j: usize) -> (r: usize)
    requires
        i <= j <= v.len(),
    ensures
        r == trim_end(v@, i as int, j as int),
        i <= r <= j,
{
    let mut k: usize = j;
    while k > i && char_is_space(v[k - 1])
        invariant
            i <= k <= j <= v.len(),
            trim_end(v@, i as int, k as int) == trim_end(v@, i as int, j as int),
        decreases k - i,
    {
        k = k - 1;
    }
    k
}

/// The first place at or behind `i` that holds ASCII white space.
pub fn word_end_from(v: &Vec<char>, i: usize) -> (r: usize)
    requires
        i <= v.len(),
    ensures
        r == word_end(v@, i as int),
        i <= r <= v.len(),
{
    let mut k: usize = i;
    while k < v.len() && !char_is_whitespace(v[k])
        invariant
            i <= k <= v.len(),
            word_end(v@, k as int) == word_end(v@, i as int),
        decreases v.len() - k,
    {
        k = k + 1;
    }
    k
}

} // verus!
