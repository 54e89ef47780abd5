use vstd::prelude::*;

verus! {

/// The one-byte whitespace characters: tab, line feed, vertical tab, form
/// feed, carriage return and space.
pub open spec fn is_ascii_space(b: u8) -> bool {
    b == 32 || (9 <= b && b <= 13)
}

/// Whether `a b` is the UTF-8 encoding of a two-byte whitespace character
/// (U+0085, U+00A0).
pub open spec fn is_space2(a: u8, b: u8) -> bool {
    a == 0xC2 && (b == 0x85 || b == 0xA0)
}

/// Whether `a b c` is the UTF-8 encoding of a three-byte whitespace
/// character (U+1680, U+2000 to U+200A, U+2028, U+2029, U+202F, U+205F,
/// U+3000).
pub open spec fn is_space3(a: u8, b: u8, c: u8) -> bool {
    (a == 0xE1 && b == 0x9A && c == 0x80)
        || (a == 0xE2 && b == 0x80 && ((0x80 <= c && c <= 0x8A) || c == 0xA8 || c == 0xA9 || c == 0xAF))
        || (a == 0xE2 && b == 0x81 && c == 0x9F)
        || (a == 0xE3 && b == 0x80 && c == 0x80)
}

pub open spec fn is_digit(b: u8) -> bool {
    48 <= b && b <= 57
}

/// The length in bytes of the whitespace character that `s` starts with,
/// or zero where it starts with none.
pub open spec fn lead_space_len(s: Seq<u8>) -> int {
    if s.len() >= 1 && is_ascii_space(s[0]) {
        1
    } else if s.len() >= 2 && is_space2(s[0], s[1]) {
        2
    } else if s.len() >= 3 && is_space3(s[0], s[1], s[2]) {
        3
    } else {
        0
    }
}

/// The length in bytes of the whitespace character that `s` ends with,
/// or zero where it ends with none.
pub open spec fn trail_space_len(s: Seq<u8>) -> int {
    let n = s.len() as int;
    if n >= 1 && is_ascii_space(s[n - 1]) {
        1
    } else if n >= 2 && is_space2(s[n - 2], s[n - 1]) {
        2
    } else if n >= 3 && is_space3(s[n - 3], s[n - 2], s[n - 1]) {
        3
    } else {
        0
    }
}

/// `s` without the whitespace characters it starts with.
pub open spec fn trim_start(s: Seq<u8>) -> Seq<u8>
    decreases s.len(),
{
    if lead_space_len(s) > 0 {
        trim_start(s.skip(lead_space_len(s)))
    } else {
        s
    }
}

/// `s` without the whitespace characters it ends with.
pub open spec fn trim_end(s: Seq<u8>) -> Seq<u8>
    decreases s.len(),
{
    if trail_space_len(s) > 0 {
        trim_end(s.take(s.len() - trail_space_len(s)))
    } else {
        s
    }
}

/// The content with leading and trailing whitespace removed.
pub open spec fn trimmed(s: Seq<u8>) -> Seq<u8> {
    trim_end(trim_start(s))
}

pub open spec fn all_digits(s: Seq<u8>) -> bool {
    forall|i: int| 0 <= i < s.len() ==> is_digit(#[trigger] s[i])
}

/// The number that a string of decimal digits denotes.
pub open spec fn digits_value(s: Seq<u8>) -> int
    decreases s.len(),
{
    if s.len() == 0 {
        0
    } else {
        10 * digits_value(s.drop_last()) + (s.last() - 48)
    }
}

/// An optional sign followed by one or more decimal digits.
pub open spec fn signed_value(t: Seq<u8>) -> Option<int> {
    if t.len() > 0 && (t[0] == 45 || t[0] == 43) {
        let d = t.skip(1);
        if d.len() > 0 && all_digits(d) {
            if t[0] == 45 {
                Some(-digits_value(d))
            } else {
                Some(digits_value(d))
            }
        } else {
            None
        }
    } else if t.len() > 0 && all_digits(t) {
        Some(digits_value(t))
    } else {
        None
    }
}

pub open spec fn fits_i32(v: int) -> bool {
    i32::MIN <= v && v <= i32::MAX
}

/// The 32-bit signed integer written in `content`, surrounding whitespace
/// allowed; `None` where the content is no such integer.
pub open spec fn parsed(content: Seq<u8>) -> Option<int> {
    match signed_value(trimmed(content)) {
        Some(v) => if fits_i32(v) {
            Some(v)
        } else {
            None
        },
        None => None,
    }
}

/// What a read of an attribute file yields: the integer it holds, or zero
/// where its content does not parse.
pub open spec fn content_value(content: Seq<u8>) -> int {
    match parsed(content) {
        Some(v) => v,
        None => 0,
    }
}

/// The decimal digits of `n`, most significant first, without leading zeros.
pub open spec fn decimal(n: nat) -> Seq<u8>
    decreases n,
{
    if n < 10 {
        seq![(48 + n) as u8]
    } else {
        decimal(n / 10).push((48 + n % 10) as u8)
    }
}

/// The text written for `v`: a minus sign for negative values, then its digits.
pub open spec fn text_of(v: int) -> Seq<u8> {
    if v < 0 {
        seq![45u8] + decimal((-v) as nat)
    } else {
        decimal(v as nat)
    }
}

fn lead_space_at(content: &[u8], i: usize) -> (r: usize)
    requires
        i <= content@.len(),
    ensures
        r == lead_space_len(content@.skip(i as int)),
{
    let n = content.len() - i;
    if n >= 1 && (content[i] == 32 || (9 <= content[i] && content[i] <= 13)) {
        1
    } else if n >= 2 && content[i] == 0xC2 && (content[i + 1] == 0x85 || content[i + 1] == 0xA0) {
        2
    } else if n >= 3 && is_space3_at(content, i) {
        3
    } else {
        0
    }
}

fn is_space3_at(content: &[u8], i: usize) -> (r: bool)
    requires
        i + 3 <= content@.len(),
    ensures
        r == is_space3(content@[i as int], content@[i + 1], content@[i + 2]),
{
    let a = content[i];
    let b = content[i + 1];
    let c = content[i + 2];
    (a == 0xE1 && b == 0x9A && c == 0x80)
        || (a == 0xE2 && b == 0x80 && ((0x80 <= c && c <= 0x8A) || c == 0xA8 || c == 0xA9 || c == 0xAF))
        || (a == 0xE2 && b == 0x81 && c == 0x9F)
        || (a == 0xE3 && b == 0x80 && c == 0x80)
}

fn trail_space_at(content: &[u8], start: usize, end: usize) -> (r: usize)
    requires
        start <= end <= content@.len(),
    ensures
        r == trail_space_len(content@.subrange(start as int, end as int)),
{
    let n = end - start;
    if n >= 1 && (content[end - 1] == 32 || (9 <= content[end - 1] && content[end - 1] <= 13)) {
        1
    } else if n >= 2 && content[end - 2] == 0xC2 && (content[end - 1] == 0x85 || content[end - 1] == 0xA0) {
        2
    } else if n >= 3 && is_space3_at(content, end - 3) {
        3
    } else {
        0
    }
}

proof fn lemma_digits_step(s: Seq<u8>, i: int, k: int)
    requires
        0 <= i <= k < s.len(),
    ensures
        digits_value(s.subrange(i, k + 1)) == 10 * digits_value(s.subrange(i, k)) + (s[k] - 48),
{
    assert(s.subrange(i, k + 1).drop_last() =~= s.subrange(i, k));
}

/// A prefix of a digit string never denotes more than the whole string.
proof fn lemma_prefix_value_le(s: Seq<u8>, k: int)
    requires
        all_digits(s),
        0 <= k <= s.len(),
    ensures
        0 <= digits_value(s.take(k)) <= digits_value(s),
    decreases s.len() - k,
{
    if k < s.len() {
        lemma_prefix_value_le(s, k + 1);
        assert(s.take(k + 1).drop_last() =~= s.take(k));
        assert(is_digit(s[k]));
    } else {
        assert(s.take(k) =~= s);
        lemma_value_nonneg(s);
    }
}

proof fn lemma_value_nonneg(s: Seq<u8>)
    requires
        all_digits(s),
    ensures
        digits_value(s) >= 0,
    decreases s.len(),
{
    if s.len() > 0 {
        assert(all_digits(s.drop_last()));
        assert(is_digit(s[s.len() - 1]));
        lemma_value_nonneg(s.drop_last());
    }
}

/// Parses `content` as a 32-bit signed decimal integer after trimming
/// surrounding whitespace.
pub fn parse_i32(content: &[u8]) -> (r: Option<i32>)
    ensures
        r matches Some(v) ==> parsed(content@) == Some(v as int),
        r is None ==> parsed(content@) is None,
{
    let ghost s = content@;
    let len = content.len();
    let mut start: usize = 0;
    assert(s.skip(0) =~= s);
    let mut k: usize = lead_space_at(content, 0);
    while k > 0
        invariant
            0 <= start <= len,
            len == s.len(),
            s == content@,
            k == lead_space_len(s.skip(start as int)),
            trim_start(s) == trim_start(s.skip(start as int)),
        decreases len - start,
    {
        assert(s.skip(start as int).skip(k as int) =~= s.skip(start + k));
        start = start + k;
        k = lead_space_at(content, start);
    }
    assert(s.skip(start as int) =~= s.subrange(start as int, len as int));
    let mut end: usize = len;
    let mut k: usize = trail_space_at(content, start, end);
    while k > 0
        invariant
            0 <= start <= end <= len,
            len == s.len(),
            s == content@,
            k == trail_space_len(s.subrange(start as int, end as int)),
            trim_start(s) == s.subrange(start as int, len as int),
            trimmed(s) == trim_end(s.subrange(start as int, end as int)),
        decreases end,
    {
        assert(s.subrange(start as int, end as int).take(end - start - k) =~= s.subrange(start as int, end - k));
        end = end - k;
        k = trail_space_at(content, start, end);
    }
    let ghost t = s.subrange(start as int, end as int);
    assert(trimmed(s) == t);
    if start == end {
        return None;
    }
    let mut i: usize = start;
    let neg = content[start] == 45;
    if content[start] == 45 || content[start] == 43 {
        i = i + 1;
        if i == end {
            return None;
        }
    }
    let ghost d = s.subrange(i as int, end as int);
    assert(t[0] == 45 || t[0] == 43 ==> d =~= t.skip(1));
    assert(!(t[0] == 45 || t[0] == 43) ==> d =~= t);
    let mut acc: u64 = 0;
    let mut k: usize = i;
    while k < end
        invariant
            start <= i <= k <= end <= len,
            len == s.len(),
            s == content@,
            d == s.subrange(i as int, end as int),
            acc == digits_value(s.subrange(i as int, k as int)),
            acc <= 2147483648,
            trimmed(s) == t,
            t.len() > 0,
            t == s.subrange(start as int, end as int),
            (t[0] == 45 || t[0] == 43) ==> d == t.skip(1),
            !(t[0] == 45 || t[0] == 43) ==> d == t,
            d.len() > 0,
            neg == (t[0] == 45),
            all_digits(s.subrange(i as int, k as int)),
        decreases end - k,
    {
        let c = content[k];
        if !(48 <= c && c <= 57) {
            assert(d[k - i] == c);
            assert(!is_digit(d[k - i]));
            return None;
        }
        proof {
            lemma_digits_step(s, i as int, k as int);
        }
        acc = acc * 10 + (c - 48) as u64;
        k = k + 1;
        assert(all_digits(s.subrange(i as int, k as int))) by {
            assert forall|j: int| 0 <= j < k - i implies is_digit(#[trigger] s.subrange(i as int, k as int)[j]) by {
                if j < k - 1 - i {
                    assert(s.subrange(i as int, k as int)[j] == s.subrange(i as int, k - 1)[j]);
                }
            }
        }
        if acc > 2147483648 {
            proof {
                if all_digits(d) {
                    assert(d.take(k - i) =~= s.subrange(i as int, k as int));
                    lemma_prefix_value_le(d, k - i);
                }
            }
            return None;
        }
    }
    assert(s.subrange(i as int, k as int) =~= d);
    if neg {
        Some((-(acc as i64)) as i32)
    } else if acc <= 2147483647 {
        Some(acc as i32)
    } else {
        None
    }
}

fn push_decimal(n: u32, out: &mut Vec<u8>)
    ensures
        final(out)@ == old(out)@ + decimal(n as nat),
    decreases n,
{
    if n >= 10 {
        push_decimal(n / 10, out);
    }
    out.push((48 + n % 10) as u8);
    assert(out@ =~= old(out)@ + decimal(n as nat));
}

/// Writes `v` in decimal: a minus sign for negative values, no whitespace.
pub fn format_i32(v: i32) -> (r: Vec<u8>)
    ensures
        r@ == text_of(v as int),
{
    let mut out: Vec<u8> = Vec::new();
    if v < 0 {
        out.push(45u8);
        let m = (-(v as i64)) as u32;
        push_decimal(m, &mut out);
        assert(out@ =~= text_of(v as int));
    } else {
        push_decimal(v as u32, &mut out);
        assert(out@ =~= text_of(v as int));
    }
    out
}

proof fn lemma_decimal_digits(n: nat)
    ensures
        decimal(n).len() > 0,
        all_digits(decimal(n)),
        digits_value(decimal(n)) == n,
    decreases n,
{
    if n >= 10 {
        lemma_decimal_digits(n / 10);
        let p = decimal(n / 10);
        assert(decimal(n).drop_last() =~= p);
        assert forall|i: int| 0 <= i < decimal(n).len() implies is_digit(#[trigger] decimal(n)[i]) by {
            if i < p.len() {
                assert(decimal(n)[i] == p[i]);
            }
        }
        assert(decimal(n).last() == (48 + n % 10) as u8);
        assert(n == 10 * (n / 10) + n % 10);
    } else {
        assert(decimal(n).drop_last() =~= Seq::<u8>::empty());
        assert(digits_value(Seq::<u8>::empty()) == 0);
    }
}

/// What `format_i32` writes, `parse_i32` reads back unchanged.
pub proof fn lemma_text_round_trip(v: int)
    requires
        fits_i32(v),
    ensures
        parsed(text_of(v)) == Some(v),
        content_value(text_of(v)) == v,
{
    let t = text_of(v);
    if v < 0 {
        let n = (-v) as nat;
        lemma_decimal_digits(n);
        assert(t.skip(1) =~= decimal(n));
        assert(t.last() == decimal(n).last());
    } else {
        lemma_decimal_digits(v as nat);
    }
    assert(lead_space_len(t) == 0);
    assert(trail_space_len(t) == 0);
    assert(trim_start(t) == t);
    assert(trim_end(t) == t);
}

} // verus!
