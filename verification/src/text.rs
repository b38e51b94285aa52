//! Byte-level text helpers shared by the line protocols: trimming white space,
//! splitting a line into fields and reading unsigned numbers the way the
//! standard library does.

use vstd::prelude::*;

verus! {

/// Whether `c` is an ASCII white-space character (tab, line feed, vertical tab,
/// form feed, carriage return, space).
pub open spec fn is_ascii_ws(c: u8) -> bool {
    c == 9u8 || c == 10u8 || c == 11u8 || c == 12u8 || c == 13u8 || c == 32u8
}

/// Whether three bytes are the UTF-8 encoding of a white-space character:
/// U+1680, U+2000..=U+200A, U+2028, U+2029, U+202F, U+205F or U+3000.
pub open spec fn is_ws3(a: u8, b: u8, c: u8) -> bool {
    ||| (a == 0xE1u8 && b == 0x9Au8 && c == 0x80u8)
    ||| (a == 0xE2u8 && b == 0x80u8 && ((0x80u8 <= c && c <= 0x8Au8) || c == 0xA8u8 || c == 0xA9u8
        || c == 0xAFu8))
    ||| (a == 0xE2u8 && b == 0x81u8 && c == 0x9Fu8)
    ||| (a == 0xE3u8 && b == 0x80u8 && c == 0x80u8)
}

/// Length of the UTF-8 encoding of a white-space character (Unicode
/// `White_Space`, the set `char::is_whitespace` tests) starting at `i` in `s`,
/// or 0 when none starts there. The two-byte ones are U+0085 and U+00A0.
pub open spec fn ws_len_at(s: Seq<u8>, i: int) -> int {
    if 0 <= i < s.len() && is_ascii_ws(s[i]) {
        1
    } else if 0 <= i && i + 1 < s.len() && s[i] == 0xC2u8 && (s[i + 1] == 0x85u8 || s[i + 1]
        == 0xA0u8) {
        2
    } else if 0 <= i && i + 2 < s.len() && is_ws3(s[i], s[i + 1], s[i + 2]) {
        3
    } else {
        0
    }
}

/// Length of the UTF-8 encoding of a white-space character ending just before
/// position `j` of `s`, or 0 when none ends there.
pub open spec fn ws_len_before(s: Seq<u8>, j: int) -> int {
    if 1 <= j <= s.len() && is_ascii_ws(s[j - 1]) {
        1
    } else if 2 <= j <= s.len() && s[j - 2] == 0xC2u8 && (s[j - 1] == 0x85u8 || s[j - 1]
        == 0xA0u8) {
        2
    } else if 3 <= j <= s.len() && is_ws3(s[j - 3], s[j - 2], s[j - 1]) {
        3
    } else {
        0
    }
}

/// Position of the first byte of `s` from `i` on that does not start a
/// white-space character.
pub open spec fn trim_start_pos(s: Seq<u8>, i: int) -> int
    decreases s.len() - i,
{
    if 0 <= i < s.len() && ws_len_at(s, i) > 0 {
        trim_start_pos(s, i + ws_len_at(s, i))
    } else {
        i
    }
}

/// End of `s` (at most `j`) once white-space characters ending there are
/// removed, never going below `lo`.
pub open spec fn trim_end_pos(s: Seq<u8>, lo: int, j: int) -> int
    decreases j,
{
    if lo < j && ws_len_before(s, j) > 0 && j - ws_len_before(s, j) >= lo {
        trim_end_pos(s, lo, j - ws_len_before(s, j))
    } else {
        j
    }
}

/// `s` without leading and trailing white space, as `str::trim` gives it for
/// UTF-8 text.
pub open spec fn trim_spec(s: Seq<u8>) -> Seq<u8> {
    let a = trim_start_pos(s, 0);
    s.subrange(a, trim_end_pos(s, a, s.len() as int))
}

fn ascii_ws(c: u8) -> (b: bool)
    ensures
        b == is_ascii_ws(c),
{
    c == 9 || c == 10 || c == 11 || c == 12 || c == 13 || c == 32
}

fn ws3(a: u8, b: u8, c: u8) -> (r: bool)
    ensures
        r == is_ws3(a, b, c),
{
    (a == 0xE1 && b == 0x9A && c == 0x80) || (a == 0xE2 && b == 0x80 && ((0x80 <= c && c <= 0x8A)
        || c == 0xA8 || c == 0xA9 || c == 0xAF)) || (a == 0xE2 && b == 0x81 && c == 0x9F) || (a
        == 0xE3 && b == 0x80 && c == 0x80)
}

fn ws_len(s: &[u8], i: usize) -> (n: usize)
    ensures
        n == ws_len_at(s@, i as int),
{
    let len = s.len();
    if i < len && ascii_ws(s[i]) {
        1
    } else if i < len && len - i > 1 && s[i] == 0xC2 && (s[i + 1] == 0x85 || s[i + 1] == 0xA0) {
        2
    } else if i < len && len - i > 2 && ws3(s[i], s[i + 1], s[i + 2]) {
        3
    } else {
        0
    }
}

fn ws_len_back(s: &[u8], j: usize) -> (n: usize)
    requires
        j <= s@.len(),
    ensures
        n == ws_len_before(s@, j as int),
{
    if j >= 1 && ascii_ws(s[j - 1]) {
        1
    } else if j >= 2 && s[j - 2] == 0xC2 && (s[j - 1] == 0x85 || s[j - 1] == 0xA0) {
        2
    } else if j >= 3 && ws3(s[j - 3], s[j - 2], s[j - 1]) {
        3
    } else {
        0
    }
}

/// `s` without leading and trailing white space (see `trim_spec`).
pub fn trim_whitespace(s: &[u8]) -> (t: &[u8])
    ensures
        t@ == trim_spec(s@),
{
    let mut a: usize = 0;
    loop
        invariant_except_break
            a <= s@.len(),
            trim_start_pos(s@, a as int) == trim_start_pos(s@, 0),
        ensures
            a <= s@.len(),
            a == trim_start_pos(s@, 0),
        decreases s@.len() - a,
    {
        if a >= s.len() {
            break;
        }
        let w = ws_len(s, a);
        if w == 0 {
            break;
        }
        a = a + w;
    }
    let mut e: usize = s.len();
    loop
        invariant_except_break
            a <= e <= s@.len(),
            trim_end_pos(s@, a as int, e as int) == trim_end_pos(s@, a as int, s@.len() as int),
        ensures
            a <= e <= s@.len(),
            e == trim_end_pos(s@, a as int, s@.len() as int),
        decreases e,
    {
        if e <= a {
            break;
        }
        let w = ws_len_back(s, e);
        if w == 0 || e - w < a {
            break;
        }
        e = e - w;
    }
    let (_head, tail) = s.split_at(a);
    let (mid, _rest) = tail.split_at(e - a);
    assert(mid@ =~= s@.subrange(a as int, e as int));
    mid
}

/// The pieces of `s` between occurrences of `sep`, in order; `n` separators give
/// `n + 1` pieces (some possibly empty), as `str::split` with a single character does.
pub open spec fn split_spec(s: Seq<u8>, sep: u8) -> Seq<Seq<u8>>
    decreases s.len(),
{
    if s.len() == 0 {
        seq![Seq::<u8>::empty()]
    } else {
        let rest = split_spec(s.drop_last(), sep);
        if s.last() == sep {
            rest.push(Seq::<u8>::empty())
        } else {
            rest.update(rest.len() - 1, rest.last().push(s.last()))
        }
    }
}

/// A split always yields at least one piece.
pub proof fn lemma_split_nonempty(s: Seq<u8>, sep: u8)
    ensures
        split_spec(s, sep).len() >= 1,
    decreases s.len(),
{
    if s.len() > 0 {
        lemma_split_nonempty(s.drop_last(), sep);
    }
}

/// Split `s` at every occurrence of `sep`.
pub fn split_fields(s: &[u8], sep: u8) -> (parts: Vec<Vec<u8>>)
    ensures
        parts.deep_view() == split_spec(s@, sep),
        parts@.len() >= 1,
{
    let mut done: Vec<Vec<u8>> = Vec::new();
    let mut cur: Vec<u8> = Vec::new();
    let mut i: usize = 0;
    assert(s@.take(0) =~= Seq::<u8>::empty());
    while i < s.len()
        invariant
            i <= s@.len(),
            done.deep_view().push(cur@) == split_spec(s@.take(i as int), sep),
        decreases s@.len() - i,
    {
        let c = s[i];
        let ghost prev = split_spec(s@.take(i as int), sep);
        assert(s@.take(i + 1).drop_last() =~= s@.take(i as int));
        if c == sep {
            let finished = cur;
            let ghost fv = finished@;
            assert(finished.deep_view() =~= fv);
            done.push(finished);
            cur = Vec::new();
            assert(done.deep_view() =~= prev.drop_last().push(fv));
            assert(done.deep_view() =~= prev);
            assert(done.deep_view().push(cur@) =~= prev.push(Seq::<u8>::empty()));
        } else {
            cur.push(c);
            assert(done.deep_view().push(cur@) =~= prev.update(prev.len() - 1, prev.last().push(c)));
        }
        i = i + 1;
    }
    assert(s@.take(s@.len() as int) =~= s@);
    let ghost done_before = done.deep_view();
    let ghost cv = cur@;
    assert(cur.deep_view() =~= cv);
    done.push(cur);
    assert(done.deep_view() =~= done_before.push(cv));
    proof {
        lemma_split_nonempty(s@, sep);
    }
    done
}

/// Whether `s` ends with `suffix`.
pub open spec fn ends_with_spec(s: Seq<u8>, suffix: Seq<u8>) -> bool {
    suffix.len() <= s.len() && s.subrange(s.len() - suffix.len(), s.len() as int) == suffix
}

/// Whether `s` ends with `suffix`.
pub fn ends_with(s: &[u8], suffix: &[u8]) -> (r: bool)
    ensures
        r == ends_with_spec(s@, suffix@),
{
    if suffix.len() > s.len() {
        return false;
    }
    let n = s.len();
    let off = n - suffix.len();
    let mut i: usize = 0;
    while i < suffix.len()
        invariant
            off + suffix@.len() == s@.len(),
            s@.len() <= usize::MAX,
            i <= suffix@.len(),
            forall|k: int| 0 <= k < i ==> s@[off + k] == suffix@[k],
        decreases suffix@.len() - i,
    {
        if s[off + i] != suffix[i] {
            assert(s@.subrange(off as int, s@.len() as int)[i as int] != suffix@[i as int]);
            return false;
        }
        i = i + 1;
    }
    assert(s@.subrange(off as int, s@.len() as int) =~= suffix@);
    true
}

/// Whether the bytes of `a` and `b` are equal.
pub fn bytes_eq(a: &[u8], b: &[u8]) -> (r: bool)
    ensures
        r == (a@ == b@),
{
    if a.len() != b.len() {
        return false;
    }
    let mut i: usize = 0;
    while i < a.len()
        invariant
            a@.len() == b@.len(),
            i <= a@.len(),
            forall|k: int| 0 <= k < i ==> a@[k] == b@[k],
        decreases a@.len() - i,
    {
        if a[i] != b[i] {
            return false;
        }
        i = i + 1;
    }
    assert(a@ =~= b@);
    true
}

/// The value of an ASCII digit in base `radix` (digits `0-9`, then letters of either
/// case), or `None` when the byte is not a digit of that base.
pub open spec fn digit_value(c: u8, radix: int) -> Option<int> {
    let v: int = if 48 <= c <= 57 {
        c - 48
    } else if 97 <= c <= 122 {
        c - 97 + 10
    } else if 65 <= c <= 90 {
        c - 65 + 10
    } else {
        99
    };
    if v < radix {
        Some(v)
    } else {
        None
    }
}

/// The value of a sequence of digits in base `radix`, or `None` when a byte is not a digit.
pub open spec fn digits_value(s: Seq<u8>, radix: int) -> Option<int>
    decreases s.len(),
{
    if s.len() == 0 {
        Some(0)
    } else {
        match (digits_value(s.drop_last(), radix), digit_value(s.last(), radix)) {
            (Some(v), Some(d)) => Some(v * radix + d),
            _ => None,
        }
    }
}

/// What the standard library's unsigned `from_str_radix` yields for `s`: a value
/// when `s` is an optional `+` followed by at least one digit and the value is at
/// most `max`, otherwise nothing.
pub open spec fn parse_unsigned_spec(s: Seq<u8>, radix: int, max: int) -> Option<int> {
    let digits = if s.len() > 0 && s[0] == 43u8 {
        s.drop_first()
    } else {
        s
    };
    if digits.len() == 0 {
        None
    } else {
        match digits_value(digits, radix) {
            Some(v) => if v <= max {
                Some(v)
            } else {
                None
            },
            None => None,
        }
    }
}

/// Digit values only grow as digits are appended.
proof fn lemma_digits_monotone(s: Seq<u8>, radix: int, n: int)
    requires
        radix >= 2,
        0 <= n <= s.len(),
        digits_value(s, radix) is Some,
    ensures
        digits_value(s.take(n), radix) is Some,
        0 <= digits_value(s.take(n), radix).unwrap() <= digits_value(s, radix).unwrap(),
    decreases s.len(),
{
    assert(s.take(s.len() as int) =~= s);
    if s.len() > 0 {
        let p = s.drop_last();
        if n < s.len() {
            assert(s.take(n) =~= p.take(n));
            lemma_digits_monotone(p, radix, n);
        }
        lemma_digits_monotone(p, radix, p.len() as int);
        assert(p.take(p.len() as int) =~= p);
        let v = digits_value(p, radix).unwrap();
        let d = digit_value(s.last(), radix).unwrap();
        assert(v * radix + d >= v) by (nonlinear_arith)
            requires
                v >= 0,
                d >= 0,
                radix >= 2,
        ;
    }
}

/// The value of an ASCII digit in base `radix` (up to 36).
pub fn to_digit(c: u8, radix: u32) -> (r: Option<u32>)
    requires
        2 <= radix <= 36,
    ensures
        r matches Some(v) ==> digit_value(c, radix as int) == Some(v as int),
        r is None ==> digit_value(c, radix as int) is None,
{
    let v: u32 = if 48 <= c && c <= 57 {
        (c - 48) as u32
    } else if 97 <= c && c <= 122 {
        (c - 97 + 10) as u32
    } else if 65 <= c && c <= 90 {
        (c - 65 + 10) as u32
    } else {
        99
    };
    if v < radix {
        Some(v)
    } else {
        None
    }
}

/// Read an unsigned number in base `radix` as the standard library's
/// `from_str_radix` does for an unsigned type whose largest value is `max`.
pub fn parse_unsigned(s: &[u8], radix: u32, max: u64) -> (r: Option<u64>)
    requires
        2 <= radix <= 36,
    ensures
        r matches Some(v) ==> parse_unsigned_spec(s@, radix as int, max as int) == Some(v as int),
        r is None ==> parse_unsigned_spec(s@, radix as int, max as int) is None,
{
    let start: usize = if s.len() > 0 && s[0] == 43u8 {
        1
    } else {
        0
    };
    let ghost digits = if s@.len() > 0 && s@[0] == 43u8 {
        s@.drop_first()
    } else {
        s@
    };
    assert(digits =~= s@.subrange(start as int, s@.len() as int));
    if start == s.len() {
        return None;
    }
    let mut acc: u64 = 0;
    let mut i: usize = start;
    while i < s.len()
        invariant
            start <= i <= s@.len(),
            digits =~= s@.subrange(start as int, s@.len() as int),
            digits == (if s@.len() > 0 && s@[0] == 43u8 {
                s@.drop_first()
            } else {
                s@
            }),
            2 <= radix <= 36,
            digits_value(digits.take(i - start), radix as int) == Some(acc as int),
            acc <= max,
        decreases s@.len() - i,
    {
        assert(digits.take(i - start + 1).drop_last() =~= digits.take(i - start));
        assert(digits.take(i - start + 1).last() == s@[i as int]);
        match to_digit(s[i], radix) {
            None => {
                proof {
                    assert(digits_value(digits.take(i - start + 1), radix as int) is None);
                    if digits_value(digits, radix as int) is Some {
                        lemma_digits_monotone(digits, radix as int, i - start + 1);
                    }
                    assert(digits_value(digits, radix as int) is None);
                    assert(digits.len() > 0);
                }
                return None;
            },
            Some(d) => {
                let ghost nv = acc as int * radix as int + d as int;
                assert(digits_value(digits.take(i - start + 1), radix as int) == Some(nv));
                if d as u64 > max || acc > (max - d as u64) / (radix as u64) {
                    proof {
                        if d <= max {
                            assert(nv > max) by (nonlinear_arith)
                                requires
                                    acc > (max - d) / (radix as int),
                                    nv == acc * radix + d,
                                    radix >= 2,
                                    d <= max,
                            ;
                        } else {
                            assert(nv > max) by (nonlinear_arith)
                                requires
                                    acc >= 0,
                                    nv == acc * radix + d,
                                    radix >= 2,
                                    d > max,
                            ;
                        }
                        if digits_value(digits, radix as int) is Some {
                            lemma_digits_monotone(digits, radix as int, i - start + 1);
                            assert(digits_value(digits, radix as int).unwrap() > max);
                        }
                        assert(digits.len() > 0);
                    }
                    return None;
                }
                proof {
                    assert(nv <= max) by (nonlinear_arith)
                        requires
                            acc <= (max - d) / (radix as int),
                            nv == acc * radix + d,
                            radix >= 2,
                            d <= max,
                    ;
                }
                acc = acc * (radix as u64) + (d as u64);
            },
        }
        i = i + 1;
    }
    assert(digits.take(digits.len() as int) =~= digits);
    Some(acc)
}

} // verus!
