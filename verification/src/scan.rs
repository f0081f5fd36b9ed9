//! Character-level scanning: substring search, whitespace trimming,
//! splitting and unsigned decimal parsing, each with the meaning the
//! corresponding `str` operation has.
use vstd::prelude::*;

verus! {

/// Whether `p` occurs in `h` at position `i`.
pub open spec fn occurs_at(h: Seq<char>, p: Seq<char>, i: int) -> bool {
    0 <= i && i + p.len() <= h.len() && h.subrange(i, i + p.len()) == p
}

/// The first position at or after `start` where `p` occurs in `h`.
pub open spec fn find_from(h: Seq<char>, p: Seq<char>, start: int) -> Option<int>
    decreases h.len() + 1 - start,
{
    if start < 0 || start + p.len() > h.len() {
        None
    } else if occurs_at(h, p, start) {
        Some(start)
    } else {
        find_from(h, p, start + 1)
    }
}

/// A found position is an occurrence at or after the start.
pub proof fn lemma_find_from_found(h: Seq<char>, p: Seq<char>, start: int)
    ensures
        find_from(h, p, start) matches Some(i) ==> start <= i && occurs_at(h, p, i),
    decreases h.len() + 1 - start,
{
    if !(start < 0 || start + p.len() > h.len()) && !occurs_at(h, p, start) {
        lemma_find_from_found(h, p, start + 1);
    }
}

/// Whether `p` occurs in `h` at position `i`.
pub fn matches_at(h: &[char], p: &[char], i: usize) -> (r: bool)
    ensures
        r == occurs_at(h@, p@, i as int),
{
    if i > h.len() || p.len() > h.len() - i {
        return false;
    }
    let mut j: usize = 0;
    while j < p.len()
        invariant
            i + p@.len() <= h@.len(),
            j <= p@.len(),
            forall|k: int| 0 <= k < j ==> h@[i + k] == p@[k],
        decreases p@.len() - j,
    {
        assert(i + j < h.len());
        if h[i + j] != p[j] {
            assert(h@.subrange(i as int, i + p@.len())[j as int] != p@[j as int]);
            return false;
        }
        j = j + 1;
    }
    assert(h@.subrange(i as int, i + p@.len()) == p@);
    true
}

/// Whether two character sequences are equal.
pub fn same_chars(a: &[char], b: &[char]) -> (r: bool)
    ensures
        r == (a@ == b@),
{
    if a.len() != b.len() {
        return false;
    }
    let r = matches_at(a, b, 0);
    proof {
        if r {
            assert(occurs_at(a@, b@, 0));
            assert(a@.subrange(0, b@.len() as int) == a@);
        } else {
            if a@ == b@ {
                assert(a@.subrange(0, b@.len() as int) == a@);
            }
        }
    }
    r
}

/// First occurrence of `p` in `h` at or after `start`.
pub fn find_chars(h: &[char], p: &[char], start: usize) -> (r: Option<usize>)
    ensures
        r matches Some(i) ==> find_from(h@, p@, start as int) == Some(i as int),
        r is None ==> find_from(h@, p@, start as int) is None,
{
    if p.len() > h.len() || start > h.len() - p.len() {
        return None;
    }
    let limit = h.len() - p.len();
    let mut i: usize = start;
    loop
        invariant
            p@.len() <= h@.len(),
            limit == h@.len() - p@.len(),
            start <= i <= limit,
            find_from(h@, p@, start as int) == find_from(h@, p@, i as int),
        decreases limit - i,
    {
        if matches_at(h, p, i) {
            return Some(i);
        }
        if i == limit {
            assert(find_from(h@, p@, i + 1) is None);
            return None;
        }
        i = i + 1;
    }
}

/// Unicode `White_Space`, as `char::is_whitespace` defines it.
pub open spec fn is_ws(c: char) -> bool {
    ||| ('\u{9}' <= c && c <= '\u{d}')
    ||| c == ' '
    ||| c == '\u{85}'
    ||| c == '\u{a0}'
    ||| c == '\u{1680}'
    ||| ('\u{2000}' <= c && c <= '\u{200a}')
    ||| c == '\u{2028}'
    ||| c == '\u{2029}'
    ||| c == '\u{202f}'
    ||| c == '\u{205f}'
    ||| c == '\u{3000}'
}

/// Whether a character is Unicode white space.
pub fn is_whitespace(c: char) -> (r: bool)
    ensures
        r == is_ws(c),
{
    ('\u{9}' <= c && c <= '\u{d}') || c == ' ' || c == '\u{85}' || c == '\u{a0}' || c
        == '\u{1680}' || ('\u{2000}' <= c && c <= '\u{200a}') || c == '\u{2028}' || c
        == '\u{2029}' || c == '\u{202f}' || c == '\u{205f}' || c == '\u{3000}'
}

/// First position at or after `i` that holds no white space (or the end).
pub open spec fn skip_ws(s: Seq<char>, i: int) -> int
    decreases s.len() - i,
{
    if i < 0 || i >= s.len() {
        if i < 0 { 0 } else { s.len() as int }
    } else if !is_ws(s[i]) {
        i
    } else {
        skip_ws(s, i + 1)
    }
}

/// End of the content in `s[lo..j]` once trailing white space is dropped.
pub open spec fn trim_end_at(s: Seq<char>, j: int, lo: int) -> int
    decreases j - lo,
{
    if j <= lo {
        lo
    } else if !is_ws(s[j - 1]) {
        j
    } else {
        trim_end_at(s, j - 1, lo)
    }
}

/// `s` without leading and trailing white space, as `str::trim` gives it.
pub open spec fn trimmed(s: Seq<char>) -> Seq<char> {
    let a = skip_ws(s, 0);
    s.subrange(a, trim_end_at(s, s.len() as int, a))
}

proof fn lemma_skip_ws_bounds(s: Seq<char>, i: int)
    requires
        0 <= i <= s.len(),
    ensures
        i <= skip_ws(s, i) <= s.len(),
    decreases s.len() - i,
{
    if i < s.len() && is_ws(s[i]) {
        lemma_skip_ws_bounds(s, i + 1);
    }
}

proof fn lemma_trim_end_bounds(s: Seq<char>, j: int, lo: int)
    requires
        lo <= j,
    ensures
        lo <= trim_end_at(s, j, lo) <= j,
    decreases j - lo,
{
    if j > lo && is_ws(s[j - 1]) {
        lemma_trim_end_bounds(s, j - 1, lo);
    }
}

/// Bounds `[a, b)` of the trimmed part of `s[lo..hi]`.
pub fn trim_bounds(s: &[char], lo: usize, hi: usize) -> (r: (usize, usize))
    requires
        lo <= hi <= s@.len(),
    ensures
        r.0 <= r.1 <= hi,
        lo <= r.0,
        s@.subrange(r.0 as int, r.1 as int) == trimmed(s@.subrange(lo as int, hi as int)),
{
    let ghost t = s@.subrange(lo as int, hi as int);
    let mut a = lo;
    while a < hi && is_whitespace(s[a])
        invariant
            lo <= a <= hi,
            hi <= s@.len(),
            t == s@.subrange(lo as int, hi as int),
            skip_ws(t, 0) == skip_ws(t, a - lo),
        decreases hi - a,
    {
        a = a + 1;
    }
    proof {
        assert(skip_ws(t, 0) == a - lo);
    }
    let mut b = hi;
    while b > a && is_whitespace(s[b - 1])
        invariant
            a <= b <= hi,
            lo <= a,
            hi <= s@.len(),
            t == s@.subrange(lo as int, hi as int),
            skip_ws(t, 0) == a - lo,
            trim_end_at(t, t.len() as int, a - lo) == trim_end_at(t, b - lo, a - lo),
        decreases b - a,
    {
        b = b - 1;
    }
    proof {
        assert(trim_end_at(t, b - lo, a - lo) == b - lo);
        assert(t.subrange(a - lo, b - lo) == s@.subrange(a as int, b as int));
    }
    (a, b)
}

/// Parts of `s[pos..]` separated by `sep`, as `str::split` yields them.
pub open spec fn split_from(s: Seq<char>, sep: Seq<char>, pos: int) -> Seq<Seq<char>>
    decreases s.len() - pos,
{
    if pos < 0 || pos > s.len() || sep.len() == 0 {
        seq![s.subrange(pos, s.len() as int)]
    } else {
        match find_from(s, sep, pos) {
            None => seq![s.subrange(pos, s.len() as int)],
            Some(i) => if i < pos || i + sep.len() > s.len() {
                seq![s.subrange(pos, s.len() as int)]
            } else {
                seq![s.subrange(pos, i)] + split_from(s, sep, i + sep.len())
            },
        }
    }
}

/// The part of `s` before the first `sep`: the first part `split` yields.
pub open spec fn head_before(s: Seq<char>, sep: Seq<char>) -> Seq<char> {
    match find_from(s, sep, 0) {
        Some(i) => s.subrange(0, i),
        None => s,
    }
}

/// Parts of `s` separated by a nonempty `sep`.
pub fn split_chars(s: &[char], sep: &[char]) -> (r: Vec<Vec<char>>)
    requires
        sep@.len() > 0,
    ensures
        r@.len() == split_from(s@, sep@, 0).len(),
        forall|k: int| 0 <= k < r@.len() ==> #[trigger] r@[k]@ == split_from(s@, sep@, 0)[k],
{
    let mut out: Vec<Vec<char>> = Vec::new();
    let mut pos: usize = 0;
    loop
        invariant_except_break
            sep@.len() > 0,
            pos <= s@.len(),
            split_from(s@, sep@, 0) == out@.map_values(|v: Vec<char>| v@) + split_from(
                s@,
                sep@,
                pos as int,
            ),
        ensures
            split_from(s@, sep@, 0) == out@.map_values(|v: Vec<char>| v@),
        decreases s@.len() - pos,
    {
        let found = find_chars(s, sep, pos);
        proof {
            lemma_find_from_found(s@, sep@, pos as int);
        }
        match found {
            None => {
                let part = slice_chars(s, pos, s.len());
                let ghost before = out@.map_values(|v: Vec<char>| v@);
                out.push(part);
                assert(out@.map_values(|v: Vec<char>| v@) == before.push(part@));
                assert(split_from(s@, sep@, 0) == out@.map_values(|v: Vec<char>| v@));
                break ;
            },
            Some(i) => {
                let part = slice_chars(s, pos, i);
                let ghost before = out@.map_values(|v: Vec<char>| v@);
                out.push(part);
                assert(out@.map_values(|v: Vec<char>| v@) == before.push(part@));
                assert(before + split_from(s@, sep@, pos as int) == before.push(part@)
                    + split_from(s@, sep@, i + sep@.len()));
                assert(i + sep@.len() <= s.len());
                pos = i + sep.len();
            },
        }
    }
    proof {
        assert forall|k: int| 0 <= k < out@.len() implies #[trigger] out@[k]@ == split_from(
            s@,
            sep@,
            0,
        )[k] by {
            assert(out@.map_values(|v: Vec<char>| v@)[k] == out@[k]@);
        }
    }
    out
}

/// A copy of `s[lo..hi]`.
pub fn slice_chars(s: &[char], lo: usize, hi: usize) -> (r: Vec<char>)
    requires
        lo <= hi <= s@.len(),
    ensures
        r@ == s@.subrange(lo as int, hi as int),
{
    let mut out: Vec<char> = Vec::new();
    let mut i = lo;
    while i < hi
        invariant
            lo <= i <= hi,
            hi <= s@.len(),
            out@ == s@.subrange(lo as int, i as int),
        decreases hi - i,
    {
        out.push(s[i]);
        assert(s@.subrange(lo as int, i + 1) == s@.subrange(lo as int, i as int).push(s@[i as int]));
        i = i + 1;
    }
    out
}

/// The part of `s` before the first `sep`.
pub fn head_before_chars(s: &[char], sep: &[char]) -> (r: Vec<char>)
    ensures
        r@ == head_before(s@, sep@),
{
    proof {
        lemma_find_from_found(s@, sep@, 0);
    }
    match find_chars(s, sep, 0) {
        Some(i) => slice_chars(s, 0, i),
        None => slice_chars(s, 0, s.len()),
    }
}

/// The trimmed copy of `s`.
pub fn trim_chars(s: &[char]) -> (r: Vec<char>)
    ensures
        r@ == trimmed(s@),
{
    let (a, b) = trim_bounds(s, 0, s.len());
    assert(s@.subrange(0, s@.len() as int) == s@);
    slice_chars(s, a, b)
}

/// Numeric value of a decimal digit character.
pub open spec fn digit_value(c: char) -> int {
    c as int - '0' as int
}

/// Whether every character is an ASCII digit.
pub open spec fn all_digits(s: Seq<char>) -> bool {
    forall|k: int| 0 <= k < s.len() ==> '0' <= #[trigger] s[k] && s[k] <= '9'
}

/// Value of a string of decimal digits.
pub open spec fn digits_value(s: Seq<char>) -> int
    decreases s.len(),
{
    if s.len() == 0 {
        0
    } else {
        digits_value(s.drop_last()) * 10 + digit_value(s.last())
    }
}

/// The unsigned integer `s` denotes, as `str::parse` of an unsigned type
/// with maximum `max` accepts it: an optional `+` and at least one decimal
/// digit, with no other character, and a value not above `max`.
pub open spec fn parse_unsigned(s: Seq<char>, max: int) -> Option<int> {
    let digits = if s.len() > 0 && s[0] == '+' {
        s.drop_first()
    } else {
        s
    };
    if digits.len() == 0 || !all_digits(digits) || digits_value(digits) > max {
        None
    } else {
        Some(digits_value(digits))
    }
}

proof fn lemma_digits_value_prefix(s: Seq<char>, k: int)
    requires
        all_digits(s),
        0 <= k <= s.len(),
    ensures
        0 <= digits_value(s.subrange(0, k)) <= digits_value(s),
    decreases s.len(),
{
    if s.len() > 0 {
        let r = s.drop_last();
        assert(all_digits(r)) by {
            assert forall|j: int| 0 <= j < r.len() implies '0' <= #[trigger] r[j] && r[j] <= '9' by {
                assert(r[j] == s[j]);
            }
        }
        if k == s.len() {
            assert(s.subrange(0, k) == s);
            lemma_digits_value_prefix(r, r.len() as int);
            assert(r.subrange(0, r.len() as int) == r);
        } else {
            lemma_digits_value_prefix(r, k);
            assert(r.subrange(0, k) == s.subrange(0, k));
            lemma_digits_value_prefix(r, r.len() as int);
            assert(r.subrange(0, r.len() as int) == r);
            assert('0' <= s[s.len() - 1] <= '9');
        }
    }
}

/// Parse an unsigned decimal not above `max`.
pub fn parse_unsigned_chars(s: &[char], max: u64) -> (r: Option<u64>)
    ensures
        r matches Some(v) ==> parse_unsigned(s@, max as int) == Some(v as int),
        r is None ==> parse_unsigned(s@, max as int) is None,
{
    let start: usize = if s.len() > 0 && s[0] == '+' {
        1
    } else {
        0
    };
    let ghost digits = s@.subrange(start as int, s@.len() as int);
    proof {
        if s@.len() > 0 && s@[0] == '+' {
            assert(digits == s@.drop_first());
        } else {
            assert(digits == s@);
        }
    }
    if start == s.len() {
        assert(digits.len() == 0);
        return None;
    }
    let mut i = start;
    while i < s.len()
        invariant
            start <= i <= s@.len(),
            digits == s@.subrange(start as int, s@.len() as int),
            digits == (if s@.len() > 0 && s@[0] == '+' {
                s@.drop_first()
            } else {
                s@
            }),
            forall|k: int| start <= k < i ==> '0' <= #[trigger] s@[k] && s@[k] <= '9',
        decreases s@.len() - i,
    {
        if !('0' <= s[i] && s[i] <= '9') {
            assert(digits[i - start] == s@[i as int]);
            return None;
        }
        i = i + 1;
    }
    assert(all_digits(digits)) by {
        assert forall|k: int| 0 <= k < digits.len() implies '0' <= #[trigger] digits[k]
            && digits[k] <= '9' by {
            assert(digits[k] == s@[start + k]);
        }
    }
    let mut acc: u64 = 0;
    let mut j = start;
    while j < s.len()
        invariant
            start <= j <= s@.len(),
            digits == s@.subrange(start as int, s@.len() as int),
            digits == (if s@.len() > 0 && s@[0] == '+' {
                s@.drop_first()
            } else {
                s@
            }),
            all_digits(digits),
            acc as int == digits_value(digits.subrange(0, j - start)),
            acc <= max,
        decreases s@.len() - j,
    {
        assert(digits[j - start] == s@[j as int]);
        assert('0' <= s@[j as int] <= '9');
        let d = (s[j] as u32 - '0' as u32) as u64;
        assert(digits.subrange(0, j + 1 - start).drop_last() == digits.subrange(0, j - start));
        if d > max || acc > (max - d) / 10 {
            proof {
                if d <= max {
                    assert(acc * 10 + d > max) by (nonlinear_arith)
                        requires
                            acc > (max - d) / 10,
                            d <= max,
                    ;
                }
                lemma_digits_value_prefix(digits, j + 1 - start);
            }
            return None;
        }
        proof {
            assert(acc * 10 + d <= max) by (nonlinear_arith)
                requires
                    acc <= (max - d) / 10,
                    d <= max,
            ;
        }
        acc = acc * 10 + d;
        j = j + 1;
    }
    assert(digits.subrange(0, digits.len() as int) == digits);
    Some(acc)
}

} // verus!
