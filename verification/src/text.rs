//! Reading text: ASCII strings position by position, and the white space around a text.

use vstd::prelude::*;
use vstd::std_specs::iter::IteratorSpec;
use vstd::string::StrSliceExecFns;

verus! {

/// Whether `c` is an ASCII letter or digit.
pub open spec fn is_alnum(c: char) -> bool {
    ||| '0' <= c <= '9'
    ||| 'a' <= c <= 'z'
    ||| 'A' <= c <= 'Z'
}

/// Whether `s` consists of ASCII letters and digits only.
pub open spec fn all_alnum(s: Seq<char>) -> bool {
    forall|i: int| 0 <= i < s.len() ==> is_alnum(#[trigger] s[i])
}

/// Where the longest run of ASCII letters and digits that starts at `from` ends: the index
/// of the first character at or after `from` that is neither, or the length of `s`.
pub open spec fn alnum_run(s: Seq<char>, from: int) -> int
    decreases s.len() - from,
{
    if 0 <= from < s.len() && is_alnum(s[from]) {
        alnum_run(s, from + 1)
    } else {
        from
    }
}

/// What [`alnum_run`] returns delimits letters and digits, and stops at the first character
/// that is neither.
pub proof fn lemma_alnum_run(s: Seq<char>, from: int)
    requires
        0 <= from <= s.len(),
    ensures
        from <= alnum_run(s, from) <= s.len(),
        all_alnum(s.subrange(from, alnum_run(s, from))),
        alnum_run(s, from) < s.len() ==> !is_alnum(s[alnum_run(s, from)]),
    decreases s.len() - from,
{
    if from < s.len() && is_alnum(s[from]) {
        lemma_alnum_run(s, from + 1);
        let end = alnum_run(s, from);
        assert forall|i: int| 0 <= i < end - from implies is_alnum(
            #[trigger] s.subrange(from, end)[i],
        ) by {
            if i > 0 {
                assert(s.subrange(from + 1, end)[i - 1] == s[from + i]);
            }
        }
    }
}

/// A run of letters and digits that is followed by something else, or by nothing, is the
/// longest one.
pub proof fn lemma_alnum_run_is(s: Seq<char>, from: int, end: int)
    requires
        0 <= from <= end <= s.len(),
        all_alnum(s.subrange(from, end)),
        end < s.len() ==> !is_alnum(s[end]),
    ensures
        alnum_run(s, from) == end,
    decreases end - from,
{
    if from < end {
        assert(s.subrange(from, end)[0] == s[from]);
        assert forall|i: int| 0 <= i < end - (from + 1) implies is_alnum(
            #[trigger] s.subrange(from + 1, end)[i],
        ) by {
            assert(s.subrange(from, end)[i + 1] == s[from + 1 + i]);
        }
        lemma_alnum_run_is(s, from + 1, end);
    }
}

/// The number of characters of an ASCII string.
pub(crate) fn ascii_len(s: &str) -> (n: usize)
    requires
        s.is_ascii(),
    ensures
        n == s@.len(),
{
    broadcast use vstd::string::is_ascii_spec_bytes;

    s.as_bytes().len()
}

/// The character at position `i` of an ASCII string, as a byte.
pub(crate) fn ascii_at(s: &str, i: usize) -> (b: u8)
    requires
        s.is_ascii(),
        i < s@.len(),
    ensures
        b as char == s@[i as int],
        b < 0x80,
{
    s.get_ascii(i)
}

/// Whether the byte is an ASCII letter or digit.
pub(crate) fn is_alnum_byte(b: u8) -> (r: bool)
    ensures
        r == is_alnum(b as char),
{
    (b >= 0x30 && b <= 0x39) || (b >= 0x61 && b <= 0x7a) || (b >= 0x41 && b <= 0x5a)
}

/// Finds the end of the run of letters and digits that starts at `from`.
pub(crate) fn scan_alnum(s: &str, from: usize) -> (end: usize)
    requires
        s.is_ascii(),
        from <= s@.len(),
    ensures
        end == alnum_run(s@, from as int),
        from <= end <= s@.len(),
{
    let n: usize = ascii_len(s);
    let mut i: usize = from;
    while i < n && is_alnum_byte(ascii_at(s, i))
        invariant
            s.is_ascii(),
            n == s@.len(),
            from <= i <= n,
            alnum_run(s@, from as int) == alnum_run(s@, i as int),
        decreases n - i,
    {
        i += 1;
    }
    proof {
        lemma_alnum_run(s@, i as int);
    }
    i
}

/// Whether `s` continues at position `at` with the whole of `part`.
pub open spec fn has_at(s: Seq<char>, at: int, part: Seq<char>) -> bool {
    &&& 0 <= at
    &&& at + part.len() <= s.len()
    &&& s.subrange(at, at + part.len()) == part
}

/// Tests whether `s` continues at position `at` with the whole of `part`.
pub(crate) fn starts_with_at(s: &str, at: usize, part: &str) -> (r: bool)
    requires
        s.is_ascii(),
        part.is_ascii(),
        at <= s@.len(),
    ensures
        r == has_at(s@, at as int, part@),
{
    let n: usize = ascii_len(s);
    let m: usize = ascii_len(part);
    if m > n - at {
        return false;
    }
    let mut k: usize = 0;
    while k < m
        invariant
            s.is_ascii(),
            part.is_ascii(),
            n == s@.len(),
            m == part@.len(),
            at + m <= n,
            k <= m,
            s@.subrange(at as int, at + k) == part@.subrange(0, k as int),
        decreases m - k,
    {
        if ascii_at(s, at + k) != ascii_at(part, k) {
            assert(s@.subrange(at as int, at + m)[k as int] != part@[k as int]);
            return false;
        }
        proof {
            assert(s@.subrange(at as int, at + k + 1) =~= s@.subrange(at as int, at + k).push(
                s@[at + k],
            ));
            assert(part@.subrange(0, k + 1) =~= part@.subrange(0, k as int).push(part@[k as int]));
        }
        k += 1;
    }
    assert(part@.subrange(0, m as int) =~= part@);
    true
}

/// Whether every character of `s` is an ASCII letter or digit.
pub fn is_all_alnum(s: &str) -> (r: bool)
    ensures
        r == all_alnum(s@),
{
    if !s.is_ascii() {
        proof {
            let i = choose|i: int| 0 <= i < s@.len() && !('\0' <= #[trigger] s@[i] <= '\u{7f}');
            assert(!is_alnum(s@[i]));
        }
        return false;
    }
    let end: usize = scan_alnum(s, 0);
    proof {
        lemma_alnum_run(s@, 0);
        if end == s@.len() {
            assert(s@.subrange(0, end as int) =~= s@);
        }
    }
    end == ascii_len(s)
}

/// The characters of a string.
pub(crate) fn to_chars(s: &str) -> (v: Vec<char>)
    ensures
        v@ == s@,
{
    let mut v: Vec<char> = Vec::new();
    for c in it: s.chars()
        invariant
            v@ == s@.take(it.index() as int),
            it.seq() == s@,
    {
        v.push(c);
    }
    v
}

/// Whether `c` is white space: one of the characters with the Unicode property
/// `White_Space`.
pub open spec fn is_whitespace(c: char) -> bool {
    ||| '\u{9}' <= c <= '\u{d}'
    ||| c == ' '
    ||| c == '\u{85}'
    ||| c == '\u{a0}'
    ||| c == '\u{1680}'
    ||| '\u{2000}' <= c <= '\u{200a}'
    ||| c == '\u{2028}'
    ||| c == '\u{2029}'
    ||| c == '\u{202f}'
    ||| c == '\u{205f}'
    ||| c == '\u{3000}'
}

/// Where the white space at the start of `s` ends, looking from `from` on.
pub open spec fn whitespace_run(s: Seq<char>, from: int) -> int
    decreases s.len() - from,
{
    if 0 <= from < s.len() && is_whitespace(s[from]) {
        whitespace_run(s, from + 1)
    } else {
        from
    }
}

/// Where the white space at the end of `s` begins, looking at the first `to` characters.
pub open spec fn whitespace_run_back(s: Seq<char>, to: int) -> int
    decreases to,
{
    if 0 < to <= s.len() && is_whitespace(s[to - 1]) {
        whitespace_run_back(s, to - 1)
    } else {
        to
    }
}

/// `s` without the white space at its start and at its end.
pub open spec fn trimmed(s: Seq<char>) -> Seq<char> {
    let start = whitespace_run(s, 0);
    if start >= s.len() {
        Seq::<char>::empty()
    } else {
        s.subrange(start, whitespace_run_back(s, s.len() as int))
    }
}

/// The two runs of white space lie inside the sequence and, unless the sequence is white
/// space only, do not meet.
pub proof fn lemma_whitespace_runs(s: Seq<char>, from: int, to: int)
    requires
        0 <= from <= s.len(),
        0 <= to <= s.len(),
    ensures
        from <= whitespace_run(s, from) <= s.len(),
        0 <= whitespace_run_back(s, to) <= to,
        whitespace_run(s, from) < to ==> whitespace_run(s, from) < whitespace_run_back(s, to),
    decreases s.len() - from, to,
{
    if from < s.len() && is_whitespace(s[from]) {
        lemma_whitespace_runs(s, from + 1, to);
    } else if 0 < to && is_whitespace(s[to - 1]) {
        lemma_whitespace_runs(s, from, to - 1);
    }
}

/// Whether the character is white space.
pub(crate) fn is_whitespace_char(c: char) -> (r: bool)
    ensures
        r == is_whitespace(c),
{
    ('\u{9}' <= c && c <= '\u{d}') || c == ' ' || c == '\u{85}' || c == '\u{a0}' || c
        == '\u{1680}' || ('\u{2000}' <= c && c <= '\u{200a}') || c == '\u{2028}' || c
        == '\u{2029}' || c == '\u{202f}' || c == '\u{205f}' || c == '\u{3000}'
}

/// The bounds of what is left of `s` when the white space at both ends is taken away.
pub(crate) fn trim_bounds(s: &Vec<char>) -> (r: (usize, usize))
    ensures
        r.0 <= r.1 <= s@.len(),
        s@.subrange(r.0 as int, r.1 as int) == trimmed(s@),
{
    let n: usize = s.len();
    let mut start: usize = 0;
    while start < n && is_whitespace_char(s[start])
        invariant
            n == s@.len(),
            start <= n,
            whitespace_run(s@, 0) == whitespace_run(s@, start as int),
        decreases n - start,
    {
        start += 1;
    }
    if start == n {
        assert(s@.subrange(n as int, n as int) =~= Seq::<char>::empty());
        return (n, n);
    }
    let mut end: usize = n;
    while end > 0 && is_whitespace_char(s[end - 1])
        invariant
            n == s@.len(),
            end <= n,
            whitespace_run_back(s@, n as int) == whitespace_run_back(s@, end as int),
        decreases end,
    {
        end -= 1;
    }
    proof {
        lemma_whitespace_runs(s@, 0, n as int);
    }
    (start, end)
}

/// `s` without the white space at its start and at its end.
pub fn trim(s: &str) -> (r: &str)
    ensures
        r@ == trimmed(s@),
{
    let chars = to_chars(s);
    let (start, end) = trim_bounds(&chars);
    s.substring_char(start, end)
}

} // verus!
