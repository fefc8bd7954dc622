//! Character-sequence helpers shared by the parsing and matching logic:
//! whitespace trimming, exact equality, and ASCII case-insensitive equality.

use vstd::prelude::*;
use vstd::string::StrSliceExecFns;

verus! {

/// The whitespace characters stripped from command lines, credential files
/// and helper output: the Unicode white-space set, the same characters
/// that `str::trim` removes.
pub open spec fn is_space(c: char) -> bool {
    c == ' ' || ('\u{9}' <= c && c <= '\u{d}') || c == '\u{85}' || c == '\u{a0}' || c
        == '\u{1680}' || ('\u{2000}' <= c && c <= '\u{200a}') || c == '\u{2028}' || c == '\u{2029}'
        || c == '\u{202f}' || c == '\u{205f}' || c == '\u{3000}'
}

/// Index of the first non-whitespace character at or after `i`
/// (`s.len()` when the rest is all whitespace).
pub open spec fn scan_start(s: Seq<char>, i: int) -> int
    decreases s.len() - i,
{
    if i < 0 || i >= s.len() {
        s.len() as int
    } else if is_space(s[i]) {
        scan_start(s, i + 1)
    } else {
        i
    }
}

/// End (exclusive) of the trimmed region when scanning whitespace backwards
/// from `j`, never moving below `floor`.
pub open spec fn scan_end(s: Seq<char>, j: int, floor: int) -> int
    decreases j,
{
    if j <= floor || j < 1 || j > s.len() {
        floor
    } else if is_space(s[j - 1]) {
        scan_end(s, j - 1, floor)
    } else {
        j
    }
}

/// `s` with leading and trailing whitespace removed.
pub open spec fn trim_spec(s: Seq<char>) -> Seq<char> {
    let start = scan_start(s, 0);
    s.subrange(start, scan_end(s, s.len() as int, start))
}

pub fn is_space_char(c: char) -> (r: bool)
    ensures
        r == is_space(c),
{
    c == ' ' || ('\u{9}' <= c && c <= '\u{d}') || c == '\u{85}' || c == '\u{a0}' || c
        == '\u{1680}' || ('\u{2000}' <= c && c <= '\u{200a}') || c == '\u{2028}' || c == '\u{2029}'
        || c == '\u{202f}' || c == '\u{205f}' || c == '\u{3000}'
}

/// Trim whitespace from both ends of `s`, as the daemon does to command
/// lines, credential file contents and helper output.
pub fn trim_str(s: &str) -> (t: &str)
    ensures
        t@ == trim_spec(s@),
{
    let n = s.unicode_len();
    let mut start: usize = 0;
    while start < n && is_space_char(s.get_char(start))
        invariant
            n == s@.len(),
            0 <= start <= n,
            scan_start(s@, 0) == scan_start(s@, start as int),
        decreases n - start,
    {
        start = start + 1;
    }
    assert(scan_start(s@, start as int) == start);
    let mut end: usize = n;
    while end > start && is_space_char(s.get_char(end - 1))
        invariant
            n == s@.len(),
            0 <= start <= end <= n,
            scan_end(s@, n as int, start as int) == scan_end(s@, end as int, start as int),
        decreases end,
    {
        end = end - 1;
    }
    assert(scan_end(s@, end as int, start as int) == end);
    s.substring_char(start, end)
}

/// Exact equality of two string slices, by character.
pub fn str_eq(a: &str, b: &str) -> (r: bool)
    ensures
        r == (a@ == b@),
{
    let na = a.unicode_len();
    let nb = b.unicode_len();
    if na != nb {
        assert(a@ != b@);
        return false;
    }
    let mut i: usize = 0;
    while i < na
        invariant
            na == a@.len(),
            na == b@.len(),
            0 <= i <= na,
            forall|j: int| 0 <= j < i ==> a@[j] == b@[j],
        decreases na - i,
    {
        if a.get_char(i) != b.get_char(i) {
            assert(a@ != b@);
            return false;
        }
        i = i + 1;
    }
    assert(a@ =~= b@);
    true
}

/// A character's code point with ASCII upper-case letters folded to lower
/// case; all other characters are left alone.
pub open spec fn fold_lower(c: char) -> u32 {
    if 65 <= c as u32 <= 90 {
        (c as u32 + 32) as u32
    } else {
        c as u32
    }
}

/// ASCII case-insensitive equality of two character sequences.
pub open spec fn eq_ignore_case(a: Seq<char>, b: Seq<char>) -> bool {
    a.len() == b.len() && (forall|i: int| 0 <= i < a.len() ==> fold_lower(a[i]) == fold_lower(
        b[i],
    ))
}

fn fold_lower_char(c: char) -> (r: u32)
    ensures
        r == fold_lower(c),
{
    let u = c as u32;
    if 65 <= u && u <= 90 {
        u + 32
    } else {
        u
    }
}

/// ASCII case-insensitive equality of two string slices, as used to compare
/// the reported audio device against the configured target.
pub fn eq_ignore_case_str(a: &str, b: &str) -> (r: bool)
    ensures
        r == eq_ignore_case(a@, b@),
{
    let na = a.unicode_len();
    let nb = b.unicode_len();
    if na != nb {
        return false;
    }
    let mut i: usize = 0;
    while i < na
        invariant
            na == a@.len(),
            na == b@.len(),
            0 <= i <= na,
            forall|j: int| 0 <= j < i ==> fold_lower(a@[j]) == fold_lower(b@[j]),
        decreases na - i,
    {
        if fold_lower_char(a.get_char(i)) != fold_lower_char(b.get_char(i)) {
            return false;
        }
        i = i + 1;
    }
    true
}

} // verus!
