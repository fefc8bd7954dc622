//! Address resolution from a network-neighbour listing.
//!
//! The daemon finds the appliance's current IP address by scanning the
//! output of the host's neighbour table, one line at a time, for an entry of
//! the form `... (ip) at mac ...`: a parenthesised address followed by
//! ` at ` and a run of hexadecimal-or-colon characters, in either case.
//! The first line whose hardware address equals the configured target
//! (ASCII case-insensitively) yields the IP.

use vstd::prelude::*;
use vstd::string::StrSliceExecFns;
use crate::text::eq_ignore_case;
use crate::text::eq_ignore_case_str;

verus! {

/// Characters that may appear in a hardware address as a listing prints
/// it: hexadecimal digits of either case and colons, so an address printed
/// in upper case is captured just like a lower-case one.
pub open spec fn is_mac_char(c: char) -> bool {
    ('0' <= c && c <= '9') || ('a' <= c && c <= 'f') || ('A' <= c && c <= 'F') || c == ':'
}

fn is_mac_char_exec(c: char) -> (r: bool)
    ensures
        r == is_mac_char(c),
{
    ('0' <= c && c <= '9') || ('a' <= c && c <= 'f') || ('A' <= c && c <= 'F') || c == ':'
}

/// Least index at or after `i` holding `c`, or `s.len()` when there is
/// none.
pub open spec fn find_from(s: Seq<char>, i: int, c: char) -> int
    decreases s.len() - i,
{
    if i < 0 || i >= s.len() {
        s.len() as int
    } else if s[i] == c {
        i
    } else {
        find_from(s, i + 1, c)
    }
}

/// End of the run of hardware-address characters starting at `i`.
pub open spec fn run_end(s: Seq<char>, i: int) -> int
    decreases s.len() - i,
{
    if i < 0 || i >= s.len() || !is_mac_char(s[i]) {
        i
    } else {
        run_end(s, i + 1)
    }
}

/// The entry recognised at position `i` of a line, if any: an opening
/// parenthesis, a non-empty parenthesised address, the literal ` at `, and
/// a non-empty run of hardware-address characters.  The two captures are
/// the parenthesised address and the hardware address.
pub open spec fn match_at(s: Seq<char>, i: int) -> Option<(Seq<char>, Seq<char>)> {
    if !(0 <= i < s.len() && s[i] == '(') {
        Option::None
    } else {
        let j = find_from(s, i + 1, ')');
        if j >= s.len() || j == i + 1 || j + 5 > s.len() {
            Option::None
        } else if !(s[j + 1] == ' ' && s[j + 2] == 'a' && s[j + 3] == 't' && s[j + 4] == ' ') {
            Option::None
        } else {
            let k = run_end(s, j + 5);
            if k == j + 5 {
                Option::None
            } else {
                Option::Some((s.subrange(i + 1, j), s.subrange(j + 5, k)))
            }
        }
    }
}

/// The leftmost entry at or after position `i`.
pub open spec fn first_match_from(s: Seq<char>, i: int) -> Option<(Seq<char>, Seq<char>)>
    decreases s.len() - i,
{
    if i < 0 || i >= s.len() {
        Option::None
    } else if match_at(s, i) is Some {
        match_at(s, i)
    } else {
        first_match_from(s, i + 1)
    }
}

/// The leftmost `(ip) at mac` entry of a line, if any.
pub open spec fn line_capture(s: Seq<char>) -> Option<(Seq<char>, Seq<char>)> {
    first_match_from(s, 0)
}

/// A line terminated by a newline loses one trailing carriage return.
pub open spec fn strip_cr(s: Seq<char>) -> Seq<char> {
    if s.len() > 0 && s[s.len() - 1] == '\r' {
        s.drop_last()
    } else {
        s
    }
}

/// The listing split into lines: split at each newline, dropping a carriage
/// return right before it; a final fragment without a newline is a line of
/// its own, kept verbatim.
pub open spec fn lines_spec(s: Seq<char>) -> Seq<Seq<char>>
    decreases s.len(),
{
    if s.len() == 0 {
        Seq::empty()
    } else {
        let n = find_from(s, 0, '\n');
        if n < 0 || n >= s.len() {
            seq![s]
        } else {
            seq![strip_cr(s.subrange(0, n))] + lines_spec(
                s.subrange(n + 1, s.len() as int),
            )
        }
    }
}

/// The parenthesised address of the first line whose captured hardware
/// address equals `target` up to ASCII case.
pub open spec fn resolve_lines(lines: Seq<Seq<char>>, target: Seq<char>) -> Option<Seq<char>>
    decreases lines.len(),
{
    if lines.len() == 0 {
        Option::None
    } else {
        match line_capture(lines[0]) {
            Option::Some(cap) => if eq_ignore_case(cap.1, target) {
                Option::Some(cap.0)
            } else {
                resolve_lines(lines.drop_first(), target)
            },
            Option::None => resolve_lines(lines.drop_first(), target),
        }
    }
}

/// What resolution returns for a whole listing.
pub open spec fn resolve_spec(listing: Seq<char>, target: Seq<char>) -> Option<Seq<char>> {
    resolve_lines(lines_spec(listing), target)
}

/// Position and neighbourhood facts about `find_from`: nothing before the
/// found index holds `c`, and the found index does, when it is in range.
pub proof fn lemma_find_from_props(s: Seq<char>, i: int, c: char)
    requires
        0 <= i <= s.len(),
    ensures
        i <= find_from(s, i, c) <= s.len(),
        find_from(s, i, c) < s.len() ==> s[find_from(s, i, c)] == c,
        forall|k: int| i <= k < find_from(s, i, c) ==> s[k] != c,
    decreases s.len() - i,
{
    if i < s.len() && s[i] != c {
        lemma_find_from_props(s, i + 1, c);
    }
}

/// The run found by `run_end` consists of hardware-address characters and
/// nothing follows it that would extend it.
pub proof fn lemma_run_end_props(s: Seq<char>, i: int)
    requires
        0 <= i <= s.len(),
    ensures
        i <= run_end(s, i) <= s.len(),
        forall|k: int| i <= k < run_end(s, i) ==> is_mac_char(s[k]),
        run_end(s, i) < s.len() ==> !is_mac_char(s[run_end(s, i)]),
    decreases s.len() - i,
{
    if i < s.len() && is_mac_char(s[i]) {
        lemma_run_end_props(s, i + 1);
    }
}

/// What a recognised entry's captures look like: both are non-empty, the
/// parenthesised address holds no closing parenthesis, and the hardware
/// address is made of hexadecimal digits and colons only.
pub proof fn lemma_match_shape(s: Seq<char>, i: int)
    requires
        match_at(s, i) is Some,
    ensures
        ({
            let cap = match_at(s, i)->0;
            cap.0.len() > 0 && cap.1.len() > 0 && (forall|j: int|
                0 <= j < cap.0.len() ==> cap.0[j] != ')') && (forall|j: int|
                0 <= j < cap.1.len() ==> is_mac_char(cap.1[j]))
        }),
{
    let j = find_from(s, i + 1, ')');
    lemma_find_from_props(s, i + 1, ')');
    lemma_run_end_props(s, j + 5);
}

fn find_char(s: &str, from: usize, c: char) -> (r: usize)
    requires
        from <= s@.len(),
    ensures
        r == find_from(s@, from as int, c),
        from <= r <= s@.len(),
{
    let n = s.unicode_len();
    let mut i: usize = from;
    while i < n && s.get_char(i) != c
        invariant
            n == s@.len(),
            from <= i <= n,
            find_from(s@, from as int, c) == find_from(s@, i as int, c),
        decreases n - i,
    {
        i = i + 1;
    }
    i
}

fn run_end_exec(s: &str, from: usize) -> (r: usize)
    requires
        from <= s@.len(),
    ensures
        r == run_end(s@, from as int),
        from <= r <= s@.len(),
{
    let n = s.unicode_len();
    let mut i: usize = from;
    while i < n && is_mac_char_exec(s.get_char(i))
        invariant
            n == s@.len(),
            from <= i <= n,
            run_end(s@, from as int) == run_end(s@, i as int),
        decreases n - i,
    {
        i = i + 1;
    }
    i
}

fn try_match_at(s: &str, i: usize) -> (r: Option<(String, String)>)
    requires
        i < s@.len(),
    ensures
        (r is Some) == (match_at(s@, i as int) is Some),
        r matches Some(p) ==> p.0@ == (match_at(s@, i as int)->0).0 && p.1@ == (match_at(
            s@,
            i as int,
        )->0).1,
{
    let n = s.unicode_len();
    if s.get_char(i) != '(' {
        return None;
    }
    let j = find_char(s, i + 1, ')');
    if j >= n || j == i + 1 || n - j < 5 {
        return None;
    }
    if !(s.get_char(j + 1) == ' ' && s.get_char(j + 2) == 'a' && s.get_char(j + 3) == 't'
        && s.get_char(j + 4) == ' ') {
        return None;
    }
    let k = run_end_exec(s, j + 5);
    if k == j + 5 {
        return None;
    }
    Some((s.substring_char(i + 1, j).to_owned(), s.substring_char(j + 5, k).to_owned()))
}

/// The leftmost `(ip) at mac` entry of one line of the listing, as owned
/// strings.
pub fn line_capture_str(s: &str) -> (r: Option<(String, String)>)
    ensures
        (r is Some) == (line_capture(s@) is Some),
        r matches Some(p) ==> p.0@ == (line_capture(s@)->0).0 && p.1@ == (line_capture(s@)->0).1,
{
    let n = s.unicode_len();
    let mut i: usize = 0;
    while i < n
        invariant
            n == s@.len(),
            0 <= i <= n,
            line_capture(s@) == first_match_from(s@, i as int),
        decreases n - i,
    {
        match try_match_at(s, i) {
            Some(p) => {
                return Some(p);
            },
            None => {
                i = i + 1;
            },
        }
    }
    None
}

proof fn lemma_find_sub(s: Seq<char>, pos: int, i: int, c: char)
    requires
        0 <= pos,
        0 <= i,
        pos + i <= s.len(),
    ensures
        find_from(s.subrange(pos, s.len() as int), i, c) == find_from(s, pos + i, c) - pos,
    decreases s.len() - pos - i,
{
    let sub = s.subrange(pos, s.len() as int);
    if pos + i >= s.len() {
    } else if sub[i] == c {
    } else {
        lemma_find_sub(s, pos, i + 1, c);
    }
}

/// The listing split into its lines.
pub fn split_lines(s: &str) -> (r: Vec<String>)
    ensures
        r@.map_values(|l: String| l@) == lines_spec(s@),
{
    let n = s.unicode_len();
    let mut out: Vec<String> = Vec::new();
    let mut pos: usize = 0;
    proof {
        assert(s@.subrange(0, n as int) =~= s@);
        assert(out@.map_values(|l: String| l@) =~= Seq::<Seq<char>>::empty());
    }
    while pos < n
        invariant
            n == s@.len(),
            0 <= pos <= n,
            lines_spec(s@) =~= out@.map_values(|l: String| l@) + lines_spec(
                s@.subrange(pos as int, n as int),
            ),
        decreases n - pos,
    {
        let ghost prev = out@.map_values(|l: String| l@);
        let ghost suffix = s@.subrange(pos as int, n as int);
        let nl = find_char(s, pos, '\n');
        proof {
            lemma_find_sub(s@, pos as int, 0, '\n');
            assert(find_from(suffix, 0, '\n') == nl - pos);
        }
        if nl >= n {
            out.push(s.substring_char(pos, n).to_owned());
            proof {
                assert(lines_spec(suffix) =~= seq![suffix]);
                assert(out@.map_values(|l: String| l@) =~= prev + seq![suffix]);
                assert(lines_spec(s@) =~= out@.map_values(|l: String| l@) + lines_spec(
                    s@.subrange(n as int, n as int),
                ));
            }
            pos = n;
        } else {
            let line_end = if nl > pos && s.get_char(nl - 1) == '\r' {
                nl - 1
            } else {
                nl
            };
            out.push(s.substring_char(pos, line_end).to_owned());
            proof {
                let head = strip_cr(suffix.subrange(0, nl - pos));
                assert(suffix.subrange(0, nl - pos) =~= s@.subrange(pos as int, nl as int));
                assert(head =~= s@.subrange(pos as int, line_end as int));
                assert(suffix.subrange(nl - pos + 1, suffix.len() as int) =~= s@.subrange(
                    nl + 1,
                    n as int,
                ));
                assert(lines_spec(suffix) =~= seq![head] + lines_spec(
                    s@.subrange(nl + 1, n as int),
                ));
                assert(out@.map_values(|l: String| l@) =~= prev + seq![
                    s@.subrange(pos as int, line_end as int),
                ]);
                assert(lines_spec(s@) =~= out@.map_values(|l: String| l@) + lines_spec(
                    s@.subrange(nl + 1, n as int),
                ));
            }
            pos = nl + 1;
        }
    }
    proof {
        assert(lines_spec(s@.subrange(n as int, n as int)) =~= Seq::<Seq<char>>::empty());
        assert(lines_spec(s@) =~= out@.map_values(|l: String| l@));
    }
    out
}

/// Sequence of views of a vector of lines.
pub open spec fn line_views(l: Seq<String>) -> Seq<Seq<char>> {
    l.map_values(|s: String| s@)
}

/// Scan lines in order for the first whose hardware address matches the
/// target, and return its parenthesised address.
pub fn resolve_in_lines(lines: &Vec<String>, target_mac: &str) -> (r: Option<String>)
    ensures
        (r is Some) == (resolve_lines(line_views(lines@), target_mac@) is Some),
        r matches Some(ip) ==> ip@ == resolve_lines(line_views(lines@), target_mac@)->0,
{
    let ghost vs = line_views(lines@);
    let n = lines.len();
    let mut i: usize = 0;
    proof {
        assert(vs.skip(0) =~= vs);
    }
    while i < n
        invariant
            n == lines@.len(),
            0 <= i <= n,
            vs == line_views(lines@),
            resolve_lines(vs, target_mac@) == resolve_lines(vs.skip(i as int), target_mac@),
        decreases n - i,
    {
        proof {
            assert(vs.skip(i as int)[0] == lines@[i as int]@);
        }
        match line_capture_str(lines[i].as_str()) {
            Some(p) => {
                if eq_ignore_case_str(p.1.as_str(), target_mac) {
                    proof {
                        assert(resolve_lines(vs.skip(i as int), target_mac@) is Some);
                    }
                    return Some(p.0);
                } else {
                    proof {
                        assert(vs.skip(i as int).drop_first() =~= vs.skip(i as int + 1));
                    }
                }
            },
            None => {
                proof {
                    assert(vs.skip(i as int).drop_first() =~= vs.skip(i as int + 1));
                }
            },
        }
        i = i + 1;
    }
    proof {
        assert(vs.skip(n as int) =~= Seq::<Seq<char>>::empty());
    }
    None
}

/// Resolve the appliance's IP address from a whole neighbour listing: the
/// parenthesised address of the first `(ip) at mac` entry whose hardware
/// address equals `target_mac` up to ASCII case.
pub fn resolve_ip(listing: &str, target_mac: &str) -> (r: Option<String>)
    ensures
        (r is Some) == (resolve_spec(listing@, target_mac@) is Some),
        r matches Some(ip) ==> ip@ == resolve_spec(listing@, target_mac@)->0,
{
    let lines = split_lines(listing);
    resolve_in_lines(&lines, target_mac)
}

} // verus!
