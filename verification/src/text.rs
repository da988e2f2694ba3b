use vstd::prelude::*;
use vstd::string::*;

verus! {

/// ASCII case folding of one character: `'A'..='Z'` map to `'a'..='z'`,
/// every other character is unchanged.
pub open spec fn lower_char(c: char) -> char {
    if 'A' <= c && c <= 'Z' {
        (((c as u8) + 32) as char)
    } else {
        c
    }
}

/// ASCII case folding of a whole character sequence.
pub open spec fn lower_seq(s: Seq<char>) -> Seq<char> {
    s.map_values(|c: char| lower_char(c))
}

/// The needle occurs in the haystack starting at position `i`.
pub open spec fn match_at(hay: Seq<char>, needle: Seq<char>, i: int) -> bool {
    &&& 0 <= i
    &&& i + needle.len() <= hay.len()
    &&& hay.subrange(i, i + needle.len() as int) == needle
}

/// The needle occurs somewhere in the haystack as a literal, contiguous
/// subsequence.
pub open spec fn contains_seq(hay: Seq<char>, needle: Seq<char>) -> bool {
    exists|i: int| match_at(hay, needle, i)
}

/// Case-insensitive literal containment: the query occurs in the line once
/// both are ASCII case folded.
pub open spec fn fold_contains(line: Seq<char>, query: Seq<char>) -> bool {
    contains_seq(lower_seq(line), lower_seq(query))
}

/// ASCII case folding of one character, executable form.
pub fn lower_char_exec(c: char) -> (r: char)
    ensures
        r == lower_char(c),
{
    if 'A' <= c && c <= 'Z' {
        ((c as u8) + 32) as char
    } else {
        c
    }
}

/// Whether the needle, case folded, occurs at position `i` of the case-folded
/// haystack.
fn match_here(hay: &str, needle: &str, i: usize) -> (r: bool)
    requires
        i + needle@.len() <= hay@.len(),
    ensures
        r == match_at(lower_seq(hay@), lower_seq(needle@), i as int),
{
    let n = hay.unicode_len();
    let m = needle.unicode_len();
    let mut j: usize = 0;
    while j < m
        invariant
            j <= m,
            n == hay@.len(),
            m == needle@.len(),
            i + m <= n,
            forall|k: int| 0 <= k < j ==> lower_char(hay@[i + k]) == lower_char(needle@[k]),
        decreases m - j,
    {
        let hc = lower_char_exec(hay.get_char(i + j));
        let nc = lower_char_exec(needle.get_char(j));
        if hc != nc {
            proof {
                let lh = lower_seq(hay@);
                let ln = lower_seq(needle@);
                if match_at(lh, ln, i as int) {
                    assert(lh.subrange(i as int, i + ln.len() as int)[j as int] == ln[j as int]);
                    assert(lh[i + j] == ln[j as int]);
                    assert(false);
                }
            }
            return false;
        }
        j += 1;
    }
    proof {
        let lh = lower_seq(hay@);
        let ln = lower_seq(needle@);
        assert(lh.subrange(i as int, i + ln.len() as int) =~= ln);
    }
    true
}

/// Case-insensitive literal substring search: true exactly when the query,
/// ASCII case folded, occurs as a contiguous run inside the case-folded line.
/// Regular-expression metacharacters in the query have no special meaning
/// here.
pub fn fold_contains_exec(hay: &str, needle: &str) -> (r: bool)
    ensures
        r == fold_contains(hay@, needle@),
{
    let n = hay.unicode_len();
    let m = needle.unicode_len();
    if m == 0 {
        proof {
            let lh = lower_seq(hay@);
            let ln = lower_seq(needle@);
            assert(lh.subrange(0, 0) =~= ln);
            assert(match_at(lh, ln, 0));
        }
        return true;
    }
    if m > n {
        return false;
    }
    let mut i: usize = 0;
    while i <= n - m
        invariant
            n == hay@.len(),
            m == needle@.len(),
            0 < m <= n,
            i <= n - m + 1,
            forall|k: int| 0 <= k < i ==> !match_at(lower_seq(hay@), lower_seq(needle@), k),
        decreases n - m - i + 1,
    {
        if match_here(hay, needle, i) {
            return true;
        }
        i += 1;
    }
    false
}

/// The position of the first newline at or after `i`, or the length of `s`
/// when there is none.
pub open spec fn find_nl(s: Seq<char>, i: int) -> int
    decreases s.len() - i,
{
    if i < 0 || i >= s.len() {
        s.len() as int
    } else if s[i] == '\n' {
        i
    } else {
        find_nl(s, i + 1)
    }
}

/// A line with a trailing carriage return loses it: this gives a newline the
/// meaning of either `"\n"` or `"\r\n"`.
pub open spec fn strip_cr(l: Seq<char>) -> Seq<char> {
    if l.len() > 0 && l[l.len() - 1] == '\r' { l.drop_last() } else { l }
}

/// The lines of a text: segments separated by `'\n'` (a preceding `'\r'`
/// belongs to the separator), where a final segment without a trailing
/// newline still counts and a trailing newline adds no empty line.
pub open spec fn spec_lines(s: Seq<char>) -> Seq<Seq<char>>
    decreases s.len(),
{
    if s.len() == 0 {
        Seq::empty()
    } else {
        let j = find_nl(s, 0);
        if 0 <= j && j < s.len() {
            seq![strip_cr(s.subrange(0, j))] + spec_lines(s.subrange(j + 1, s.len() as int))
        } else {
            seq![s]
        }
    }
}

/// `find_nl` returns `k` when no newline stands before `k` and `k` is either
/// a newline or the end.
proof fn lemma_find_nl_at(s: Seq<char>, i: int, k: int)
    requires
        0 <= i <= k <= s.len(),
        forall|t: int| i <= t < k ==> s[t] != '\n',
        k == s.len() || s[k] == '\n',
    ensures
        find_nl(s, i) == k,
    decreases k - i,
{
    if i < k {
        lemma_find_nl_at(s, i + 1, k);
    }
}

/// Splits a text into its lines.  The result is exactly `spec_lines` of the
/// input, each line owned and in order.
pub fn split_lines(s: &str) -> (lines: Vec<String>)
    ensures
        lines.deep_view() == spec_lines(s@),
{
    let n = s.unicode_len();
    let mut lines: Vec<String> = Vec::new();
    let mut start: usize = 0;
    let mut i: usize = 0;
    proof {
        assert(s@.subrange(0, n as int) =~= s@);
        assert(lines.deep_view() =~= Seq::<Seq<char>>::empty());
        assert(lines.deep_view() + spec_lines(s@) =~= spec_lines(s@));
    }
    while i < n
        invariant
            start <= i <= n,
            n == s@.len(),
            spec_lines(s@) == lines.deep_view() + spec_lines(s@.subrange(start as int, n as int)),
            forall|t: int| start <= t < i ==> s@[t] != '\n',
        decreases n - i,
    {
        if s.get_char(i) == '\n' {
            let end: usize = if i > start && s.get_char(i - 1) == '\r' {
                i - 1
            } else {
                i
            };
            let piece = s.substring_char(start, end);
            let owned = String::from_str(piece);
            proof {
                let rest = s@.subrange(start as int, n as int);
                lemma_find_nl_at(rest, 0, i - start);
                assert(rest.subrange(0, i - start) =~= s@.subrange(start as int, i as int));
                assert(strip_cr(s@.subrange(start as int, i as int)) =~= s@.subrange(
                    start as int,
                    end as int,
                ));
                assert(rest.subrange(i - start + 1, rest.len() as int) =~= s@.subrange(
                    i + 1,
                    n as int,
                ));
                assert(spec_lines(rest) == seq![s@.subrange(start as int, end as int)]
                    + spec_lines(s@.subrange(i + 1, n as int)));
            }
            let ghost old_lines = lines.deep_view();
            lines.push(owned);
            proof {
                assert(lines.deep_view() =~= old_lines.push(s@.subrange(
                    start as int,
                    end as int,
                )));
                assert(old_lines.push(s@.subrange(start as int, end as int)) =~= old_lines
                    + seq![s@.subrange(start as int, end as int)]);
                assert(lines.deep_view() + spec_lines(s@.subrange(i + 1, n as int)) =~= spec_lines(
                    s@,
                ));
            }
            start = i + 1;
        }
        i += 1;
    }
    if start < n {
        let piece = s.substring_char(start, n);
        let owned = String::from_str(piece);
        proof {
            let rest = s@.subrange(start as int, n as int);
            lemma_find_nl_at(rest, 0, n - start);
            assert(spec_lines(rest) == seq![rest]);
        }
        let ghost old_lines = lines.deep_view();
        lines.push(owned);
        proof {
            assert(lines.deep_view() =~= old_lines.push(s@.subrange(start as int, n as int)));
            assert(old_lines.push(s@.subrange(start as int, n as int)) =~= old_lines + seq![
                s@.subrange(start as int, n as int),
            ]);
            assert(lines.deep_view() =~= spec_lines(s@));
        }
    } else {
        proof {
            assert(s@.subrange(start as int, n as int) =~= Seq::<char>::empty());
            assert(spec_lines(s@.subrange(start as int, n as int)) == Seq::<Seq<char>>::empty());
            assert(lines.deep_view() + Seq::<Seq<char>>::empty() =~= lines.deep_view());
        }
    }
    lines
}

/// Case-insensitive matching does not depend on the casing of either the
/// query or the line: inputs that agree after ASCII case folding match
/// identically.
pub proof fn lemma_fold_contains_casing(l1: Seq<char>, l2: Seq<char>, q1: Seq<char>, q2: Seq<char>)
    requires
        lower_seq(l1) == lower_seq(l2),
        lower_seq(q1) == lower_seq(q2),
    ensures
        fold_contains(l1, q1) == fold_contains(l2, q2),
{
}

} // verus!
