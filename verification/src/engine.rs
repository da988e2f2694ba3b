use vstd::prelude::*;

use crate::config::Config;
use crate::pattern::{compile_pattern, pattern_compiles, pattern_hit, pattern_matches,
    CompiledPattern};
use crate::results::{map_entries, results_insert, results_len, results_new};
use crate::text::{fold_contains, fold_contains_exec, spec_lines, split_lines};

verus! {

/// The search ran but could not produce a non-empty result.
#[derive(Debug, Clone, Copy, PartialEq, Eq, Structural)]
pub enum SearchError {
    /// Pattern mode was selected and the query does not compile as a
    /// regular expression.  Reported before any line is scanned.
    InvalidPattern,
    /// Every line was scanned and none matched.
    NoMatches,
}

/// The match predicate of one line: case-insensitive literal containment
/// when `case_sensitive` is set, a regular-expression match otherwise.
pub open spec fn line_matches(config: Config, line: Seq<char>) -> bool {
    if config.case_sensitive {
        fold_contains(line, config.query@)
    } else {
        pattern_matches(config.query@, line)
    }
}

/// The matches among the first `n` lines, in scan order: a pair of the
/// 1-based line number and the original line text for every line the
/// predicate accepts.
pub open spec fn matched_upto(config: Config, lines: Seq<Seq<char>>, n: int) -> Seq<
    (usize, Seq<char>),
>
    decreases n,
{
    if n <= 0 || n > lines.len() {
        Seq::empty()
    } else {
        let prev = matched_upto(config, lines, n - 1);
        if line_matches(config, lines[n - 1]) {
            prev.push((n as usize, lines[n - 1]))
        } else {
            prev
        }
    }
}

/// The full match result of a search over the given lines.
pub open spec fn match_result(config: Config, lines: Seq<Seq<char>>) -> Seq<(usize, Seq<char>)> {
    matched_upto(config, lines, lines.len() as int)
}

/// How many of the first `n` lines the match predicate accepts.
pub open spec fn match_count(config: Config, lines: Seq<Seq<char>>, n: int) -> nat
    decreases n,
{
    if n <= 0 || n > lines.len() {
        0
    } else {
        match_count(config, lines, n - 1) + if line_matches(config, lines[n - 1]) {
            1nat
        } else {
            0nat
        }
    }
}

proof fn lemma_matched_upto_props(config: Config, lines: Seq<Seq<char>>, n: int)
    requires
        n <= lines.len(),
        lines.len() <= usize::MAX,
    ensures
        matched_upto(config, lines, n).len() == match_count(config, lines, n),
        forall|j: int|
            0 <= j < matched_upto(config, lines, n).len() ==> {
                let e = #[trigger] matched_upto(config, lines, n)[j];
                &&& 1 <= e.0 <= n
                &&& e.1 == lines[e.0 - 1]
                &&& line_matches(config, lines[e.0 - 1])
            },
        forall|j1: int, j2: int|
            0 <= j1 < j2 < matched_upto(config, lines, n).len() ==> #[trigger] matched_upto(
                config,
                lines,
                n,
            )[j1].0 < #[trigger] matched_upto(config, lines, n)[j2].0,
    decreases n,
{
    if n > 0 {
        lemma_matched_upto_props(config, lines, n - 1);
    }
}

/// Every entry of a match result pairs a valid 1-based line number with the
/// original text of that very line, the predicate holds on that line, and
/// the number of entries equals the number of lines the predicate accepts.
pub proof fn lemma_match_result_complete(config: Config, lines: Seq<Seq<char>>)
    requires
        lines.len() <= usize::MAX,
    ensures
        match_result(config, lines).len() == match_count(config, lines, lines.len() as int),
        forall|j: int|
            0 <= j < match_result(config, lines).len() ==> {
                let e = #[trigger] match_result(config, lines)[j];
                &&& 1 <= e.0 <= lines.len()
                &&& e.1 == lines[e.0 - 1]
                &&& line_matches(config, lines[e.0 - 1])
            },
{
    lemma_matched_upto_props(config, lines, lines.len() as int);
}

/// The keys of a match result are strictly ascending in insertion order:
/// the scan visits lines in order and never inserts a number twice.
pub proof fn lemma_match_result_ordered(config: Config, lines: Seq<Seq<char>>)
    requires
        lines.len() <= usize::MAX,
    ensures
        forall|j1: int, j2: int|
            0 <= j1 < j2 < match_result(config, lines).len() ==> #[trigger] match_result(
                config,
                lines,
            )[j1].0 < #[trigger] match_result(config, lines)[j2].0,
{
    lemma_matched_upto_props(config, lines, lines.len() as int);
}

/// Scans the content line by line and collects every matching line, keyed by
/// its 1-based line number, in scan order.  In pattern mode a query that
/// does not compile is `InvalidPattern`, reported before any line is
/// scanned; a scan that collects nothing is `NoMatches`.
pub fn search(config: Config, content: String) -> (r: Result<
    linked_hash_map::LinkedHashMap<usize, String>,
    SearchError,
>)
    ensures
        (!config.case_sensitive && !pattern_compiles(config.query@)) <==> r == Err::<
            linked_hash_map::LinkedHashMap<usize, String>,
            SearchError,
        >(SearchError::InvalidPattern),
        ((config.case_sensitive || pattern_compiles(config.query@)) && match_result(
            config,
            spec_lines(content@),
        ).len() == 0) <==> r == Err::<
            linked_hash_map::LinkedHashMap<usize, String>,
            SearchError,
        >(SearchError::NoMatches),
        r matches Ok(m) ==> map_entries(m) == match_result(config, spec_lines(content@))
            && map_entries(m).len() > 0,
        r is Ok <==> ((config.case_sensitive || pattern_compiles(config.query@)) && match_result(
            config,
            spec_lines(content@),
        ).len() > 0),
{
    let re_opt: Option<CompiledPattern> = if !config.case_sensitive {
        match compile_pattern(&config.query) {
            Ok(cp) => Some(cp),
            Err(_) => {
                return Err(SearchError::InvalidPattern);
            },
        }
    } else {
        None
    };
    let lines = split_lines(content.as_str());
    let mut results = results_new();
    let mut i: usize = 0;
    while i < lines.len()
        invariant
            i <= lines.len(),
            lines.deep_view() == spec_lines(content@),
            re_opt is Some <==> !config.case_sensitive,
            re_opt matches Some(cp) ==> cp.pattern@ == config.query@,
            map_entries(results) == matched_upto(config, lines.deep_view(), i as int),
        decreases lines.len() - i,
    {
        let line = &lines[i];
        let hit = match &re_opt {
            Some(cp) => pattern_hit(cp, line.as_str()),
            None => fold_contains_exec(line.as_str(), config.query.as_str()),
        };
        proof {
            assert(lines.deep_view()[i as int] == lines@[i as int]@);
            assert(hit == line_matches(config, lines.deep_view()[i as int]));
        }
        if hit {
            proof {
                lemma_matched_upto_props(config, lines.deep_view(), i as int);
            }
            results_insert(&mut results, i + 1, line.clone());
        }
        i += 1;
    }
    if results_len(&results) == 0 {
        Err(SearchError::NoMatches)
    } else {
        Ok(results)
    }
}

} // verus!
