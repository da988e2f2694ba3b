mod config;
mod engine;
mod output;
mod pattern;
mod results;
mod text;

pub use config::{Config, ConfigError};
pub use engine::{
    line_matches, lemma_match_result_complete, lemma_match_result_ordered, match_count,
    match_result, matched_upto, search, SearchError,
};
pub use output::{decimal_seq, digit_char, render_line_number, render_match};
pub use pattern::{pattern_compiles, pattern_matches};
pub use results::map_entries;
pub use text::{
    contains_seq, fold_contains, lemma_fold_contains_casing, lower_char, lower_seq, spec_lines,
    split_lines,
};
