use linked_hash_map::LinkedHashMap;
use pgrep::{search, Config, ConfigError, SearchError};

fn get_content(config: &Config) -> Option<String> {
    match config.filename.as_str() {
        "a.txt" => Some("a".to_owned()),
        "file.txt" => Some(
            "Random stuff\nnothing\naaaaa\nnope\nae\nnothing else\nzip\nzilch\nI categorically deny having triskaidekaphobia.\n"
                .to_owned(),
        ),
        _ => None,
    }
}

#[test]
fn one_result() {
    let conf = Config {
        query: "a".to_owned(),
        filename: "a.txt".to_owned(),
        case_sensitive: false,
    };

    let content = get_content(&conf).expect("Failed to get content!");
    let mut x: LinkedHashMap<usize, String> = LinkedHashMap::new();
    x.insert(1, "a".to_owned());

    assert_eq!(Ok(x), search(conf, content))
}

#[test]
fn one_case_insensitive_result() {
    let conf = Config {
        query: "A".to_owned(),
        filename: "a.txt".to_owned(),
        case_sensitive: true,
    };

    let content = get_content(&conf).expect("Failed to get content!");
    let mut x: LinkedHashMap<usize, String> = LinkedHashMap::new();
    x.insert(1, "a".to_owned());

    assert_eq!(Ok(x), search(conf, content))
}

#[test]
fn multiple_results() {
    let conf = Config {
        query: "a".to_owned(),
        filename: "file.txt".to_owned(),
        case_sensitive: false,
    };

    let content = get_content(&conf).expect("Failed to get content!");
    let mut x: LinkedHashMap<usize, String> = LinkedHashMap::new();
    x.insert(1, "Random stuff".to_owned());
    x.insert(3, "aaaaa".to_owned());
    x.insert(5, "ae".to_owned());
    x.insert(
        9,
        "I categorically deny having triskaidekaphobia.".to_owned(),
    );

    assert_eq!(Ok(x), search(conf, content))
}

#[test]
fn regex() {
    let conf = Config {
        query: "\\b\\w{13}\\b".to_owned(),
        filename: "file.txt".to_owned(),
        case_sensitive: false,
    };

    let content = get_content(&conf).expect("Failed to get content");

    let mut x: LinkedHashMap<usize, String> = LinkedHashMap::new();
    x.insert(
        9,
        "I categorically deny having triskaidekaphobia.".to_owned(),
    );

    assert_eq!(Ok(x), search(conf, content))
}

#[test]
fn zero_matches_is_an_error() {
    let conf = Config {
        query: "q".to_owned(),
        filename: "a.txt".to_owned(),
        case_sensitive: false,
    };

    let content = get_content(&conf).expect("Failed to get content!");
    assert_eq!(Err(SearchError::NoMatches), search(conf, content));
}

#[test]
fn invalid_pattern_reported_before_scanning() {
    let conf = Config {
        query: "[".to_owned(),
        filename: "a.txt".to_owned(),
        case_sensitive: false,
    };

    let content = get_content(&conf).expect("Failed to get content!");
    assert_eq!(Err(SearchError::InvalidPattern), search(conf, content));
}

#[test]
fn substring_mode_is_literal() {
    let conf = Config {
        query: "a.c".to_owned(),
        filename: "-".to_owned(),
        case_sensitive: true,
    };

    let content = "abc\nxa.cy\naxc".to_owned();
    let mut x: LinkedHashMap<usize, String> = LinkedHashMap::new();
    x.insert(2, "xa.cy".to_owned());

    assert_eq!(Ok(x), search(conf, content));
}

#[test]
fn pattern_mode_is_case_sensitive() {
    let conf = Config {
        query: "A".to_owned(),
        filename: "-".to_owned(),
        case_sensitive: false,
    };

    let content = "a\nA".to_owned();
    let mut x: LinkedHashMap<usize, String> = LinkedHashMap::new();
    x.insert(2, "A".to_owned());

    assert_eq!(Ok(x), search(conf, content));
}

#[test]
fn insensitive_match_keeps_original_casing() {
    let conf = Config {
        query: "abc".to_owned(),
        filename: "-".to_owned(),
        case_sensitive: true,
    };

    let content = "xABCy\nnope".to_owned();
    let mut x: LinkedHashMap<usize, String> = LinkedHashMap::new();
    x.insert(1, "xABCy".to_owned());

    assert_eq!(Ok(x), search(conf, content));
}

#[test]
fn crlf_line_endings_are_split_off() {
    let conf = Config {
        query: "t".to_owned(),
        filename: "-".to_owned(),
        case_sensitive: true,
    };

    let content = "One\r\nTwo\r\nthree".to_owned();
    let mut x: LinkedHashMap<usize, String> = LinkedHashMap::new();
    x.insert(2, "Two".to_owned());
    x.insert(3, "three".to_owned());

    assert_eq!(Ok(x), search(conf, content));
}

#[test]
fn empty_query_matches_every_line() {
    let conf = Config {
        query: "".to_owned(),
        filename: "-".to_owned(),
        case_sensitive: true,
    };

    let content = "x\ny".to_owned();
    let mut x: LinkedHashMap<usize, String> = LinkedHashMap::new();
    x.insert(1, "x".to_owned());
    x.insert(2, "y".to_owned());

    assert_eq!(Ok(x), search(conf, content));
}

#[test]
fn trailing_newline_adds_no_line() {
    let conf = Config {
        query: "a".to_owned(),
        filename: "-".to_owned(),
        case_sensitive: true,
    };

    let content = "a\n".to_owned();
    let mut x: LinkedHashMap<usize, String> = LinkedHashMap::new();
    x.insert(1, "a".to_owned());

    assert_eq!(Ok(x), search(conf, content));
}

#[test]
fn config_from_full_arguments() {
    let args = vec![
        "prog".to_owned(),
        "needle".to_owned(),
        "notes.txt".to_owned(),
    ];
    let conf = Config::new(&args, true).expect("expected a configuration");
    assert_eq!(conf.query, "needle");
    assert_eq!(conf.filename, "notes.txt");
    assert!(conf.case_sensitive);
}

#[test]
fn match_lines_are_rendered_with_their_number() {
    assert_eq!(pgrep::render_match(1, &"a".to_owned()), "1: a");
    assert_eq!(
        pgrep::render_match(105, &"Random stuff".to_owned()),
        "105: Random stuff"
    );
    assert_eq!(pgrep::render_line_number(0), "0");
    assert_eq!(pgrep::render_line_number(90210), "90210");
}

#[test]
fn config_describes_itself() {
    let conf = Config {
        query: "needle".to_owned(),
        filename: "notes.txt".to_owned(),
        case_sensitive: false,
    };
    assert_eq!(conf.describe(), "Query: 'needle' \nFile: notes.txt");
}

#[test]
fn config_missing_query() {
    let args = vec!["prog".to_owned()];
    assert!(matches!(
        Config::new(&args, false),
        Err(ConfigError::MissingQuery)
    ));
}

#[test]
fn config_missing_filename() {
    let args = vec!["prog".to_owned(), "needle".to_owned()];
    assert!(matches!(
        Config::new(&args, false),
        Err(ConfigError::MissingFilename)
    ));
}
