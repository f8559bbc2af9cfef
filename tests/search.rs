use minigrep::config::Config;
use minigrep::lines::split_lines;
use minigrep::search::{matching_lines, search, search_case_insensitive};
use minigrep::text::{chars_of, contains_query};

#[test]
fn case_sensitive() {
    let query = "duct";
    let contents = "\
Rust:
safe, fast, productive.
Pick three.
Duct tape.";

    assert_eq!(vec!["safe, fast, productive."], search(query, contents));
}

#[test]
fn case_insensitive() {
    let query = "rUsT";
    let contents = "\
Rust:
safe, fast, productive.
Pick three.
Trust me.";

    assert_eq!(
        vec!["Rust:", "Trust me."],
        search_case_insensitive(query, contents)
    );
}

#[test]
fn empty_contents_match_nothing() {
    let none: Vec<&str> = Vec::new();
    assert_eq!(search("query", ""), none);
    assert_eq!(search_case_insensitive("query", ""), none);
    assert_eq!(search("", ""), none);
}

#[test]
fn searching_twice_gives_the_same_lines() {
    let contents = "one fish\ntwo fish\nred fish\nblue fish\nfish\n";
    let first = search("fish", contents);
    let second = search("fish", contents);
    assert_eq!(first, second);
    assert_eq!(first, vec!["one fish", "two fish", "red fish", "blue fish", "fish"]);
    let joined = first.join("\n");
    let refiltered = search("fish", &joined);
    assert_eq!(refiltered, first);

    let a = search_case_insensitive("FISH", contents);
    let b = search_case_insensitive("FISH", contents);
    assert_eq!(a, b);
    assert_eq!(a, first);
}

#[test]
fn results_borrow_from_the_contents() {
    let contents = String::from("alpha\nbeta\ngamma");
    let found = search("a", &contents);
    let start = contents.as_ptr() as usize;
    let end = start + contents.len();
    for line in found {
        let p = line.as_ptr() as usize;
        assert!(p >= start && p + line.len() <= end);
    }
}

#[test]
fn repeated_lines_are_all_returned() {
    assert_eq!(search("x", "x\ny\nx\nx"), vec!["x", "x", "x"]);
}

#[test]
fn empty_query_matches_every_line() {
    assert_eq!(search("", "a\n\nb\n"), vec!["a", "", "b"]);
}

#[test]
fn trailing_newline_adds_no_line() {
    assert_eq!(split_lines("a\nb\n"), vec!["a", "b"]);
    assert_eq!(split_lines("a\nb"), vec!["a", "b"]);
    assert_eq!(split_lines("a\n\n"), vec!["a", ""]);
    assert_eq!(split_lines("\n"), vec![""]);
    assert_eq!(split_lines(""), Vec::<&str>::new());
}

#[test]
fn carriage_return_before_newline_is_dropped() {
    assert_eq!(split_lines("a\r\nb\r\n"), vec!["a", "b"]);
    assert_eq!(split_lines("a\r"), vec!["a\r"]);
    assert_eq!(split_lines("\r\n"), vec![""]);
    assert_eq!(split_lines("a\rb\nc"), vec!["a\rb", "c"]);
}

#[test]
fn lines_agree_with_std() {
    let samples = ["", "x", "x\n", "x\r\ny\r\n", "\n\n\n", "a\r\r\nb", "é\nü\r\n"];
    for s in samples {
        let expected: Vec<&str> = s.lines().collect();
        assert_eq!(split_lines(s), expected);
    }
}

#[test]
fn case_sensitive_search_keeps_case() {
    assert_eq!(search("Rust", "rust\nRust\nRUST"), vec!["Rust"]);
}

#[test]
fn case_insensitive_search_lowercases_beyond_ascii() {
    let contents = "L'École\nle lycée\nÉCOLE NORMALE";
    assert_eq!(
        search_case_insensitive("école", contents),
        vec!["L'École", "ÉCOLE NORMALE"]
    );
    assert_eq!(search("école", contents), Vec::<&str>::new());
}

#[test]
fn contains_query_is_substring_test() {
    assert!(contains_query("productive", "duct"));
    assert!(contains_query("duct", "duct"));
    assert!(contains_query("abc", ""));
    assert!(!contains_query("Duct tape.", "duct"));
    assert!(!contains_query("du", "duct"));
    assert!(contains_query("aaab", "aab"));
    assert!(!contains_query("", "a"));
}

#[test]
fn chars_of_lists_characters() {
    assert_eq!(chars_of("héllo"), vec!['h', 'é', 'l', 'l', 'o']);
    assert_eq!(chars_of(""), Vec::<char>::new());
}

#[test]
fn matching_lines_follows_the_mode() {
    let contents = "Rust:\nsafe, fast, productive.\nPick three.\nTrust me.";
    let sensitive = Config {
        query: "rUsT".to_string(),
        filename: "poem.txt".to_string(),
        case_sensitive: true,
    };
    assert_eq!(matching_lines(&sensitive, contents), Vec::<&str>::new());
    let insensitive = Config {
        case_sensitive: false,
        ..sensitive
    };
    assert_eq!(
        matching_lines(&insensitive, contents),
        vec!["Rust:", "Trust me."]
    );
}
