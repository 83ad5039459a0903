use ripgrep_napi::order::{bytes_before, text_before};
use ripgrep_napi::paths::matched_paths;
use ripgrep_napi::types::{RipgrepMatch, SubMatch};

fn entry(path: &str) -> RipgrepMatch {
    RipgrepMatch {
        path: path.to_string(),
        line: 1,
        column: 0,
        text: String::new(),
        submatches: vec![SubMatch { start: 0, end: 0 }],
    }
}

#[test]
fn shorter_text_comes_before_its_extension() {
    assert!(text_before("a", "ab"));
    assert!(!text_before("ab", "a"));
    assert!(text_before("", "a"));
    assert!(!text_before("", ""));
}

#[test]
fn first_difference_decides() {
    assert!(text_before("abc", "abd"));
    assert!(!text_before("abd", "abc"));
    assert!(text_before("Zebra", "apple"));
    assert!(!text_before("same", "same"));
}

#[test]
fn order_is_that_of_the_utf8_bytes() {
    assert!(text_before("z", "\u{e9}"));
    assert!(text_before("\u{e9}", "\u{4e2d}"));
    assert!(bytes_before(&[1, 2, 3], &[1, 2, 4]));
    assert!(bytes_before(&[1, 2], &[1, 2, 0]));
    assert!(!bytes_before(&[2], &[1, 255]));
}

#[test]
fn order_agrees_with_the_order_of_strings() {
    let words = ["", "a", "ab", "b", "B", "\u{e9}", "a/b", "a.b", "a b", "zz", "z"];
    for a in words {
        for b in words {
            assert_eq!(text_before(a, b), a < b, "{:?} {:?}", a, b);
        }
    }
}

#[test]
fn paths_are_listed_once_and_in_order() {
    let matches = vec![
        entry("src/b.rs"),
        entry("src/b.rs"),
        entry("src/a.rs"),
        entry("README"),
        entry("src/b.rs"),
        entry("src/a.rs"),
    ];
    assert_eq!(matched_paths(&matches), vec!["README", "src/a.rs", "src/b.rs"]);
}

#[test]
fn no_matches_no_paths() {
    let matches: Vec<RipgrepMatch> = Vec::new();
    assert!(matched_paths(&matches).is_empty());
}

#[test]
fn listing_agrees_with_sort_and_dedup() {
    let names = ["q", "b", "zz", "b", "a", "q", "a/b", "a", "", "zz", "m"];
    let matches: Vec<RipgrepMatch> = names.iter().map(|n| entry(n)).collect();
    let mut expected: Vec<String> = names.iter().map(|n| n.to_string()).collect();
    expected.sort();
    expected.dedup();
    assert_eq!(matched_paths(&matches), expected);
}
