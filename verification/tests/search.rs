use ripgrep_napi::search::{search, search_files, walk_settings, RipgrepSearcher};
use ripgrep_napi::session::SourceFile;
use ripgrep_napi::types::{RipgrepOptions, SearchError};

fn options(pattern: &str) -> RipgrepOptions {
    RipgrepOptions {
        pattern: pattern.to_string(),
        path: "tree".to_string(),
        case_insensitive: None,
        glob: None,
        max_depth: None,
        max_results: None,
        before_context: None,
        after_context: None,
        files_with_matches: None,
        include_hidden: None,
    }
}

fn file(name: &str, content: &str) -> SourceFile {
    SourceFile {
        path: format!("tree/{}", name),
        name: Some(name.to_string()),
        content: Some(content.as_bytes().to_vec()),
    }
}

fn tree() -> Vec<SourceFile> {
    vec![
        file("one.txt", "cat\ndog\ncat and cat\n"),
        file("two.md", "no pets\n"),
        file("three.txt", "a cat\nanother cat\nCAT\n"),
        file("four.txt", "cat\n"),
    ]
}

#[test]
fn version_names_the_library() {
    let searcher = RipgrepSearcher::new(&options("x")).unwrap();
    assert_eq!(searcher.version(), "1.0.0 (ripgrep-napi)");
}

#[test]
fn walk_settings_by_default() {
    let walk = walk_settings(&options("x"));
    assert!(walk.skip_hidden);
    assert!(walk.git_ignore);
    assert_eq!(walk.max_depth, None);
    assert_eq!(walk.custom_ignore_filename, None);
}

#[test]
fn walk_settings_follow_the_options() {
    let mut opts = options("x");
    opts.include_hidden = Some(true);
    opts.max_depth = Some(3);
    opts.glob = Some("*.rs".to_string());
    let walk = walk_settings(&opts);
    assert!(!walk.skip_hidden);
    assert!(walk.git_ignore);
    assert_eq!(walk.max_depth, Some(4));
    assert_eq!(walk.custom_ignore_filename, Some(".rgignore".to_string()));

    opts.include_hidden = Some(false);
    opts.max_depth = Some(0);
    let walk = walk_settings(&opts);
    assert!(walk.skip_hidden);
    assert_eq!(walk.max_depth, Some(1));
}

#[test]
fn depth_zero_stands_for_the_immediate_children_of_the_root() {
    let mut opts = options("x");
    opts.max_depth = Some(0);
    assert_eq!(walk_settings(&opts).max_depth, Some(1));
    opts.max_depth = Some(1);
    assert_eq!(walk_settings(&opts).max_depth, Some(2));
    opts.max_depth = Some(u32::MAX);
    let deepest = (u32::MAX as usize).saturating_add(1);
    assert_eq!(walk_settings(&opts).max_depth, Some(deepest));
}

#[test]
fn without_cap_everything_is_listed_in_order() {
    let r = search(&options("cat"), &tree()).unwrap();
    let found: Vec<(String, u32)> = r.matches.iter().map(|m| (m.path.clone(), m.line)).collect();
    assert_eq!(
        found,
        vec![
            ("tree/one.txt".to_string(), 1),
            ("tree/one.txt".to_string(), 3),
            ("tree/three.txt".to_string(), 1),
            ("tree/three.txt".to_string(), 2),
            ("tree/four.txt".to_string(), 1),
        ]
    );
    assert_eq!(r.total_matches, 5);
    assert_eq!(r.files_searched, 4);
    assert!(!r.truncated);
}

#[test]
fn list_is_never_longer_than_the_cap() {
    let all = search(&options("cat"), &tree()).unwrap();
    for cap in 0..8u32 {
        let mut opts = options("cat");
        opts.max_results = Some(cap);
        let r = search(&opts, &tree()).unwrap();
        assert!(r.matches.len() <= cap as usize);
        let kept = std::cmp::min(cap as usize, all.matches.len());
        assert_eq!(r.matches, all.matches[..kept].to_vec());
        assert_eq!(r.truncated, all.matches.len() > cap as usize);
        assert_eq!(r.total_matches as usize, r.matches.len());
    }
}

#[test]
fn walk_ends_with_the_file_that_went_beyond_the_cap() {
    let mut opts = options("cat");
    let expected = [(0u32, 1u32), (1, 1), (2, 3), (3, 3), (4, 4), (5, 4), (6, 4)];
    for (cap, files) in expected {
        opts.max_results = Some(cap);
        let r = search(&opts, &tree()).unwrap();
        assert_eq!(r.files_searched, files, "cap {}", cap);
    }
}

#[test]
fn exactly_as_many_matches_as_the_cap_is_not_truncated() {
    let mut opts = options("cat");
    opts.max_results = Some(5);
    let r = search(&opts, &tree()).unwrap();
    assert_eq!(r.matches.len(), 5);
    assert!(!r.truncated);
    assert_eq!(r.files_searched, 4);
}

#[test]
fn files_that_the_glob_turns_away_are_not_counted() {
    let mut opts = options("cat|pets");
    opts.glob = Some("*.txt".to_string());
    let r = search(&opts, &tree()).unwrap();
    assert_eq!(r.files_searched, 3);
    assert!(r.matches.iter().all(|m| m.path.ends_with(".txt")));
    assert_eq!(r.matches.len(), 5);
}

#[test]
fn case_can_be_ignored() {
    let mut opts = options("cat");
    opts.case_insensitive = Some(true);
    let r = search(&opts, &tree()).unwrap();
    assert_eq!(r.matches.len(), 6);
    assert_eq!(r.matches[4].text, "CAT\n");
}

#[test]
fn context_sizes_do_not_add_matches() {
    let mut opts = options("cat");
    opts.before_context = Some(2);
    opts.after_context = Some(1);
    let with = search(&opts, &tree()).unwrap();
    let without = search(&options("cat"), &tree()).unwrap();
    assert_eq!(with.matches, without.matches);
    assert_eq!(with.files_searched, without.files_searched);
}

#[test]
fn unreadable_file_counts_as_searched() {
    let mut files = tree();
    files[0].content = None;
    let r = search(&options("cat"), &files).unwrap();
    assert_eq!(r.files_searched, 4);
    assert_eq!(r.matches.len(), 3);
    assert_eq!(r.matches[0].path, "tree/three.txt");
}

#[test]
fn empty_tree_gives_an_empty_report() {
    let r = search(&options("cat"), &Vec::new()).unwrap();
    assert!(r.matches.is_empty());
    assert_eq!(r.files_searched, 0);
    assert_eq!(r.total_matches, 0);
    assert!(!r.truncated);
}

#[test]
fn invalid_glob_is_an_error_once_a_file_has_a_name() {
    let mut opts = options("cat");
    opts.glob = Some("(".to_string());
    assert!(matches!(search(&opts, &tree()), Err(SearchError::InvalidGlob(_))));
    assert!(search(&opts, &Vec::new()).is_ok());
    let nameless = vec![SourceFile {
        path: "..".to_string(),
        name: None,
        content: Some(b"cat\n".to_vec()),
    }];
    let r = search(&opts, &nameless).unwrap();
    assert_eq!(r.matches.len(), 1);
    assert_eq!(r.files_searched, 1);
}

#[test]
fn invalid_pattern_wins_over_invalid_glob() {
    let mut opts = options("(");
    opts.glob = Some("(".to_string());
    assert!(matches!(search(&opts, &tree()), Err(SearchError::InvalidPattern(_))));
}

#[test]
fn repeated_searches_agree() {
    let mut opts = options("cat");
    opts.max_results = Some(3);
    let searcher = RipgrepSearcher::new(&opts).unwrap();
    let a = searcher.search(&opts, &tree()).unwrap();
    let b = searcher.search(&opts, &tree()).unwrap();
    assert_eq!(a.matches, b.matches);
    assert_eq!(a.files_searched, b.files_searched);
    assert_eq!(a.total_matches, b.total_matches);
    assert_eq!(a.truncated, b.truncated);
}

#[test]
fn second_search_sees_nothing_of_the_first() {
    let searcher = RipgrepSearcher::new(&options("cat")).unwrap();
    let first = searcher.search(&options("cat"), &tree()).unwrap();
    assert_eq!(first.matches.len(), 5);
    let second = searcher.search(&options("dog"), &tree()).unwrap();
    assert_eq!(second.matches.len(), 1);
    assert_eq!(second.matches[0].text, "dog\n");
    assert_eq!(second.files_searched, 4);
}

#[test]
fn request_overrides_the_defaults_of_the_searcher() {
    let mut made_with = options("cat");
    made_with.max_results = Some(1);
    made_with.case_insensitive = Some(true);
    let searcher = RipgrepSearcher::new(&made_with).unwrap();

    let unset = searcher.search(&options("cat"), &tree()).unwrap();
    assert_eq!(unset.matches.len(), 1);
    assert!(unset.truncated);

    let mut request = options("cat");
    request.max_results = Some(10);
    request.case_insensitive = Some(false);
    let set = searcher.search(&request, &tree()).unwrap();
    assert_eq!(set.matches.len(), 5);
    assert!(!set.truncated);
}

#[test]
fn one_shot_agrees_with_a_searcher_made_with_no_option_set() {
    let mut opts = options("cat");
    opts.max_results = Some(2);
    opts.case_insensitive = Some(true);
    opts.glob = Some("*.txt".to_string());
    let plain = RipgrepSearcher::new(&options("")).unwrap();
    let a = plain.search(&opts, &tree()).unwrap();
    let b = search(&opts, &tree()).unwrap();
    assert_eq!(a.matches, b.matches);
    assert_eq!(a.files_searched, b.files_searched);
    assert_eq!(a.truncated, b.truncated);
}

#[test]
fn every_occurrence_lies_within_its_line() {
    let mut opts = options("a|c*|t");
    opts.case_insensitive = Some(true);
    let r = search(&opts, &tree()).unwrap();
    assert!(!r.matches.is_empty());
    for m in &r.matches {
        let mut floor = 0;
        for s in &m.submatches {
            assert!(s.start <= s.end);
            assert!(s.end as usize <= m.text.len());
            assert!(floor <= s.start);
            floor = s.end;
        }
        assert_eq!(m.column, m.submatches.first().map(|s| s.start).unwrap_or(0));
    }
}

#[test]
fn files_with_matches_are_listed_once_and_sorted() {
    let paths = search_files(&options("cat"), &tree()).unwrap();
    assert_eq!(paths, vec!["tree/four.txt", "tree/one.txt", "tree/three.txt"]);
}

#[test]
fn files_with_matches_respect_the_cap() {
    let mut opts = options("cat");
    opts.max_results = Some(2);
    assert_eq!(search_files(&opts, &tree()).unwrap(), vec!["tree/one.txt"]);
}

#[test]
fn files_with_matches_fail_on_a_bad_pattern() {
    assert!(matches!(search_files(&options("*"), &tree()), Err(SearchError::InvalidPattern(_))));
}

#[test]
fn elapsed_time_is_reported() {
    let r = search(&options("cat"), &tree()).unwrap();
    assert!(r.elapsed_ms < 60_000);
}

#[test]
fn items_are_reachable_from_the_crate_root() {
    let opts: ripgrep_napi::RipgrepOptions = options("cat");
    let searcher = ripgrep_napi::RipgrepSearcher::new(&opts).unwrap();
    let r: ripgrep_napi::RipgrepResult = searcher.search(&opts, &tree()).unwrap();
    let first: &ripgrep_napi::RipgrepMatch = &r.matches[0];
    let span: ripgrep_napi::SubMatch = first.submatches[0];
    assert_eq!((span.start, span.end), (0, 3));
    assert_eq!(ripgrep_napi::search(&opts, &tree()).unwrap().matches, r.matches);
    assert_eq!(ripgrep_napi::search_files(&opts, &tree()).unwrap().len(), 3);
}
