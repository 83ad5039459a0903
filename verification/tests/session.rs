use ripgrep_napi::search::RipgrepSearcher;
use ripgrep_napi::session::{SearchSession, SourceFile};
use ripgrep_napi::types::{RipgrepOptions, SearchError};

fn options(pattern: &str) -> RipgrepOptions {
    RipgrepOptions {
        pattern: pattern.to_string(),
        path: ".".to_string(),
        case_insensitive: None,
        glob: None,
        max_depth: None,
        max_results: None,
        before_context: None,
        after_context: None,
        files_with_matches: None,
        include_hidden: None,
    }
}

fn begin(opts: &RipgrepOptions) -> SearchSession {
    RipgrepSearcher::new(opts).unwrap().begin(opts).unwrap()
}

#[test]
fn begin_fails_on_a_bad_pattern() {
    let opts = options("[");
    let searcher = RipgrepSearcher::new(&opts).unwrap();
    assert!(matches!(searcher.begin(&opts), Err(SearchError::InvalidPattern(_))));
}

#[test]
fn without_glob_every_file_is_admitted() {
    let session = begin(&options("x"));
    assert_eq!(session.admits(Some("a.txt")), Ok(true));
    assert_eq!(session.admits(Some("")), Ok(true));
    assert_eq!(session.admits(None), Ok(true));
}

#[test]
fn glob_decides_by_the_file_name() {
    let mut opts = options("x");
    opts.glob = Some("*.rs".to_string());
    let session = begin(&opts);
    assert_eq!(session.admits(Some("main.rs")), Ok(true));
    assert_eq!(session.admits(Some("main.rs.orig")), Ok(false));
    assert_eq!(session.admits(Some("notes.md")), Ok(false));
}

#[test]
fn file_without_name_is_admitted_whatever_the_glob() {
    let mut opts = options("x");
    opts.glob = Some("*.rs".to_string());
    let session = begin(&opts);
    assert_eq!(session.admits(None), Ok(true));
}

#[test]
fn invalid_glob_fails_only_when_applied() {
    let mut opts = options("x");
    opts.glob = Some("[".to_string());
    let session = begin(&opts);
    assert_eq!(session.admits(None), Ok(true));
    assert!(matches!(session.admits(Some("a")), Err(SearchError::InvalidGlob(_))));
}

#[test]
fn context_sizes_come_from_the_options() {
    let mut opts = options("x");
    opts.before_context = Some(2);
    opts.after_context = Some(5);
    let session = begin(&opts);
    assert_eq!(session.before_context(), 2);
    assert_eq!(session.after_context(), 5);
    let plain = begin(&options("x"));
    assert_eq!(plain.before_context(), 0);
    assert_eq!(plain.after_context(), 0);
}

#[test]
fn lines_are_taken_until_the_cap() {
    let mut opts = options("a");
    opts.max_results = Some(2);
    let mut session = begin(&opts);
    assert!(session.matched("f", 1, b"a\n"));
    assert!(session.matched("f", 5, b"banana\n"));
    assert!(!session.matched("f", 9, b"again\n"));
    assert!(!session.close_file(true));
    let r = session.finish(40);
    assert_eq!(r.matches.len(), 2);
    assert_eq!(r.matches[1].line, 5);
    assert_eq!(r.matches[1].column, 1);
    assert_eq!(r.total_matches, 2);
    assert!(r.truncated);
    assert_eq!(r.files_searched, 1);
    assert_eq!(r.elapsed_ms, 40);
}

#[test]
fn file_that_failed_midway_leaves_no_line() {
    let mut session = begin(&options("a"));
    assert!(session.matched("one", 1, b"a\n"));
    assert!(session.close_file(true));
    assert!(session.matched("two", 1, b"a\n"));
    assert!(session.close_file(false));
    let r = session.finish(0);
    assert_eq!(r.matches.len(), 1);
    assert_eq!(r.matches[0].path, "one");
    assert_eq!(r.files_searched, 2);
}

#[test]
fn scan_slice_offers_every_matching_line() {
    let mut session = begin(&options("an"));
    session.scan_slice("fruit", b"apple\nbanana\ncherry\nmango\n");
    assert!(session.close_file(true));
    let r = session.finish(0);
    let lines: Vec<u32> = r.matches.iter().map(|m| m.line).collect();
    assert_eq!(lines, vec![2, 4]);
    assert_eq!(r.matches[0].text, "banana\n");
    assert_eq!(r.matches[0].submatches.len(), 2);
    assert_eq!(r.matches[1].column, 1);
}

#[test]
fn scan_slice_takes_the_last_line_without_terminator() {
    let mut session = begin(&options("end"));
    session.scan_slice("f", b"start\nthe end");
    let r = session.finish(0);
    assert_eq!(r.matches.len(), 1);
    assert_eq!(r.matches[0].line, 2);
    assert_eq!(r.matches[0].text, "the end");
}

#[test]
fn scan_file_passes_over_what_the_glob_turns_away() {
    let mut opts = options("a");
    opts.glob = Some("*.txt".to_string());
    let mut session = begin(&opts);
    let skipped = SourceFile {
        path: "x/b.md".to_string(),
        name: Some("b.md".to_string()),
        content: Some(b"a\n".to_vec()),
    };
    let taken = SourceFile {
        path: "x/a.txt".to_string(),
        name: Some("a.txt".to_string()),
        content: Some(b"a\n".to_vec()),
    };
    assert_eq!(session.scan_file(&skipped), Ok(true));
    assert_eq!(session.scan_file(&taken), Ok(true));
    let r = session.finish(0);
    assert_eq!(r.files_searched, 1);
    assert_eq!(r.matches.len(), 1);
    assert_eq!(r.matches[0].path, "x/a.txt");
}

#[test]
fn scan_file_counts_an_unreadable_file() {
    let mut session = begin(&options("a"));
    let lost = SourceFile { path: "gone".to_string(), name: Some("gone".to_string()), content: None };
    assert_eq!(session.scan_file(&lost), Ok(true));
    let r = session.finish(0);
    assert_eq!(r.files_searched, 1);
    assert!(r.matches.is_empty());
    assert!(!r.truncated);
}

#[test]
fn matcher_of_the_session_is_the_compiled_pattern() {
    let mut opts = options("Needle");
    opts.case_insensitive = Some(true);
    let session = begin(&opts);
    let spans = ripgrep_napi::line::line_match(session.matcher(), "p", 1, b"a needle\n");
    assert_eq!(spans.column, 2);
}
