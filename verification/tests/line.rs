use ripgrep_napi::line::{byte_len, line_match, line_number_to_u32, offset_to_u32, report_spans};
use ripgrep_napi::pattern::PatternMatcher;
use ripgrep_napi::types::{SearchError, SubMatch};

#[test]
fn offsets_are_kept_where_they_fit() {
    assert_eq!(offset_to_u32(0), 0);
    assert_eq!(offset_to_u32(17), 17);
    assert_eq!(offset_to_u32(u32::MAX as usize), u32::MAX);
}

#[test]
fn offsets_beyond_32_bits_stop_at_the_largest_value() {
    let big = (u32::MAX as u64 + 5) as usize;
    if big as u64 > u32::MAX as u64 {
        assert_eq!(offset_to_u32(big), u32::MAX);
    }
}

#[test]
fn line_numbers_beyond_32_bits_stop_at_the_largest_value() {
    assert_eq!(line_number_to_u32(1), 1);
    assert_eq!(line_number_to_u32(u32::MAX as u64), u32::MAX);
    assert_eq!(line_number_to_u32(u32::MAX as u64 + 1), u32::MAX);
    assert_eq!(line_number_to_u32(u64::MAX), u32::MAX);
}

#[test]
fn byte_len_counts_utf8_bytes() {
    assert_eq!(byte_len(""), 0);
    assert_eq!(byte_len("abc"), 3);
    assert_eq!(byte_len("\u{e9}"), 2);
    assert_eq!(byte_len("\u{fffd}"), 3);
}

#[test]
fn spans_in_order_are_all_reported() {
    let spans = vec![(0, 2), (2, 2), (3, 7)];
    assert_eq!(
        report_spans(&spans, 7),
        vec![
            SubMatch { start: 0, end: 2 },
            SubMatch { start: 2, end: 2 },
            SubMatch { start: 3, end: 7 }
        ]
    );
}

#[test]
fn spans_beyond_the_text_are_left_out() {
    let spans = vec![(0, 2), (3, 9), (4, 5)];
    assert_eq!(
        report_spans(&spans, 6),
        vec![SubMatch { start: 0, end: 2 }, SubMatch { start: 4, end: 5 }]
    );
}

#[test]
fn spans_that_start_before_the_last_one_ended_are_left_out() {
    let spans = vec![(2, 5), (4, 6), (5, 6), (1, 2)];
    assert_eq!(
        report_spans(&spans, 10),
        vec![SubMatch { start: 2, end: 5 }, SubMatch { start: 5, end: 6 }]
    );
}

#[test]
fn spans_with_end_before_start_are_left_out() {
    let spans = vec![(3, 1), (4, 4)];
    assert_eq!(report_spans(&spans, 10), vec![SubMatch { start: 4, end: 4 }]);
}

#[test]
fn no_spans_no_report() {
    let spans: Vec<(usize, usize)> = Vec::new();
    assert_eq!(report_spans(&spans, 10), Vec::new());
}

#[test]
fn line_match_lists_every_occurrence() {
    let matcher = PatternMatcher::new("o", false).unwrap();
    let entry = line_match(&matcher, "dir/a.txt", 7, b"foo bar boo\n");
    assert_eq!(entry.path, "dir/a.txt");
    assert_eq!(entry.line, 7);
    assert_eq!(entry.column, 1);
    assert_eq!(entry.text, "foo bar boo\n");
    assert_eq!(
        entry.submatches,
        vec![
            SubMatch { start: 1, end: 2 },
            SubMatch { start: 2, end: 3 },
            SubMatch { start: 9, end: 10 },
            SubMatch { start: 10, end: 11 }
        ]
    );
}

#[test]
fn line_without_occurrence_has_column_zero() {
    let matcher = PatternMatcher::new("zebra", false).unwrap();
    let entry = line_match(&matcher, "a", 1, b"nothing here\n");
    assert_eq!(entry.column, 0);
    assert!(entry.submatches.is_empty());
    assert_eq!(entry.text, "nothing here\n");
}

#[test]
fn invalid_utf8_is_replaced_in_the_text() {
    let matcher = PatternMatcher::new("b", false).unwrap();
    let entry = line_match(&matcher, "a", 1, b"a\xffb\n");
    assert_eq!(entry.text, "a\u{fffd}b\n");
    assert_eq!(entry.submatches, vec![SubMatch { start: 2, end: 3 }]);
    assert_eq!(entry.column, 2);
}

#[test]
fn case_insensitive_matcher_ignores_case() {
    let strict = PatternMatcher::new("hello", false).unwrap();
    let loose = PatternMatcher::new("hello", true).unwrap();
    assert!(line_match(&strict, "a", 1, b"HELLO\n").submatches.is_empty());
    assert_eq!(
        line_match(&loose, "a", 1, b"HELLO\n").submatches,
        vec![SubMatch { start: 0, end: 5 }]
    );
}

#[test]
fn every_occurrence_lies_within_the_text() {
    let matcher = PatternMatcher::new("a*", false).unwrap();
    for line in [&b"baaa\n"[..], b"", b"aaa", b"\xff\xfea", b"xyz\n"] {
        let entry = line_match(&matcher, "p", 1, line);
        let mut floor = 0u32;
        for s in &entry.submatches {
            assert!(s.start <= s.end);
            assert!(s.end as usize <= entry.text.len());
            assert!(floor <= s.start);
            floor = s.end;
        }
        let first = entry.submatches.first().map(|s| s.start).unwrap_or(0);
        assert_eq!(entry.column, first);
    }
}

#[test]
fn pattern_that_does_not_compile_is_an_error() {
    match PatternMatcher::new("a(", false) {
        Err(SearchError::InvalidPattern(text)) => assert!(!text.is_empty()),
        _ => panic!("expected an invalid pattern"),
    }
}
