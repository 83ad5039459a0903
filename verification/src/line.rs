//! From a matching line's bytes to the record that is reported for it.

use vstd::prelude::*;
use vstd::utf8::{encode_utf8, valid_utf8};
use crate::pattern::{pattern_spans, PatternMatcher};
use crate::text::{lossy_text, utf8_lossy};
use crate::types::{first_start, spans_in_order, MatchView, RipgrepMatch, SubMatch};

verus! {

/// The number itself where it fits into 32 bits, and the largest 32-bit number
/// where it does not.
pub open spec fn clamp_u32(x: int) -> u32 {
    if x > u32::MAX {
        u32::MAX
    } else if x < 0 {
        0
    } else {
        x as u32
    }
}

/// Narrows an offset to 32 bits, stopping at the largest value.
pub fn offset_to_u32(x: usize) -> (y: u32)
    ensures
        y == clamp_u32(x as int),
{
    if x > u32::MAX as usize {
        u32::MAX
    } else {
        x as u32
    }
}

/// Narrows a line number to 32 bits, stopping at the largest value.
pub fn line_number_to_u32(x: u64) -> (y: u32)
    ensures
        y == clamp_u32(x as int),
{
    if x > u32::MAX as u64 {
        u32::MAX
    } else {
        x as u32
    }
}

/// Where the last of the ranges ends, or 0 where there is none.
pub open spec fn last_end(spans: Seq<(usize, usize)>) -> int {
    if spans.len() > 0 {
        spans.last().1 as int
    } else {
        0
    }
}

/// The ranges that are kept of a list: going from left to right, a range is
/// kept if it is well formed, ends within the first `limit` bytes and does not
/// start before the range kept last has ended.
pub open spec fn kept_spans(spans: Seq<(usize, usize)>, limit: int) -> Seq<(usize, usize)>
    decreases spans.len(),
{
    if spans.len() == 0 {
        Seq::empty()
    } else {
        let before = kept_spans(spans.drop_last(), limit);
        let span = spans.last();
        if last_end(before) <= span.0 <= span.1 <= limit {
            before.push(span)
        } else {
            before
        }
    }
}

/// A range of offsets as a reported occurrence.
pub open spec fn to_submatch(span: (usize, usize)) -> SubMatch {
    SubMatch { start: clamp_u32(span.0 as int), end: clamp_u32(span.1 as int) }
}

/// The occurrences that are reported for a list of ranges within a text of
/// `limit` bytes.
pub open spec fn reported_spans(spans: Seq<(usize, usize)>, limit: int) -> Seq<SubMatch> {
    kept_spans(spans, limit).map_values(|span: (usize, usize)| to_submatch(span))
}

/// The ranges that are kept lie in order within the limit.
pub proof fn lemma_kept_spans_in_order(spans: Seq<(usize, usize)>, limit: int)
    ensures
        forall|i: int|
            0 <= i < kept_spans(spans, limit).len() ==> (#[trigger] kept_spans(spans, limit)[i]).0
                <= kept_spans(spans, limit)[i].1 <= limit,
        forall|i: int, j: int|
            0 <= i < j < kept_spans(spans, limit).len() ==> (#[trigger] kept_spans(
                spans,
                limit,
            )[i]).1 <= (#[trigger] kept_spans(spans, limit)[j]).0,
    decreases spans.len(),
{
    if spans.len() > 0 {
        let before = kept_spans(spans.drop_last(), limit);
        let kept = kept_spans(spans, limit);
        lemma_kept_spans_in_order(spans.drop_last(), limit);
        if kept != before {
            assert forall|i: int, j: int| 0 <= i < j < kept.len() implies (#[trigger] kept[i]).1
                <= (#[trigger] kept[j]).0 by {
                if j == kept.len() - 1 {
                    assert(kept[i] == before[i]);
                    if i < before.len() - 1 {
                        assert(before[i].1 <= before[before.len() - 1].0);
                    }
                } else {
                    assert(kept[i] == before[i] && kept[j] == before[j]);
                }
            }
        }
    }
}

/// The occurrences that are reported lie in order within the text.
pub proof fn lemma_reported_spans_in_order(spans: Seq<(usize, usize)>, limit: int)
    ensures
        spans_in_order(reported_spans(spans, limit), limit),
{
    lemma_kept_spans_in_order(spans, limit);
}

/// Picks the ranges to report and narrows them to 32 bits.
pub fn report_spans(spans: &Vec<(usize, usize)>, limit: usize) -> (out: Vec<SubMatch>)
    ensures
        out@ == reported_spans(spans@, limit as int),
{
    let mut out: Vec<SubMatch> = Vec::new();
    let mut floor: usize = 0;
    let mut i: usize = 0;
    while i < spans.len()
        invariant
            i <= spans.len(),
            out@ == reported_spans(spans@.take(i as int), limit as int),
            floor == last_end(kept_spans(spans@.take(i as int), limit as int)),
        decreases spans.len() - i,
    {
        let span = spans[i];
        proof {
            assert(spans@.take(i + 1).drop_last() == spans@.take(i as int));
            assert(spans@.take(i + 1).last() == span);
        }
        if floor <= span.0 && span.0 <= span.1 && span.1 <= limit {
            out.push(SubMatch { start: offset_to_u32(span.0), end: offset_to_u32(span.1) });
            floor = span.1;
        }
        i = i + 1;
    }
    assert(spans@.take(spans@.len() as int) == spans@);
    out
}

/// The record of a matching line: the path, the line number narrowed to 32
/// bits, the line decoded as text, the occurrences of the pattern that lie in
/// order within that text, and the column of the first of them.
pub open spec fn line_match_view(
    pattern: Seq<char>,
    case_insensitive: bool,
    path: Seq<char>,
    line_number: u64,
    line: Seq<u8>,
) -> MatchView {
    let text = utf8_lossy(line);
    let submatches = reported_spans(
        pattern_spans(pattern, case_insensitive, line),
        encode_utf8(text).len() as int,
    );
    MatchView {
        path,
        line: clamp_u32(line_number as int),
        column: first_start(submatches),
        text,
        submatches,
    }
}

/// Every record of a matching line is well formed: its occurrences satisfy
/// `0 <= start <= end <= length of the text` and follow each other from left
/// to right.
pub proof fn lemma_line_match_well_formed(
    pattern: Seq<char>,
    case_insensitive: bool,
    path: Seq<char>,
    line_number: u64,
    line: Seq<u8>,
)
    ensures
        line_match_view(pattern, case_insensitive, path, line_number, line).well_formed(),
{
    lemma_reported_spans_in_order(
        pattern_spans(pattern, case_insensitive, line),
        encode_utf8(utf8_lossy(line)).len() as int,
    );
}

/// The length of a text in bytes of UTF-8.
pub fn byte_len(text: &str) -> (n: usize)
    ensures
        n == encode_utf8(text@).len(),
{
    text.as_bytes().len()
}

/// Builds the record of a matching line.
pub fn line_match(matcher: &PatternMatcher, path: &str, line_number: u64, line: &[u8]) -> (entry:
    RipgrepMatch)
    ensures
        entry@ == line_match_view(
            matcher@.pattern,
            matcher@.case_insensitive,
            path@,
            line_number,
            line@,
        ),
        entry@.well_formed(),
        valid_utf8(line@) ==> encode_utf8(entry@.text) == line@,
{
    let text = lossy_text(line);
    let spans = matcher.find_spans(line);
    let submatches = report_spans(&spans, byte_len(text.as_str()));
    let column: u32 = if submatches.len() > 0 {
        submatches[0].start
    } else {
        0
    };
    proof {
        lemma_line_match_well_formed(
            matcher@.pattern,
            matcher@.case_insensitive,
            path@,
            line_number,
            line@,
        );
    }
    RipgrepMatch {
        path: path.to_owned(),
        line: line_number_to_u32(line_number),
        column,
        text,
        submatches,
    }
}

} // verus!
