//! The compiled search pattern.

use vstd::prelude::*;
use vstd::slice::slice_to_vec;
use crate::types::{ErrorKind, SearchError};

verus! {

/// The compiled matcher of grep-regex.  The proofs see nothing inside it.
#[verifier::external_type_specification]
#[verifier::external_body]
pub struct ExRegexMatcher(grep::regex::RegexMatcher);

/// The error of grep-regex's matcher builder.  The proofs see nothing inside
/// it.
#[verifier::external_type_specification]
#[verifier::external_body]
pub struct ExMatcherError(grep::regex::Error);

/// Whether the matcher builder accepts the pattern under the given case
/// setting.
pub uninterp spec fn pattern_compiles(pattern: Seq<char>, case_insensitive: bool) -> bool;

/// The occurrences of the pattern in a line, from left to right, each as the
/// byte offsets of its start and its end.
pub uninterp spec fn pattern_spans(
    pattern: Seq<char>,
    case_insensitive: bool,
    line: Seq<u8>,
) -> Seq<(usize, usize)>;

/// The matching lines of a buffer, from top to bottom, each as its line number
/// and its bytes.
pub uninterp spec fn pattern_hits(
    pattern: Seq<char>,
    case_insensitive: bool,
    before_context: usize,
    after_context: usize,
    haystack: Seq<u8>,
) -> Seq<(u64, Seq<u8>)>;

/// Takes one occurrence into the list and asks for the next.
fn take_span(spans: &mut Vec<(usize, usize)>, start: usize, end: usize) -> (more: bool)
    ensures
        more,
        final(spans)@ == old(spans)@.push((start, end)),
{
    spans.push((start, end));
    true
}

/// Takes one matching line into the list and asks for the next.
fn take_hit(hits: &mut Vec<(u64, Vec<u8>)>, number: u64, line: &[u8]) -> (more: bool)
    ensures
        more,
        final(hits)@.len() == old(hits)@.len() + 1,
        final(hits)@.drop_last() == old(hits)@,
        final(hits)@.last().0 == number,
        final(hits)@.last().1@ == line@,
{
    hits.push((number, slice_to_vec(line)));
    true
}

/// A pattern in compiled form, together with the text and the case setting
/// that it was compiled from.  The fields are private and values are made by
/// `PatternMatcher::compile` alone, so that the compiled matcher always
/// belongs to the text and the setting beside it.
pub struct PatternMatcher {
    pattern: String,
    case_insensitive: bool,
    compiled: grep::regex::RegexMatcher,
}

/// What a compiled pattern was compiled from.
pub struct PatternView {
    /// The text of the pattern.
    pub pattern: Seq<char>,
    /// Whether letters match without regard to case.
    pub case_insensitive: bool,
}

impl View for PatternMatcher {
    type V = PatternView;

    closed spec fn view(&self) -> PatternView {
        PatternView { pattern: self.pattern@, case_insensitive: self.case_insensitive }
    }
}

impl PatternMatcher {
    /// Compiles a pattern.
    ///
    /// Trusted: calls `RegexMatcherBuilder::build` of grep-regex on a fresh
    /// builder whose case flag was set, which fails when the pattern does not
    /// parse or compiles to more than the builder's size limit.  The contract
    /// names that outcome `pattern_compiles` and says that the value
    /// remembers what it was compiled from.
    #[verifier::external_body]
    fn compile(pattern: &str, case_insensitive: bool) -> (r: Result<
        PatternMatcher,
        grep::regex::Error,
    >)
        ensures
            r is Ok <==> pattern_compiles(pattern@, case_insensitive),
            r matches Ok(m) ==> m@.pattern == pattern@ && m@.case_insensitive
                == case_insensitive,
    {
        let mut builder = grep::regex::RegexMatcherBuilder::new();
        builder.case_insensitive(case_insensitive);
        match builder.build(pattern) {
            Ok(compiled) => Ok(
                PatternMatcher { pattern: pattern.to_string(), case_insensitive, compiled },
            ),
            Err(e) => Err(e),
        }
    }

    /// Lists the occurrences of the pattern in a line.
    ///
    /// Trusted: calls `Matcher::find_iter` of grep-matcher, which runs the
    /// closure over the successive non-overlapping matches in the haystack.
    /// The contract names the list `pattern_spans` of what the matcher was
    /// compiled from and the line.
    #[verifier::external_body]
    pub(crate) fn find_spans(&self, line: &[u8]) -> (spans: Vec<(usize, usize)>)
        ensures
            spans@ == pattern_spans(self@.pattern, self@.case_insensitive, line@),
    {
        let mut spans = Vec::new();
        let _ = grep::matcher::Matcher::find_iter(&self.compiled, line, |m| {
            take_span(&mut spans, m.start(), m.end())
        });
        spans
    }

    /// Lists the matching lines of a buffer held in memory.
    ///
    /// Trusted: calls `Searcher::search_slice` of grep-searcher, on a searcher
    /// built with the given context sizes and with a sink that takes each
    /// matching line's number and bytes.  The contract names the list
    /// `pattern_hits` of what the matcher was compiled from, the context
    /// sizes and the buffer.
    #[verifier::external_body]
    pub(crate) fn matching_lines(
        &self,
        before_context: usize,
        after_context: usize,
        haystack: &[u8],
    ) -> (hits: Vec<(u64, Vec<u8>)>)
        ensures
            hits.deep_view() == pattern_hits(
                self@.pattern,
                self@.case_insensitive,
                before_context,
                after_context,
                haystack@,
            ),
    {
        let mut hits = Vec::new();
        let mut searcher = grep::searcher::SearcherBuilder::new()
            .before_context(before_context)
            .after_context(after_context)
            .build();
        let sink = grep::searcher::sinks::Bytes(|number, line| {
            Ok(take_hit(&mut hits, number, line))
        });
        let _ = searcher.search_slice(&self.compiled, haystack, sink);
        hits
    }

    /// The compiled matcher, for a searcher that reads files.
    pub fn as_matcher(&self) -> (matcher: &grep::regex::RegexMatcher)
        ensures
            *matcher == self.compiled_matcher(),
    {
        &self.compiled
    }

    /// Compiles a pattern, or says why it is none.
    pub fn new(pattern: &str, case_insensitive: bool) -> (r: Result<PatternMatcher, SearchError>)
        ensures
            r is Ok <==> pattern_compiles(pattern@, case_insensitive),
            r matches Ok(m) ==> m@.pattern == pattern@ && m@.case_insensitive
                == case_insensitive,
            r matches Err(e) ==> e@ == ErrorKind::InvalidPattern,
    {
        match PatternMatcher::compile(pattern, case_insensitive) {
            Ok(m) => Ok(m),
            Err(e) => Err(SearchError::InvalidPattern(e.to_string())),
        }
    }

    /// The matcher that this value holds in compiled form: the one that
    /// `compile` got from the matcher builder for the pattern and the case
    /// setting of the view.
    pub closed spec fn compiled_matcher(&self) -> grep::regex::RegexMatcher {
        self.compiled
    }
}

} // verus!
