//! The data that a search takes and gives back.

use vstd::prelude::*;
use vstd::utf8::encode_utf8;

verus! {

/// One occurrence of the pattern within a line: the half-open range of byte
/// offsets `[start, end)` into the line.
#[derive(Clone, Copy, Debug, PartialEq, Eq)]
pub struct SubMatch {
    pub start: u32,
    pub end: u32,
}

/// A line that holds at least one occurrence of the pattern.
#[derive(Clone, Debug, PartialEq, Eq)]
pub struct RipgrepMatch {
    /// The file the line was found in.
    pub path: String,
    /// The line's number within the file, counted from 1.
    pub line: u32,
    /// Where the first occurrence on the line starts, or 0 if none is listed.
    pub column: u32,
    /// The line, decoded as UTF-8 with replacement characters for what is not.
    pub text: String,
    /// The occurrences on the line, from left to right.
    pub submatches: Vec<SubMatch>,
}

/// What to search for, where, and within which limits.
#[derive(Clone, Debug, PartialEq, Eq)]
pub struct RipgrepOptions {
    pub pattern: String,
    pub path: String,
    pub case_insensitive: Option<bool>,
    pub glob: Option<String>,
    pub max_depth: Option<u32>,
    pub max_results: Option<u32>,
    pub before_context: Option<u32>,
    pub after_context: Option<u32>,
    pub files_with_matches: Option<bool>,
    pub include_hidden: Option<bool>,
}

/// The outcome of one search.
#[derive(Clone, Debug, PartialEq, Eq)]
pub struct RipgrepResult {
    /// The matching lines in the order in which they were found.
    pub matches: Vec<RipgrepMatch>,
    /// How many files were handed to the line scanner.
    pub files_searched: u32,
    /// How many matching lines are listed.
    pub total_matches: u32,
    /// Whether a matching line was turned away because the cap was reached.
    pub truncated: bool,
    /// How long the search took, in milliseconds.
    pub elapsed_ms: u32,
}

/// Why a search yields no result at all.
#[derive(Clone, Debug, PartialEq, Eq)]
pub enum SearchError {
    /// The pattern is no valid regular expression; the text is the regex
    /// engine's diagnostic.
    InvalidPattern(String),
    /// The glob does not make a valid regular expression; the text is the
    /// regex engine's diagnostic.
    InvalidGlob(String),
}

/// A matching line as a mathematical value.
pub struct MatchView {
    pub path: Seq<char>,
    pub line: u32,
    pub column: u32,
    pub text: Seq<char>,
    pub submatches: Seq<SubMatch>,
}

/// Each range is well formed and ends within the first `limit` bytes, and no
/// range starts before the one to its left has ended.
pub open spec fn spans_in_order(spans: Seq<SubMatch>, limit: int) -> bool {
    &&& forall|i: int| 0 <= i < spans.len() ==> (#[trigger] spans[i]).start <= spans[i].end <= limit
    &&& forall|i: int, j: int|
        0 <= i < j < spans.len() ==> (#[trigger] spans[i]).end <= (#[trigger] spans[j]).start
}

/// Where the first of the ranges starts, or 0 where there is none.
pub open spec fn first_start(spans: Seq<SubMatch>) -> u32 {
    if spans.len() > 0 {
        spans[0].start
    } else {
        0
    }
}

impl MatchView {
    /// The length of the line's text in bytes of UTF-8.
    pub open spec fn text_len(self) -> int {
        encode_utf8(self.text).len() as int
    }

    /// The ranges lie in order within the text, and the column is where the
    /// first of them starts.
    pub open spec fn well_formed(self) -> bool {
        &&& spans_in_order(self.submatches, self.text_len())
        &&& self.column == first_start(self.submatches)
    }
}

impl View for RipgrepMatch {
    type V = MatchView;

    open spec fn view(&self) -> MatchView {
        MatchView {
            path: self.path@,
            line: self.line,
            column: self.column,
            text: self.text@,
            submatches: self.submatches@,
        }
    }
}

impl DeepView for RipgrepMatch {
    type V = MatchView;

    open spec fn deep_view(&self) -> MatchView {
        self@
    }
}

/// The text of an optional string.
pub open spec fn text_of(s: Option<String>) -> Option<Seq<char>> {
    match s {
        Some(s) => Some(s@),
        None => None,
    }
}

/// The options of a search as a mathematical value.
pub struct OptionsView {
    pub pattern: Seq<char>,
    pub path: Seq<char>,
    pub case_insensitive: Option<bool>,
    pub glob: Option<Seq<char>>,
    pub max_depth: Option<u32>,
    pub max_results: Option<u32>,
    pub before_context: Option<u32>,
    pub after_context: Option<u32>,
    pub files_with_matches: Option<bool>,
    pub include_hidden: Option<bool>,
}

impl View for RipgrepOptions {
    type V = OptionsView;

    open spec fn view(&self) -> OptionsView {
        OptionsView {
            pattern: self.pattern@,
            path: self.path@,
            case_insensitive: self.case_insensitive,
            glob: text_of(self.glob),
            max_depth: self.max_depth,
            max_results: self.max_results,
            before_context: self.before_context,
            after_context: self.after_context,
            files_with_matches: self.files_with_matches,
            include_hidden: self.include_hidden,
        }
    }
}

/// A search outcome as a mathematical value.
pub struct ResultView {
    pub matches: Seq<MatchView>,
    pub files_searched: u32,
    pub total_matches: u32,
    pub truncated: bool,
    pub elapsed_ms: u32,
}

impl View for RipgrepResult {
    type V = ResultView;

    open spec fn view(&self) -> ResultView {
        ResultView {
            matches: self.matches.deep_view(),
            files_searched: self.files_searched,
            total_matches: self.total_matches,
            truncated: self.truncated,
            elapsed_ms: self.elapsed_ms,
        }
    }
}

/// Which of the two configuration errors a search ended in.
pub enum ErrorKind {
    InvalidPattern,
    InvalidGlob,
}

impl View for SearchError {
    type V = ErrorKind;

    open spec fn view(&self) -> ErrorKind {
        match self {
            SearchError::InvalidPattern(_) => ErrorKind::InvalidPattern,
            SearchError::InvalidGlob(_) => ErrorKind::InvalidGlob,
        }
    }
}

impl SearchError {
    /// The regex engine's diagnostic.
    pub fn message(&self) -> (text: String)
        ensures
            text@ == match self {
                SearchError::InvalidPattern(m) => m@,
                SearchError::InvalidGlob(m) => m@,
            },
    {
        match self {
            SearchError::InvalidPattern(m) => m.clone(),
            SearchError::InvalidGlob(m) => m.clone(),
        }
    }
}

} // verus!
