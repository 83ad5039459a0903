//! Shell-style file name patterns.

use vstd::prelude::*;
use crate::text::chars_to_string;
use crate::types::{ErrorKind, SearchError};

verus! {

/// The compiled regular expression of the regex engine.  The proofs see
/// nothing inside it.
#[verifier::external_type_specification]
#[verifier::external_body]
pub struct ExRegex(regex::Regex);

/// The error of the regex engine.  The proofs see nothing inside it.
#[verifier::external_type_specification]
#[verifier::external_body]
pub struct ExRegexError(regex::Error);

/// Whether the regex engine accepts this source text as a regular expression.
pub uninterp spec fn regex_compiles(source: Seq<char>) -> bool;

/// Whether the regular expression with this source text has a match somewhere
/// in the text.
pub uninterp spec fn regex_matches(source: Seq<char>, text: Seq<char>) -> bool;

/// A regular expression in compiled form, together with the source text that
/// it was compiled from.  The fields are private and values are made by
/// `NamePattern::compile` alone, so that the compiled form always belongs to
/// the source beside it.
pub struct NamePattern {
    source: String,
    compiled: regex::Regex,
}

impl View for NamePattern {
    type V = Seq<char>;

    /// The source text of the regular expression.
    closed spec fn view(&self) -> Seq<char> {
        self.source@
    }
}

impl NamePattern {
    /// Compiles a regular expression.
    ///
    /// Trusted: calls `regex::Regex::new`, which parses and compiles the
    /// source text and fails on a syntax error or on a compiled size over the
    /// engine's limit.  The contract names that outcome `regex_compiles` and
    /// says that the value remembers its source.
    #[verifier::external_body]
    fn compile(source: String) -> (r: Result<NamePattern, regex::Error>)
        ensures
            r is Ok <==> regex_compiles(source@),
            r matches Ok(p) ==> p@ == source@,
    {
        match regex::Regex::new(&source) {
            Ok(compiled) => Ok(NamePattern { source, compiled }),
            Err(e) => Err(e),
        }
    }

    /// Whether the regular expression matches somewhere in the text.
    ///
    /// Trusted: calls `regex::Regex::is_match`, which returns true if and only
    /// if there is a match anywhere in the haystack.  The contract names the
    /// result `regex_matches` of the source and the text.
    #[verifier::external_body]
    fn is_match(&self, text: &str) -> (found: bool)
        ensures
            found == regex_matches(self@, text@),
    {
        self.compiled.is_match(text)
    }
}

/// What one character of a glob becomes in the regular expression: `*` stands
/// for any run of characters, `?` for exactly one, a dot for itself, and every
/// other character is handed on unchanged.
pub open spec fn glob_char_regex(c: char) -> Seq<char> {
    if c == '.' {
        seq!['\\', '.']
    } else if c == '*' {
        seq!['.', '*']
    } else if c == '?' {
        seq!['.']
    } else {
        seq![c]
    }
}

/// What the characters of a glob become, one after the other.
pub open spec fn glob_body_regex(glob: Seq<char>) -> Seq<char>
    decreases glob.len(),
{
    if glob.len() == 0 {
        Seq::empty()
    } else {
        glob_body_regex(glob.drop_last()) + glob_char_regex(glob.last())
    }
}

/// The regular expression of a glob: what its characters become, anchored at
/// both ends so that it has to match a whole file name.
pub open spec fn glob_regex(glob: Seq<char>) -> Seq<char> {
    seq!['^'] + glob_body_regex(glob) + seq!['$']
}

/// Turns a glob into the source of an anchored regular expression.
///
/// Only `*`, `?` and the dot are treated.  A character that means something
/// else in a regular expression keeps that meaning: the glob `a+` takes the
/// name `aa`, and the glob `a(` is not valid.
pub fn glob_to_regex(glob: &str) -> (re: String)
    ensures
        re@ == glob_regex(glob@),
{
    let mut out: Vec<char> = Vec::new();
    out.push('^');
    for c in iter: glob.chars()
        invariant
            iter.seq() == glob@,
            out@ == seq!['^'] + glob_body_regex(glob@.take(iter.index())),
    {
        proof {
            let i = iter.index();
            assert(glob@.take(i + 1).drop_last() == glob@.take(i));
            assert(glob@.take(i + 1).last() == c);
        }
        if c == '.' {
            out.push('\\');
            out.push('.');
        } else if c == '*' {
            out.push('.');
            out.push('*');
        } else if c == '?' {
            out.push('.');
        } else {
            out.push(c);
        }
    }
    assert(glob@.take(glob@.len() as int) == glob@);
    out.push('$');
    chars_to_string(out.as_slice())
}

/// Whether the regular expression of the glob is one that the engine
/// accepts.
pub open spec fn glob_valid(glob: Seq<char>) -> bool {
    regex_compiles(glob_regex(glob))
}

/// Whether the glob takes the file name: its regular expression matches it.
pub open spec fn glob_accepts(glob: Seq<char>, name: Seq<char>) -> bool {
    regex_matches(glob_regex(glob), name)
}

/// Tells whether a file name matches a glob as a whole.
///
/// The glob is turned into an anchored regular expression and handed to the
/// regex engine.  A glob whose regular expression the engine refuses is an
/// error; otherwise the answer is the engine's.
pub fn glob_match(pattern: &str, text: &str) -> (r: Result<bool, SearchError>)
    ensures
        r is Ok <==> glob_valid(pattern@),
        r matches Ok(b) ==> b == glob_accepts(pattern@, text@),
        r matches Err(e) ==> e@ == ErrorKind::InvalidGlob,
{
    match NamePattern::compile(glob_to_regex(pattern)) {
        Ok(re) => Ok(re.is_match(text)),
        Err(e) => Err(SearchError::InvalidGlob(e.to_string())),
    }
}

} // verus!
