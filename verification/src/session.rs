//! A search that is under way: the decisions that are taken as the walk hands
//! in files and the line scanner hands in matching lines.

use vstd::prelude::*;
use crate::collector::{
    lemma_feed, lemma_feed_next, lemma_feed_split, lemma_feed_when_capped, CollectorView,
    ResultCollector,
};
use crate::glob::glob_match;
use crate::line::{lemma_line_match_well_formed, line_match_view};
use crate::outcome::{
    admits_name, all_well_formed, buffer_entries, glob_fails, visit, FileView, Query,
};
use crate::pattern::{pattern_hits, PatternMatcher};
use crate::types::{text_of, ErrorKind, RipgrepResult, SearchError};

verus! {

/// A file as the walk hands it to a search that works on data in memory.
#[derive(Clone, Debug, PartialEq, Eq)]
pub struct SourceFile {
    /// The file's path, as it is to appear in the report.
    pub path: String,
    /// The last component of the path, if it has one.
    pub name: Option<String>,
    /// The file's bytes, or nothing for a file that could not be read.
    pub content: Option<Vec<u8>>,
}

impl View for SourceFile {
    type V = FileView;

    open spec fn view(&self) -> FileView {
        FileView {
            path: self.path@,
            name: text_of(self.name),
            content: match self.content {
                Some(bytes) => Some(bytes@),
                None => None,
            },
        }
    }
}

impl DeepView for SourceFile {
    type V = FileView;

    open spec fn deep_view(&self) -> FileView {
        self@
    }
}

/// A search that is under way: the compiled pattern, the settings, and the
/// lines collected so far.
pub struct SearchSession {
    matcher: PatternMatcher,
    glob: Option<String>,
    before_context: usize,
    after_context: usize,
    collector: ResultCollector,
}

/// A search that is under way as a mathematical value.
pub struct SessionView {
    pub query: Query,
    pub collector: CollectorView,
}

impl View for SearchSession {
    type V = SessionView;

    closed spec fn view(&self) -> SessionView {
        SessionView {
            query: Query {
                pattern: self.matcher@.pattern,
                case_insensitive: self.matcher@.case_insensitive,
                glob: text_of(self.glob),
                max_results: self.collector@.max_results,
                before_context: self.before_context,
                after_context: self.after_context,
            },
            collector: self.collector@,
        }
    }
}

/// The text of an optional file name.
pub open spec fn name_text(name: Option<&str>) -> Option<Seq<char>> {
    match name {
        Some(name) => Some(name@),
        None => None,
    }
}

impl SearchSession {
    /// A session at the start of a search.
    pub fn start(
        matcher: PatternMatcher,
        glob: Option<String>,
        before_context: usize,
        after_context: usize,
        max_results: Option<u32>,
    ) -> (session: SearchSession)
        ensures
            session.inv(),
            session@ == (SessionView {
                query: Query {
                    pattern: matcher@.pattern,
                    case_insensitive: matcher@.case_insensitive,
                    glob: text_of(glob),
                    max_results,
                    before_context,
                    after_context,
                },
                collector: CollectorView::empty(max_results),
            }),
    {
        SearchSession {
            matcher,
            glob,
            before_context,
            after_context,
            collector: ResultCollector::new(max_results),
        }
    }

    /// What holds of every session: its collector is in order, and every
    /// record that it lists is well formed.
    pub open spec fn inv(&self) -> bool {
        self@.collector.inv() && all_well_formed(self@.collector.matches)
    }

    /// The compiled pattern, for a searcher that reads files.
    pub fn matcher(&self) -> (matcher: &PatternMatcher)
        ensures
            matcher@.pattern == self@.query.pattern,
            matcher@.case_insensitive == self@.query.case_insensitive,
    {
        &self.matcher
    }

    /// How many lines before a matching line a searcher that reads files is to
    /// take as context.
    pub fn before_context(&self) -> (lines: usize)
        ensures
            lines == self@.query.before_context,
    {
        self.before_context
    }

    /// How many lines after a matching line a searcher that reads files is to
    /// take as context.
    pub fn after_context(&self) -> (lines: usize)
        ensures
            lines == self@.query.after_context,
    {
        self.after_context
    }

    /// Decides whether a file that the walk came upon is to be scanned.  With
    /// a glob, a file that has a name is scanned if the glob takes the name;
    /// every other file is scanned.  A glob that is not valid is an error as
    /// soon as it has to be applied.
    pub fn admits(&self, name: Option<&str>) -> (r: Result<bool, SearchError>)
        ensures
            r is Err <==> glob_fails(self@.query.glob, name_text(name)),
            r matches Ok(scan) ==> scan == admits_name(self@.query.glob, name_text(name)),
            r matches Err(e) ==> e@ == ErrorKind::InvalidGlob,
    {
        match &self.glob {
            None => Ok(true),
            Some(glob) => match name {
                None => Ok(true),
                Some(name) => glob_match(glob.as_str(), name),
            },
        }
    }

    /// Takes a matching line of the file that is being scanned.  Returns
    /// whether the scan of the file should go on.
    pub fn matched(&mut self, path: &str, line_number: u64, line: &[u8]) -> (keep_going: bool)
        requires
            old(self).inv(),
        ensures
            final(self).inv(),
            final(self)@.query == old(self)@.query,
            final(self)@.collector == old(self)@.collector.offer(
                line_match_view(
                    old(self)@.query.pattern,
                    old(self)@.query.case_insensitive,
                    path@,
                    line_number,
                    line@,
                ),
            ),
            keep_going == !old(self)@.collector.at_cap(),
    {
        proof {
            lemma_line_match_well_formed(
                self.matcher@.pattern,
                self.matcher@.case_insensitive,
                path@,
                line_number,
                line@,
            );
        }
        self.collector.matched(&self.matcher, path, line_number, line)
    }

    /// Closes the file that was being scanned and counts it.  A file that
    /// could not be read to its end contributes no line.  Returns whether the
    /// walk should go on to the next file.
    pub fn close_file(&mut self, readable: bool) -> (go_on: bool)
        requires
            old(self).inv(),
        ensures
            final(self).inv(),
            final(self)@.query == old(self)@.query,
            final(self)@.collector == old(self)@.collector.close_file(readable),
            go_on == !final(self)@.collector.capped,
    {
        self.collector.close_file(readable)
    }

    /// Scans a buffer held in memory as the content of the file that is open:
    /// its matching lines are offered from top to bottom, until the buffer
    /// ends or a line is turned away.
    pub fn scan_slice(&mut self, path: &str, haystack: &[u8])
        requires
            old(self).inv(),
        ensures
            final(self).inv(),
            final(self)@.query == old(self)@.query,
            final(self)@.collector == old(self)@.collector.feed(
                buffer_entries(old(self)@.query, path@, haystack@),
            ),
    {
        let hits = self.matcher.matching_lines(self.before_context, self.after_context, haystack);
        let ghost query = self@.query;
        let ghost start = self@.collector;
        let ghost entries = buffer_entries(query, path@, haystack@);
        let mut i: usize = 0;
        let mut keep_going = true;
        while i < hits.len() && keep_going
            invariant
                i <= hits.len(),
                hits.deep_view().len() == hits.len(),
                entries == buffer_entries(query, path@, haystack@),
                hits.deep_view() == pattern_hits(
                    query.pattern,
                    query.case_insensitive,
                    query.before_context,
                    query.after_context,
                    haystack@,
                ),
                self.inv(),
                start.inv(),
                self@.query == query,
                self@.collector == start.feed(entries.take(i as int)),
                !keep_going ==> self@.collector.capped,
            decreases hits.len() - i,
        {
            let number: u64 = hits[i].0;
            let line = hits[i].1.as_slice();
            proof {
                assert(hits.deep_view()[i as int] == (number, line@)) by {
                    assert(hits@[i as int].1.deep_view() =~= hits@[i as int].1@);
                }
                lemma_feed_next(start, entries, i as int);
            }
            keep_going = self.matched(path, number, line);
            i = i + 1;
        }
        proof {
            if i < hits.len() {
                lemma_feed(start, entries.take(i as int));
                lemma_feed_when_capped(self@.collector, entries.skip(i as int));
                lemma_feed_split(start, entries, i as int);
            } else {
                assert(entries.take(i as int) == entries);
            }
        }
    }

    /// Handles a file that is held in memory: decides by its name whether it
    /// is scanned, scans its content and closes it.  Returns whether the walk
    /// should go on to the next file.
    pub fn scan_file(&mut self, file: &SourceFile) -> (r: Result<bool, SearchError>)
        requires
            old(self).inv(),
        ensures
            final(self).inv(),
            final(self)@.query == old(self)@.query,
            match r {
                Ok(go_on) => visit(old(self)@.collector, old(self)@.query, file@) == Ok::<
                    CollectorView,
                    ErrorKind,
                >(final(self)@.collector) && go_on == !final(self)@.collector.capped,
                Err(e) => visit(old(self)@.collector, old(self)@.query, file@) is Err
                    && e@ == ErrorKind::InvalidGlob && final(self)@ == old(self)@,
            },
    {
        let name: Option<&str> = match &file.name {
            Some(name) => Some(name.as_str()),
            None => None,
        };
        match self.admits(name) {
            Err(e) => Err(e),
            Ok(false) => Ok(!self.collector.is_capped()),
            Ok(true) => {
                match &file.content {
                    Some(bytes) => {
                        self.scan_slice(file.path.as_str(), bytes.as_slice());
                        Ok(self.close_file(true))
                    },
                    None => Ok(self.close_file(false)),
                }
            },
        }
    }

    /// Ends the search and hands out the report.  The list is no longer than
    /// the cap, it is as long as the cap where a line was turned away, and
    /// every record in it is well formed.
    pub fn finish(self, elapsed_ms: u128) -> (result: RipgrepResult)
        requires
            self.inv(),
        ensures
            result@ == self@.collector.report(elapsed_ms),
            all_well_formed(result@.matches),
            self@.query.max_results matches Some(cap) ==> result@.matches.len() <= cap,
            result@.truncated ==> self@.query.max_results is Some && result@.matches.len()
                == self@.query.max_results->0,
    {
        self.collector.finish(elapsed_ms)
    }
}

} // verus!
