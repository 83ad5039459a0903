//! The bounded list of matching lines that a search fills file by file.

use vstd::prelude::*;
use crate::line::{clamp_u32, line_match, line_match_view};
use crate::pattern::PatternMatcher;
use crate::types::{MatchView, ResultView, RipgrepMatch, RipgrepResult};

verus! {

/// The state of a collector as a mathematical value.
pub struct CollectorView {
    /// The matching lines listed so far.
    pub matches: Seq<MatchView>,
    /// How many files have been closed.
    pub files_searched: u32,
    /// Whether a matching line was turned away at the cap.
    pub capped: bool,
    /// The largest number of lines to list, if there is one.
    pub max_results: Option<u32>,
    /// How many lines were listed when the file that is open began.
    pub file_start: nat,
    /// Whether a line had been turned away when the file that is open began.
    pub capped_at_start: bool,
}

impl CollectorView {
    /// The state at the start of a search.
    pub open spec fn empty(max_results: Option<u32>) -> CollectorView {
        CollectorView {
            matches: Seq::empty(),
            files_searched: 0,
            capped: false,
            max_results,
            file_start: 0,
            capped_at_start: false,
        }
    }

    /// There is a cap and the list has reached it.
    pub open spec fn at_cap(self) -> bool {
        self.max_results matches Some(cap) && self.matches.len() >= cap
    }

    /// What holds of every collector: the list is no longer than the cap, and
    /// a line has been turned away only when the list was as long as the cap.
    pub open spec fn inv(self) -> bool {
        &&& self.file_start <= self.matches.len()
        &&& self.max_results matches Some(cap) ==> self.matches.len() <= cap
        &&& self.capped ==> self.max_results is Some && self.matches.len() == self.max_results->0
        &&& self.capped_at_start ==> self.max_results is Some && self.file_start
            == self.max_results->0
    }

    /// The state after a matching line was offered: at the cap the line is
    /// turned away and the collector remembers that; below it the line is
    /// added to the list.
    pub open spec fn offer(self, entry: MatchView) -> CollectorView {
        if self.at_cap() {
            CollectorView { capped: true, ..self }
        } else {
            CollectorView { matches: self.matches.push(entry), ..self }
        }
    }

    /// The state after the matching lines of a file were offered one after
    /// the other.
    pub open spec fn feed(self, entries: Seq<MatchView>) -> CollectorView
        decreases entries.len(),
    {
        if entries.len() == 0 {
            self
        } else {
            self.feed(entries.drop_last()).offer(entries.last())
        }
    }

    /// How many more lines the list takes: all that are offered where there
    /// is no cap, and what is left below the cap where there is one.
    pub open spec fn room(self, offered: nat) -> nat {
        match self.max_results {
            None => offered,
            Some(cap) => if self.matches.len() + offered <= cap {
                offered
            } else if self.matches.len() <= cap {
                (cap - self.matches.len()) as nat
            } else {
                0
            },
        }
    }

    /// No file is open: nothing has been offered since the last file was
    /// closed.
    pub open spec fn between_files(self) -> bool {
        self.file_start == self.matches.len() && self.capped_at_start == self.capped
    }

    /// The state with the open file's contribution taken back.
    pub open spec fn without_open_file(self) -> CollectorView {
        CollectorView {
            matches: self.matches.take(self.file_start as int),
            capped: self.capped_at_start,
            ..self
        }
    }

    /// The state after the open file was closed.  A file that could not be
    /// read counts as searched and contributes no line.
    pub open spec fn close_file(self, readable: bool) -> CollectorView {
        let kept = if readable {
            self
        } else {
            self.without_open_file()
        };
        CollectorView {
            files_searched: clamp_u32(self.files_searched + 1),
            file_start: kept.matches.len(),
            capped_at_start: kept.capped,
            ..kept
        }
    }

    /// The report of a search that ends in this state.
    pub open spec fn report(self, elapsed_ms: u128) -> ResultView {
        ResultView {
            matches: self.matches,
            files_searched: self.files_searched,
            total_matches: clamp_u32(self.matches.len() as int),
            truncated: self.capped,
            elapsed_ms: clamp_u32(elapsed_ms as int),
        }
    }
}

/// Offering the first `i + 1` lines is offering the first `i` and then the
/// next one.
pub proof fn lemma_feed_next(c: CollectorView, entries: Seq<MatchView>, i: int)
    requires
        0 <= i < entries.len(),
    ensures
        c.feed(entries.take(i + 1)) == c.feed(entries.take(i)).offer(entries[i]),
{
    assert(entries.take(i + 1).drop_last() == entries.take(i));
}

/// What offering a file's lines comes to: the list takes as many of them as
/// there is room for, in their order, and a line has been turned away if and
/// only if one had been before or there were more lines than room.  Nothing
/// else changes.
pub proof fn lemma_feed(c: CollectorView, entries: Seq<MatchView>)
    requires
        c.inv(),
    ensures
        c.feed(entries) == (CollectorView {
            matches: c.matches + entries.take(c.room(entries.len()) as int),
            capped: c.capped || c.room(entries.len()) < entries.len(),
            ..c
        }),
        c.feed(entries).inv(),
    decreases entries.len(),
{
    if entries.len() == 0 {
        assert(c.matches + entries.take(0) == c.matches);
    } else {
        let shorter = entries.drop_last();
        lemma_feed(c, shorter);
        let mid = c.feed(shorter);
        let room = c.room(entries.len()) as int;
        if mid.at_cap() {
            assert(entries.take(room) == shorter.take(c.room(shorter.len()) as int));
        } else {
            assert(shorter.take(shorter.len() as int) == shorter);
            assert(entries.take(entries.len() as int) == entries);
            assert(c.matches + shorter.push(entries.last()) == (c.matches + shorter).push(
                entries.last(),
            ));
            assert(shorter.push(entries.last()) == entries);
        }
    }
}

/// Once a line has been turned away, offering more lines changes nothing.
pub proof fn lemma_feed_when_capped(c: CollectorView, entries: Seq<MatchView>)
    requires
        c.inv(),
        c.capped,
    ensures
        c.feed(entries) == c,
{
    lemma_feed(c, entries);
    assert(c.matches + entries.take(0) == c.matches);
}

/// Offering a list of lines is offering its first part and then the rest.
pub proof fn lemma_feed_split(c: CollectorView, entries: Seq<MatchView>, i: int)
    requires
        0 <= i <= entries.len(),
    ensures
        c.feed(entries) == c.feed(entries.take(i)).feed(entries.skip(i)),
    decreases entries.len() - i,
{
    if i == entries.len() {
        assert(entries.take(i) == entries);
    } else {
        let rest = entries.skip(i);
        lemma_feed_split(c, entries.drop_last(), i);
        assert(entries.drop_last().take(i) == entries.take(i));
        assert(entries.drop_last().skip(i) == rest.drop_last());
        assert(rest.last() == entries.last());
    }
}

/// Closing a file keeps a collector in order, and leaves no file open.
pub proof fn lemma_close_file(c: CollectorView, readable: bool)
    requires
        c.inv(),
    ensures
        c.close_file(readable).inv(),
        c.close_file(readable).between_files(),
{
}

/// A list of matching lines with an optional cap, and a count of the files
/// that were searched.
pub struct ResultCollector {
    matches: Vec<RipgrepMatch>,
    files_searched: u32,
    capped: bool,
    max_results: Option<u32>,
    file_start: usize,
    capped_at_start: bool,
}

impl View for ResultCollector {
    type V = CollectorView;

    closed spec fn view(&self) -> CollectorView {
        CollectorView {
            matches: self.matches.deep_view(),
            files_searched: self.files_searched,
            capped: self.capped,
            max_results: self.max_results,
            file_start: self.file_start as nat,
            capped_at_start: self.capped_at_start,
        }
    }
}

impl ResultCollector {
    /// An empty collector.
    pub fn new(max_results: Option<u32>) -> (collector: ResultCollector)
        ensures
            collector@ == CollectorView::empty(max_results),
            collector@.inv(),
    {
        let collector = ResultCollector {
            matches: Vec::new(),
            files_searched: 0,
            capped: false,
            max_results,
            file_start: 0,
            capped_at_start: false,
        };
        assert(collector.matches.deep_view() == Seq::<MatchView>::empty());
        collector
    }

    /// Whether a matching line was turned away at the cap.
    pub fn is_capped(&self) -> (capped: bool)
        ensures
            capped == self@.capped,
    {
        self.capped
    }

    /// Whether there is a cap and the list has reached it.
    pub fn at_cap(&self) -> (full: bool)
        ensures
            full == self@.at_cap(),
    {
        match self.max_results {
            Some(cap) => self.matches.len() >= cap as usize,
            None => false,
        }
    }

    /// Offers a matching line that has already been put into a record.
    /// Returns whether the scan of the file should go on.
    pub fn record(&mut self, entry: RipgrepMatch) -> (keep_going: bool)
        requires
            old(self)@.inv(),
        ensures
            final(self)@ == old(self)@.offer(entry@),
            keep_going == !old(self)@.at_cap(),
            final(self)@.inv(),
    {
        if self.at_cap() {
            self.capped = true;
            false
        } else {
            let ghost before = self.matches.deep_view();
            self.matches.push(entry);
            assert(self.matches.deep_view() == before.push(entry@));
            true
        }
    }

    /// Takes a matching line as the line scanner reports it: the path of the
    /// file, the line's number and its bytes.  At the cap the line is turned
    /// away; below it the line's record is built and added.  Returns whether
    /// the scan of the file should go on.
    pub fn matched(
        &mut self,
        matcher: &PatternMatcher,
        path: &str,
        line_number: u64,
        line: &[u8],
    ) -> (keep_going: bool)
        requires
            old(self)@.inv(),
        ensures
            final(self)@ == old(self)@.offer(
                line_match_view(
                    matcher@.pattern,
                    matcher@.case_insensitive,
                    path@,
                    line_number,
                    line@,
                ),
            ),
            keep_going == !old(self)@.at_cap(),
            final(self)@.inv(),
    {
        if self.at_cap() {
            self.capped = true;
            return false;
        }
        self.record(line_match(matcher, path, line_number, line))
    }

    /// Closes the file that is open and counts it.  A file that could not be
    /// read to its end loses the lines it had contributed.  Returns whether
    /// the walk should go on to the next file.
    pub fn close_file(&mut self, readable: bool) -> (go_on: bool)
        requires
            old(self)@.inv(),
        ensures
            final(self)@ == old(self)@.close_file(readable),
            go_on == !final(self)@.capped,
            final(self)@.inv(),
    {
        if !readable {
            let ghost before = self.matches.deep_view();
            self.capped = self.capped_at_start;
            self.matches.truncate(self.file_start);
            assert(self.matches.deep_view() == before.take(self.file_start as int));
        }
        self.files_searched = self.files_searched.saturating_add(1);
        self.file_start = self.matches.len();
        self.capped_at_start = self.capped;
        !self.capped
    }

    /// Ends the search and hands out the report.
    pub fn finish(self, elapsed_ms: u128) -> (result: RipgrepResult)
        ensures
            result@ == self@.report(elapsed_ms),
    {
        let total: usize = self.matches.len();
        RipgrepResult {
            matches: self.matches,
            files_searched: self.files_searched,
            total_matches: if total > u32::MAX as usize {
                u32::MAX
            } else {
                total as u32
            },
            truncated: self.capped,
            elapsed_ms: if elapsed_ms > u32::MAX as u128 {
                u32::MAX
            } else {
                elapsed_ms as u32
            },
        }
    }
}

} // verus!
