//! What a search comes to, stated over plain values: the walk over the files,
//! the lines it lists, and when it ends.

use vstd::prelude::*;
use crate::collector::{lemma_close_file, lemma_feed, CollectorView};
use crate::glob::{glob_accepts, glob_valid};
use crate::line::{clamp_u32, lemma_line_match_well_formed, line_match_view};
use crate::pattern::{pattern_compiles, pattern_hits};
use crate::types::{ErrorKind, MatchView, ResultView};

verus! {

/// The settings that one search runs with.
pub struct Query {
    pub pattern: Seq<char>,
    pub case_insensitive: bool,
    pub glob: Option<Seq<char>>,
    pub max_results: Option<u32>,
    pub before_context: usize,
    pub after_context: usize,
}

/// A file as a mathematical value.
pub struct FileView {
    pub path: Seq<char>,
    pub name: Option<Seq<char>>,
    pub content: Option<Seq<u8>>,
}

/// The glob of the search cannot be applied to this file name: there is a
/// glob, the file has a name, and the glob is not valid.
pub open spec fn glob_fails(glob: Option<Seq<char>>, name: Option<Seq<char>>) -> bool {
    glob is Some && name is Some && !glob_valid(glob->0)
}

/// The file is to be scanned: there is no glob, or the file has no name, or
/// the glob takes the name.
pub open spec fn admits_name(glob: Option<Seq<char>>, name: Option<Seq<char>>) -> bool {
    glob is None || name is None || glob_accepts(glob->0, name->0)
}

/// The records of the matching lines of a buffer, from top to bottom.
pub open spec fn buffer_entries(query: Query, path: Seq<char>, haystack: Seq<u8>) -> Seq<
    MatchView,
> {
    pattern_hits(
        query.pattern,
        query.case_insensitive,
        query.before_context,
        query.after_context,
        haystack,
    ).map_values(
        |hit: (u64, Seq<u8>)|
            line_match_view(query.pattern, query.case_insensitive, path, hit.0, hit.1),
    )
}

/// The records of the matching lines of a file; none for a file that could
/// not be read.
pub open spec fn file_entries(query: Query, file: FileView) -> Seq<MatchView> {
    match file.content {
        Some(bytes) => buffer_entries(query, file.path, bytes),
        None => Seq::empty(),
    }
}

/// The state after a file was scanned and closed.
pub open spec fn scan(c: CollectorView, query: Query, file: FileView) -> CollectorView {
    c.feed(file_entries(query, file)).close_file(file.content is Some)
}

/// What the walk's coming upon a file leads to: an error where the glob
/// cannot be applied, no change where the glob turns the file away, and else
/// the state after the file was scanned.
pub open spec fn visit(c: CollectorView, query: Query, file: FileView) -> Result<
    CollectorView,
    ErrorKind,
> {
    if glob_fails(query.glob, file.name) {
        Err(ErrorKind::InvalidGlob)
    } else if !admits_name(query.glob, file.name) {
        Ok(c)
    } else {
        Ok(scan(c, query, file))
    }
}

/// What a walk over the files leads to, one file after the other.  The walk
/// ends at the first error, and it visits no further file once a line has
/// been turned away.
pub open spec fn run(c: CollectorView, query: Query, files: Seq<FileView>) -> Result<
    CollectorView,
    ErrorKind,
>
    decreases files.len(),
{
    if files.len() == 0 {
        Ok(c)
    } else {
        match run(c, query, files.drop_last()) {
            Err(e) => Err(e),
            Ok(before) => if before.capped {
                Ok(before)
            } else {
                visit(before, query, files.last())
            },
        }
    }
}

/// What a search comes to: an error where the pattern does not compile, and
/// else what the walk over the files leads to from an empty collector.
pub open spec fn search_outcome(query: Query, files: Seq<FileView>) -> Result<
    CollectorView,
    ErrorKind,
> {
    if !pattern_compiles(query.pattern, query.case_insensitive) {
        Err(ErrorKind::InvalidPattern)
    } else {
        run(CollectorView::empty(query.max_results), query, files)
    }
}

/// The result is one that a search with these settings over these files may
/// return: the error of the outcome, or the report of its final state with
/// some elapsed time.
pub open spec fn search_yields(
    query: Query,
    files: Seq<FileView>,
    result: Result<ResultView, ErrorKind>,
) -> bool {
    match result {
        Ok(report) => search_outcome(query, files) matches Ok(c) && report == (ResultView {
            elapsed_ms: report.elapsed_ms,
            ..c.report(0)
        }),
        Err(e) => search_outcome(query, files) == Err::<CollectorView, ErrorKind>(e),
    }
}

/// A walk that has ended in an error stays there, whatever files follow.
pub proof fn lemma_run_error_stays(c: CollectorView, query: Query, files: Seq<FileView>, i: int)
    requires
        0 <= i <= files.len(),
        run(c, query, files.take(i)) is Err,
    ensures
        run(c, query, files) == run(c, query, files.take(i)),
    decreases files.len() - i,
{
    if i == files.len() {
        assert(files.take(i) == files);
    } else {
        assert(files.take(i + 1).drop_last() == files.take(i));
        lemma_run_error_stays(c, query, files, i + 1);
    }
}

/// A walk that has turned a line away stays in that state, whatever files
/// follow.
pub proof fn lemma_run_capped_stays(c: CollectorView, query: Query, files: Seq<FileView>, i: int)
    requires
        0 <= i <= files.len(),
        run(c, query, files.take(i)) matches Ok(reached) && reached.capped,
    ensures
        run(c, query, files) == run(c, query, files.take(i)),
    decreases files.len() - i,
{
    if i == files.len() {
        assert(files.take(i) == files);
    } else {
        assert(files.take(i + 1).drop_last() == files.take(i));
        lemma_run_capped_stays(c, query, files, i + 1);
    }
}

/// The files among these that are scanned: those that the glob does not turn
/// away.
pub open spec fn admitted_count(query: Query, files: Seq<FileView>) -> nat
    decreases files.len(),
{
    if files.len() == 0 {
        0
    } else {
        admitted_count(query, files.drop_last()) + if admits_name(
            query.glob,
            files.last().name,
        ) {
            1nat
        } else {
            0nat
        }
    }
}

/// Every matching line of the files that are scanned, in the order of the
/// files and from top to bottom within each: what a search without a cap
/// would list.
pub open spec fn all_entries(query: Query, files: Seq<FileView>) -> Seq<MatchView>
    decreases files.len(),
{
    if files.len() == 0 {
        Seq::empty()
    } else {
        all_entries(query, files.drop_last()) + if admits_name(query.glob, files.last().name) {
            file_entries(query, files.last())
        } else {
            Seq::empty()
        }
    }
}

/// The files hold more matching lines than the cap allows.
pub open spec fn exceeds_cap(query: Query, files: Seq<FileView>) -> bool {
    query.max_results matches Some(cap) && all_entries(query, files).len() > cap
}

/// The list cut off at the cap.
pub open spec fn up_to_cap(entries: Seq<MatchView>, max_results: Option<u32>) -> Seq<MatchView> {
    match max_results {
        Some(cap) => if entries.len() > cap {
            entries.take(cap as int)
        } else {
            entries
        },
        None => entries,
    }
}

/// How many of the files the walk gets to: all of them, unless the files hold
/// more matching lines than the cap allows; then the walk ends with the file
/// in which the line beyond the cap stands.
pub open spec fn visited(query: Query, files: Seq<FileView>) -> nat
    decreases files.len(),
{
    if files.len() == 0 {
        0
    } else if exceeds_cap(query, files.drop_last()) {
        visited(query, files.drop_last())
    } else {
        files.len()
    }
}

/// Every record of the list is well formed.
pub open spec fn all_well_formed(entries: Seq<MatchView>) -> bool {
    forall|i: int| 0 <= i < entries.len() ==> (#[trigger] entries[i]).well_formed()
}

/// The matching lines of a longer list of files begin with those of a shorter
/// one.
pub proof fn lemma_all_entries_grow(query: Query, files: Seq<FileView>, i: int)
    requires
        0 <= i <= files.len(),
    ensures
        all_entries(query, files.take(i)).len() <= all_entries(query, files).len(),
        all_entries(query, files.take(i)) == all_entries(query, files).take(
            all_entries(query, files.take(i)).len() as int,
        ),
    decreases files.len() - i,
{
    if i == files.len() {
        assert(files.take(i) == files);
        assert(all_entries(query, files).take(all_entries(query, files).len() as int)
            == all_entries(query, files));
    } else {
        lemma_all_entries_grow(query, files.drop_last(), i);
        assert(files.drop_last().take(i) == files.take(i));
        let shorter = all_entries(query, files.take(i));
        let mid = all_entries(query, files.drop_last());
        assert(shorter == all_entries(query, files).take(shorter.len() as int)) by {
            assert(mid.take(shorter.len() as int) == all_entries(query, files).take(
                shorter.len() as int,
            ));
        }
    }
}

/// Where the walk ends: with all files where the cap is not exceeded; else
/// with the first file at which it is.
pub proof fn lemma_visited(query: Query, files: Seq<FileView>)
    ensures
        visited(query, files) <= files.len(),
        !exceeds_cap(query, files) ==> visited(query, files) == files.len(),
        exceeds_cap(query, files) ==> {
            &&& visited(query, files) >= 1
            &&& exceeds_cap(query, files.take(visited(query, files) as int))
            &&& !exceeds_cap(query, files.take(visited(query, files) - 1))
        },
    decreases files.len(),
{
    if files.len() > 0 {
        let shorter = files.drop_last();
        lemma_visited(query, shorter);
        lemma_all_entries_grow(query, files, files.len() - 1);
        assert(files.take(files.len() - 1) == shorter);
        if exceeds_cap(query, shorter) {
            let v = visited(query, shorter) as int;
            assert(shorter.take(v) == files.take(v));
            assert(shorter.take(v - 1) == files.take(v - 1));
        } else {
            assert(files.take(files.len() as int) == files);
        }
    }
}

/// Every matching line of a file has a well-formed record: each of its
/// occurrences satisfies `0 <= start <= end <= length of the text`, and they
/// follow each other from left to right.
pub proof fn lemma_file_entries_well_formed(query: Query, file: FileView)
    ensures
        all_well_formed(file_entries(query, file)),
{
    let entries = file_entries(query, file);
    assert forall|i: int| 0 <= i < entries.len() implies (#[trigger] entries[i]).well_formed() by {
        let hits = pattern_hits(
            query.pattern,
            query.case_insensitive,
            query.before_context,
            query.after_context,
            file.content->0,
        );
        lemma_line_match_well_formed(
            query.pattern,
            query.case_insensitive,
            file.path,
            hits[i].0,
            hits[i].1,
        );
    }
}

/// What a walk from an empty collector comes to, if not to an error.
///
/// The list holds the matching lines of the scanned files in their order, cut
/// off at the cap.  A line has been turned away if and only if the files hold
/// more matching lines than the cap allows.  The count of files is the number
/// of scanned files among those that the walk got to.
pub proof fn lemma_run(query: Query, files: Seq<FileView>)
    ensures
        run(CollectorView::empty(query.max_results), query, files) matches Ok(c) ==> {
            &&& c.inv()
            &&& c.between_files()
            &&& c.max_results == query.max_results
            &&& c.matches == up_to_cap(all_entries(query, files), query.max_results)
            &&& c.capped == exceeds_cap(query, files)
            &&& c.files_searched == clamp_u32(
                admitted_count(query, files.take(visited(query, files) as int)) as int,
            )
        },
    decreases files.len(),
{
    let start = CollectorView::empty(query.max_results);
    if files.len() == 0 {
        assert(files.take(0) == files);
    } else if run(start, query, files) is Ok {
        let shorter = files.drop_last();
        let file = files.last();
        lemma_run(query, shorter);
        lemma_visited(query, shorter);
        lemma_all_entries_grow(query, files, files.len() - 1);
        assert(files.take(files.len() - 1) == shorter);
        let before = run(start, query, shorter)->Ok_0;
        let listed = all_entries(query, shorter);
        if before.capped {
            let v = visited(query, shorter) as int;
            assert(shorter.take(v) == files.take(v));
            let cap = query.max_results->0 as int;
            assert(all_entries(query, files).take(cap) == listed.take(cap)) by {
                assert(listed == all_entries(query, files).take(listed.len() as int));
            }
        } else {
            assert(files.take(files.len() as int) == files);
            assert(shorter.take(shorter.len() as int) == shorter);
            assert(before.matches == listed);
            assert(!glob_fails(query.glob, file.name));
            if admits_name(query.glob, file.name) {
                let entries = file_entries(query, file);
                lemma_feed(before, entries);
                let fed = before.feed(entries);
                lemma_close_file(fed, file.content is Some);
                assert(fed.matches == up_to_cap(listed + entries, query.max_results)) by {
                    let room = before.room(entries.len()) as int;
                    if room == entries.len() {
                        assert(entries.take(room) == entries);
                    } else {
                        assert(listed + entries.take(room) == (listed + entries).take(
                            query.max_results->0 as int,
                        ));
                    }
                }
                if file.content is None {
                    assert(fed == before);
                    assert(fed.matches.take(fed.file_start as int) == fed.matches);
                }
            } else {
                assert(listed + Seq::<MatchView>::empty() == listed);
            }
        }
    }
}

/// Which lines the files hold does not depend on the cap.
pub proof fn lemma_all_entries_without_cap(query: Query, files: Seq<FileView>)
    ensures
        all_entries(Query { max_results: None, ..query }, files) == all_entries(query, files),
    decreases files.len(),
{
    if files.len() > 0 {
        lemma_all_entries_without_cap(query, files.drop_last());
    }
}

/// A walk from an empty collector ends, if not in an error, in a collector
/// that is in order and whose records are all well formed.
pub proof fn lemma_run_in_order(query: Query, files: Seq<FileView>)
    ensures
        run(CollectorView::empty(query.max_results), query, files) matches Ok(c) ==> {
            &&& c.inv()
            &&& c.max_results == query.max_results
            &&& all_well_formed(c.matches)
        },
    decreases files.len(),
{
    let start = CollectorView::empty(query.max_results);
    if files.len() > 0 {
        let shorter = files.drop_last();
        let file = files.last();
        lemma_run_in_order(query, shorter);
        if run(start, query, shorter) is Ok {
            let before = run(start, query, shorter)->Ok_0;
            if !before.capped && !glob_fails(query.glob, file.name) && admits_name(
                query.glob,
                file.name,
            ) {
                let entries = file_entries(query, file);
                lemma_feed(before, entries);
                let fed = before.feed(entries);
                lemma_close_file(fed, file.content is Some);
                lemma_file_entries_well_formed(query, file);
                let closed = fed.close_file(file.content is Some);
                assert forall|i: int| 0 <= i < closed.matches.len() implies (
                #[trigger] closed.matches[i]).well_formed() by {
                    if i < before.matches.len() {
                        assert(closed.matches[i] == before.matches[i]);
                    } else {
                        assert(closed.matches[i] == entries[i - before.matches.len()]);
                    }
                }
            }
        }
    }
}

/// What a report lists: the matching lines of the scanned files in their
/// order, cut off at the cap.  The report is marked as truncated if and only
/// if the files hold more matching lines than the cap allows.
pub proof fn lemma_report_lists(query: Query, files: Seq<FileView>, report: ResultView)
    requires
        search_yields(query, files, Ok(report)),
    ensures
        report.matches == up_to_cap(all_entries(query, files), query.max_results),
        report.truncated <==> exceeds_cap(query, files),
{
    lemma_run(query, files);
}

/// The cap holds, and the report tells when it cut the list short.
///
/// Take a search with a cap and the same search without one.  The capped
/// search lists no more lines than the cap; what it lists is the beginning of
/// what the search without a cap lists; and its report is marked as truncated
/// if and only if the search without a cap lists more lines than the cap.
pub proof fn lemma_cap(
    query: Query,
    files: Seq<FileView>,
    report: ResultView,
    uncapped: ResultView,
)
    requires
        query.max_results is Some,
        search_yields(query, files, Ok(report)),
        search_yields(Query { max_results: None, ..query }, files, Ok(uncapped)),
    ensures
        report.matches.len() <= query.max_results->0,
        report.matches == up_to_cap(uncapped.matches, query.max_results),
        report.truncated <==> uncapped.matches.len() > query.max_results->0,
{
    lemma_run(query, files);
    lemma_run(Query { max_results: None, ..query }, files);
    lemma_all_entries_without_cap(query, files);
}

/// The count of matches is the length of the list.
///
/// In every report of a search the count equals the number of listed lines,
/// as long as that number fits into 32 bits, which it does whenever there is
/// a cap; beyond that the count stays at the largest 32-bit number.
pub proof fn lemma_total_matches(query: Query, files: Seq<FileView>, report: ResultView)
    requires
        search_yields(query, files, Ok(report)),
    ensures
        report.total_matches == clamp_u32(report.matches.len() as int),
        report.matches.len() <= u32::MAX ==> report.total_matches == report.matches.len(),
        query.max_results is Some ==> report.total_matches == report.matches.len(),
{
    lemma_run_in_order(query, files);
}

/// The count of files is the number of files that were scanned.
///
/// A search that ends in a report has counted the files that the glob did not
/// turn away among those that the walk got to: all files where the report is
/// not truncated, and else the files up to and including the one in which the
/// line beyond the cap stands.  The count stays at the largest 32-bit number
/// where it would go beyond.
pub proof fn lemma_files_searched(query: Query, files: Seq<FileView>, report: ResultView)
    requires
        search_yields(query, files, Ok(report)),
    ensures
        report.files_searched == clamp_u32(
            admitted_count(query, files.take(visited(query, files) as int)) as int,
        ),
        visited(query, files) <= files.len(),
        !report.truncated ==> visited(query, files) == files.len(),
        report.truncated ==> {
            &&& visited(query, files) >= 1
            &&& exceeds_cap(query, files.take(visited(query, files) as int))
            &&& !exceeds_cap(query, files.take(visited(query, files) - 1))
        },
{
    lemma_run(query, files);
    lemma_visited(query, files);
}

/// The same search gives the same result.
///
/// Two results of a search with the same settings over the same files are
/// both errors of the same kind, or both reports with the same lines in the
/// same order, the same counts and the same mark; only the elapsed time may
/// differ.
pub proof fn lemma_same_search_same_result(
    query: Query,
    files: Seq<FileView>,
    first: Result<ResultView, ErrorKind>,
    second: Result<ResultView, ErrorKind>,
)
    requires
        search_yields(query, files, first),
        search_yields(query, files, second),
    ensures
        match (first, second) {
            (Ok(a), Ok(b)) => a.matches == b.matches && a.files_searched == b.files_searched
                && a.total_matches == b.total_matches && a.truncated == b.truncated,
            (Err(a), Err(b)) => a == b,
            _ => false,
        },
{
}

/// Every occurrence lies within its line.
///
/// In every report of a search, every occurrence listed for a line satisfies
/// `0 <= start <= end <= length of the line's text in bytes`, and the
/// occurrences of a line follow each other from left to right.
pub proof fn lemma_submatch_bounds(query: Query, files: Seq<FileView>, report: ResultView)
    requires
        search_yields(query, files, Ok(report)),
    ensures
        forall|i: int, j: int|
            0 <= i < report.matches.len() && 0 <= j < report.matches[i].submatches.len() ==> 0 <= (
            #[trigger] report.matches[i].submatches[j]).start <= report.matches[i].submatches[j].end
                <= report.matches[i].text_len(),
        forall|i: int, j: int, k: int|
            0 <= i < report.matches.len() && 0 <= j < k < report.matches[i].submatches.len()
                ==> (#[trigger] report.matches[i].submatches[j]).start <= (
            #[trigger] report.matches[i].submatches[k]).start,
{
    lemma_run_in_order(query, files);
    assert forall|i: int, j: int|
        0 <= i < report.matches.len() && 0 <= j < report.matches[i].submatches.len() implies 0 <= (
    #[trigger] report.matches[i].submatches[j]).start <= report.matches[i].submatches[j].end
        <= report.matches[i].text_len() by {
        assert(report.matches[i].well_formed());
    }
    assert forall|i: int, j: int, k: int|
        0 <= i < report.matches.len() && 0 <= j < k < report.matches[i].submatches.len() implies (
    #[trigger] report.matches[i].submatches[j]).start <= (
    #[trigger] report.matches[i].submatches[k]).start by {
        assert(report.matches[i].well_formed());
        let spans = report.matches[i].submatches;
        assert(spans[j].start <= spans[j].end <= spans[k].start);
    }
}

} // verus!
