//! The searcher: its defaults, the set-up of the directory walk, and the search
//! over files that are held in memory.

use vstd::prelude::*;
use crate::clock::Stopwatch;
use crate::collector::CollectorView;
use crate::line::clamp_u32;
use crate::order::strictly_sorted;
use crate::outcome::{
    all_well_formed, lemma_run_capped_stays, lemma_run_error_stays, run, search_outcome,
    search_yields, FileView, Query,
};
use crate::paths::{listed_paths, matched_paths, same_members};
use crate::pattern::{pattern_compiles, PatternMatcher};
use crate::session::{SearchSession, SessionView, SourceFile};
use crate::types::{
    text_of, ErrorKind, OptionsView, ResultView, RipgrepOptions, RipgrepResult, SearchError,
};

verus! {

/// The settings that a searcher falls back on where a request leaves them
/// open.
pub struct Defaults {
    pub case_insensitive: bool,
    pub before_context: u32,
    pub after_context: u32,
    pub max_results: Option<u32>,
}

impl Defaults {
    /// The defaults of a searcher that is made with no option set: case
    /// matters, no context, no cap.
    pub open spec fn standard() -> Defaults {
        Defaults { case_insensitive: false, before_context: 0, after_context: 0, max_results: None }
    }

    /// The defaults that a searcher takes from the options it is made with.
    pub open spec fn from_options(opts: OptionsView) -> Defaults {
        Defaults {
            case_insensitive: opts.case_insensitive.unwrap_or(false),
            before_context: opts.before_context.unwrap_or(0),
            after_context: opts.after_context.unwrap_or(0),
            max_results: opts.max_results,
        }
    }

    /// The settings of a search: what the request says, and the default where
    /// it says nothing.
    pub open spec fn resolve(self, opts: OptionsView) -> Query {
        Query {
            pattern: opts.pattern,
            case_insensitive: opts.case_insensitive.unwrap_or(self.case_insensitive),
            glob: opts.glob,
            max_results: if opts.max_results is Some {
                opts.max_results
            } else {
                self.max_results
            },
            before_context: opts.before_context.unwrap_or(self.before_context) as usize,
            after_context: opts.after_context.unwrap_or(self.after_context) as usize,
        }
    }
}

/// How the directory walk of a search is to be set up.
#[derive(Clone, Debug, PartialEq, Eq)]
pub struct WalkSettings {
    /// Leave out hidden entries.
    pub skip_hidden: bool,
    /// Leave out what the version control system's ignore files name.
    pub git_ignore: bool,
    /// The deepest level of entries that the walk yields, if limited; the
    /// root is level 0 and what stands directly in it is level 1.
    pub max_depth: Option<usize>,
    /// The name of a further ignore file to honour in every directory.
    pub custom_ignore_filename: Option<String>,
}

/// The deepest level of a walk for the depth limit of a request.  A request
/// counts from the root's immediate children, which are its depth 0; the walk
/// counts from the root itself, so that it goes one level deeper than the
/// request's number, as far as the machine's numbers go.
pub open spec fn walk_depth(max_depth: Option<u32>) -> Option<usize> {
    match max_depth {
        Some(depth) => Some(
            if depth + 1 <= usize::MAX {
                (depth + 1) as usize
            } else {
                usize::MAX
            },
        ),
        None => None,
    }
}

/// Derives the set-up of the directory walk from the options: hidden entries
/// are left out unless asked for, ignore files are always honoured, the walk
/// goes as deep as asked, and a search with a glob also honours `.rgignore`
/// files.
pub fn walk_settings(opts: &RipgrepOptions) -> (walk: WalkSettings)
    ensures
        walk.skip_hidden == !opts.include_hidden.unwrap_or(false),
        walk.git_ignore,
        walk.max_depth == walk_depth(opts.max_depth),
        text_of(walk.custom_ignore_filename) == if opts.glob is Some {
            Some(".rgignore"@)
        } else {
            None
        },
{
    let skip_hidden = match opts.include_hidden {
        Some(hidden_too) => !hidden_too,
        None => true,
    };
    let max_depth = match opts.max_depth {
        Some(depth) => Some((depth as usize).saturating_add(1)),
        None => None,
    };
    let custom_ignore_filename = match &opts.glob {
        Some(_) => Some(".rgignore".to_owned()),
        None => None,
    };
    WalkSettings { skip_hidden, git_ignore: true, max_depth, custom_ignore_filename }
}

/// A search with a searcher that is made for that one search runs with the
/// same settings as a search with a searcher that was made with no option set.
pub proof fn lemma_one_shot_settings(opts: OptionsView)
    ensures
        Defaults::from_options(opts).resolve(opts) == Defaults::standard().resolve(opts),
{
}

/// What every report of a search holds: each record is well formed, the count
/// of matches is the length of the list as far as 32 bits go, the list is no
/// longer than the cap, and it is as long as the cap where a line was turned
/// away.
pub open spec fn report_in_order(max_results: Option<u32>, report: ResultView) -> bool {
    &&& all_well_formed(report.matches)
    &&& report.total_matches == clamp_u32(report.matches.len() as int)
    &&& max_results matches Some(cap) ==> report.matches.len() <= cap
    &&& report.truncated ==> max_results is Some && report.matches.len() == max_results->0
}

/// A searcher: the defaults that its searches fall back on.
pub struct RipgrepSearcher {
    case_insensitive: bool,
    before_context: u32,
    after_context: u32,
    max_results: Option<u32>,
}

impl View for RipgrepSearcher {
    type V = Defaults;

    closed spec fn view(&self) -> Defaults {
        Defaults {
            case_insensitive: self.case_insensitive,
            before_context: self.before_context,
            after_context: self.after_context,
            max_results: self.max_results,
        }
    }
}

/// The result of a search as a mathematical value.
pub open spec fn result_view(r: Result<RipgrepResult, SearchError>) -> Result<
    ResultView,
    ErrorKind,
> {
    match r {
        Ok(report) => Ok(report@),
        Err(e) => Err(e@),
    }
}

impl RipgrepSearcher {
    /// Makes a searcher whose defaults are taken from the options.
    pub fn new(opts: &RipgrepOptions) -> (r: Result<RipgrepSearcher, SearchError>)
        ensures
            r matches Ok(searcher) && searcher@ == Defaults::from_options(opts@),
    {
        let case_insensitive = match opts.case_insensitive {
            Some(yes) => yes,
            None => false,
        };
        let before_context: u32 = match opts.before_context {
            Some(n) => n,
            None => 0,
        };
        let after_context: u32 = match opts.after_context {
            Some(n) => n,
            None => 0,
        };
        Ok(
            RipgrepSearcher {
                case_insensitive,
                before_context,
                after_context,
                max_results: opts.max_results,
            },
        )
    }

    /// The version of this library.
    pub fn version(&self) -> (text: String)
        ensures
            text@ == "1.0.0 (ripgrep-napi)"@,
    {
        "1.0.0 (ripgrep-napi)".to_owned()
    }

    /// Starts a search: settles the settings and compiles the pattern.  Fails
    /// if and only if the pattern does not compile; nothing has been scanned
    /// then.
    pub fn begin(&self, opts: &RipgrepOptions) -> (r: Result<SearchSession, SearchError>)
        ensures
            r is Ok <==> pattern_compiles(
                self@.resolve(opts@).pattern,
                self@.resolve(opts@).case_insensitive,
            ),
            r matches Ok(session) ==> session@ == (SessionView {
                query: self@.resolve(opts@),
                collector: CollectorView::empty(self@.resolve(opts@).max_results),
            }) && session.inv(),
            r matches Err(e) ==> e@ == ErrorKind::InvalidPattern,
    {
        let case_insensitive = match opts.case_insensitive {
            Some(yes) => yes,
            None => self.case_insensitive,
        };
        let max_results = match opts.max_results {
            Some(cap) => Some(cap),
            None => self.max_results,
        };
        let before_context: u32 = match opts.before_context {
            Some(n) => n,
            None => self.before_context,
        };
        let after_context: u32 = match opts.after_context {
            Some(n) => n,
            None => self.after_context,
        };
        let matcher = match PatternMatcher::new(opts.pattern.as_str(), case_insensitive) {
            Ok(matcher) => matcher,
            Err(e) => {
                return Err(e);
            },
        };
        let glob = match &opts.glob {
            Some(glob) => Some(glob.clone()),
            None => None,
        };
        Ok(
            SearchSession::start(
                matcher,
                glob,
                before_context as usize,
                after_context as usize,
                max_results,
            ),
        )
    }
}

impl RipgrepSearcher {
    /// Searches files that are held in memory.
    ///
    /// The pattern is compiled first; if it does not compile, no file is
    /// looked at.  The files are then visited in their order: a file that the
    /// glob turns away is passed over, every other file is scanned and
    /// counted, and the walk ends after the file in which a matching line was
    /// turned away at the cap.  Earlier searches leave no trace in the result.
    pub fn search(&self, opts: &RipgrepOptions, files: &Vec<SourceFile>) -> (r: Result<
        RipgrepResult,
        SearchError,
    >)
        ensures
            search_yields(self@.resolve(opts@), files.deep_view(), result_view(r)),
            r matches Ok(report) ==> report_in_order(self@.resolve(opts@).max_results, report@),
    {
        let watch = Stopwatch::start();
        let ghost query = self@.resolve(opts@);
        let ghost all = files.deep_view();
        let ghost start = CollectorView::empty(query.max_results);
        let mut session = match self.begin(opts) {
            Ok(session) => session,
            Err(e) => {
                return Err(e);
            },
        };
        let mut i: usize = 0;
        let mut go_on = true;
        while i < files.len() && go_on
            invariant
                i <= files.len(),
                all == files.deep_view(),
                all.len() == files.len(),
                query == self@.resolve(opts@),
                start == CollectorView::empty(query.max_results),
                pattern_compiles(query.pattern, query.case_insensitive),
                session.inv(),
                session@.query == query,
                run(start, query, all.take(i as int)) == Ok::<CollectorView, ErrorKind>(
                    session@.collector,
                ),
                go_on == !session@.collector.capped,
            decreases files.len() - i,
        {
            proof {
                assert(all.take(i + 1).drop_last() == all.take(i as int));
                assert(all.take(i + 1).last() == files[i as int]@);
            }
            match session.scan_file(&files[i]) {
                Ok(next) => {
                    go_on = next;
                },
                Err(e) => {
                    proof {
                        assert(run(start, query, all.take(i + 1)) is Err);
                        lemma_run_error_stays(start, query, all, i + 1);
                    }
                    return Err(e);
                },
            }
            i = i + 1;
        }
        proof {
            if i < files.len() {
                lemma_run_capped_stays(start, query, all, i as int);
            } else {
                assert(all.take(i as int) == all);
            }
        }
        let elapsed: u128 = watch.elapsed_ms();
        Ok(session.finish(elapsed))
    }
}

/// Searches files that are held in memory with a searcher made for this one
/// search.
pub fn search(opts: &RipgrepOptions, files: &Vec<SourceFile>) -> (r: Result<
    RipgrepResult,
    SearchError,
>)
    ensures
        search_yields(
            Defaults::from_options(opts@).resolve(opts@),
            files.deep_view(),
            result_view(r),
        ),
        r matches Ok(report) ==> report_in_order(opts@.max_results, report@),
{
    match RipgrepSearcher::new(opts) {
        Ok(searcher) => searcher.search(opts, files),
        Err(e) => Err(e),
    }
}

/// The list is one that a search for the files with matches may return: the
/// error of the outcome, or the paths of the lines that the search lists,
/// each once and in rising order.
pub open spec fn search_files_yields(
    query: Query,
    files: Seq<FileView>,
    result: Result<Seq<Seq<char>>, ErrorKind>,
) -> bool {
    match result {
        Ok(paths) => search_outcome(query, files) matches Ok(c) && strictly_sorted(paths)
            && same_members(paths, listed_paths(c.matches)),
        Err(e) => search_outcome(query, files) == Err::<CollectorView, ErrorKind>(e),
    }
}

/// Searches files that are held in memory and lists the files that hold a
/// match: the paths of the matching lines that the search lists, each once,
/// in the rising order of their bytes.
pub fn search_files(opts: &RipgrepOptions, files: &Vec<SourceFile>) -> (r: Result<
    Vec<String>,
    SearchError,
>)
    ensures
        search_files_yields(
            Defaults::from_options(opts@).resolve(opts@),
            files.deep_view(),
            match r {
                Ok(paths) => Ok(paths.deep_view()),
                Err(e) => Err(e@),
            },
        ),
{
    match search(opts, files) {
        Ok(report) => Ok(matched_paths(&report.matches)),
        Err(e) => Err(e),
    }
}

} // verus!
