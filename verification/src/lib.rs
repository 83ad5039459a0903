//! Pattern search over a set of files.
//!
//! A regular expression is matched line by line, the matching lines are
//! gathered up to an optional cap, and the result is reported with per-line
//! positions and aggregate counts.
//!
//! The library takes every decision of a search and reads no file itself.  A
//! caller that walks a directory tree starts a [`session::SearchSession`],
//! asks it whether a file is to be scanned, hands it each matching line, and
//! closes each file; the session says when to stop.  A caller that holds the
//! files in memory calls [`search()`], which does all of this in one go.
//!
//! The modules, from the bottom up:
//!
//! - [`types`]: the options, the matching lines and the report;
//! - [`text`], [`order`]: decoding of bytes, and the order in which paths are
//!   listed;
//! - [`glob`]: file name patterns;
//! - [`pattern`]: the compiled search pattern;
//! - [`line`]: from a matching line's bytes to its record;
//! - [`collector`]: the bounded list of records and the count of files;
//! - [`session`]: a search that is under way;
//! - [`outcome`]: what a search comes to, as a mathematical statement, and
//!   what follows from it;
//! - [`search`]: the searcher and the search over files in memory;
//! - [`paths`]: the list of files that hold a match;
//! - [`clock`]: the stopwatch behind the elapsed time.
//!
//! What is proved rests on the contracts of a few items that call the regex
//! engine, the line searcher and the standard library.  They are marked as
//! trusted where they stand: in [`glob`], [`pattern`], [`text`] and
//! [`clock`].

pub mod clock;
pub mod collector;
pub mod glob;
pub mod line;
pub mod order;
pub mod outcome;
pub mod paths;
pub mod pattern;
pub mod search;
pub mod session;
pub mod text;
pub mod types;

pub use crate::search::{search, search_files, RipgrepSearcher};
pub use crate::types::{RipgrepMatch, RipgrepOptions, RipgrepResult, SearchError, SubMatch};
