//! A file watcher library: a filtered recursive enumerator over a directory
//! snapshot, a change store that remembers per-file sizes across polling
//! cycles, and the decisions of the polling and dispatch loop.
use vstd::prelude::*;

pub mod command;
pub mod config;
pub mod debuger;
pub mod extensions;
pub mod pattern;
pub mod searcher;
pub mod store;
pub mod text;
pub mod watch;

verus! {

} // verus!
