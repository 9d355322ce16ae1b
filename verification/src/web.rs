//! The log viewer's query: which entries a poll for the log returns.

use crate::log::{records_of, LogEntry, LogStore};
use vstd::prelude::*;

verus! {

/// A poll for the log, optionally asking only for entries newer than the
/// last id the viewer has seen.
pub struct LogsQuery {
    pub since: Option<u64>,
}

/// The entries a poll returns: those newer than `since` when it is given,
/// every entry held when it is not; oldest first either way.
pub fn api_logs(store: &LogStore, q: &LogsQuery) -> (entries: Vec<LogEntry>)
    ensures
        match q.since {
            Some(id) => records_of(entries@) == store@.newer_than(id),
            None => records_of(entries@) == store@.records,
        },
{
    match q.since {
        Some(id) => store.since(id),
        None => store.all(),
    }
}

} // verus!
