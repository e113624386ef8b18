//! Request parameters collaborators hand to the queue's owner over the
//! management interface: search requests, a single-URL enqueue, and a
//! pause toggle.

use vstd::prelude::*;

verus! {

/// A search request: a query string and the lenses to apply.
#[derive(Debug)]
pub struct SearchParam<'r> {
    pub lenses: Vec<String>,
    pub query: &'r str,
}

/// A request to search the lens names themselves.
#[derive(Debug)]
pub struct SearchLensesParam<'r> {
    pub query: &'r str,
}

/// A request to put one URL on the crawl queue.
#[derive(Debug)]
pub struct QueueItemParam<'r> {
    pub url: &'r str,
    pub force_crawl: bool,
}

/// A request to change the crawler's paused state.
#[derive(Debug)]
pub struct UpdateStatusParam {
    pub toggle_pause: Option<bool>,
}

} // verus!
