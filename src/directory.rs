use vstd::prelude::*;

use crate::address::{page_url, page_url_of};
use crate::models::copy_opt;

verus! {

/// The contents of an optional string.
pub open spec fn opt_view(o: Option<String>) -> Option<Seq<char>> {
    match o {
        Some(s) => Some(s@),
        None => None,
    }
}

/// Walks the public room directory of one address, one page at a time.
///
/// The walk asks first for a page without token; each page that carries a
/// continuation token leads to one more request with that token, and the
/// first page without one ends the walk.
pub struct Paginator {
    /// The resolved address whose directory is walked.
    pub address: String,
    /// Token of the page to ask for next; absent before the first page.
    pub since: Option<String>,
    /// Whether the last page has been seen.
    pub finished: bool,
}

impl Paginator {
    pub fn new(address: String) -> (r: Paginator)
        ensures
            r.address == address,
            r.since is None,
            !r.finished,
    {
        Paginator { address, since: None, finished: false }
    }

    /// The request to make next, or `None` once the walk has ended.
    pub fn next_url(&self) -> (r: Option<String>)
        ensures
            r is None <==> self.finished,
            r matches Some(u) ==> u@ == page_url_of(self.address@, opt_view(self.since)),
    {
        if self.finished {
            None
        } else {
            match &self.since {
                Some(t) => Some(page_url(self.address.as_str(), Some(t.as_str()))),
                None => Some(page_url(self.address.as_str(), None)),
            }
        }
    }

    /// Takes in the continuation token of the page just received.
    pub fn advance(&mut self, next_batch: &Option<String>)
        requires
            !old(self).finished,
        ensures
            final(self).address == old(self).address,
            final(self).since == *next_batch,
            final(self).finished <==> next_batch is None,
    {
        self.since = copy_opt(next_batch);
        self.finished = next_batch.is_none();
    }
}

} // verus!
