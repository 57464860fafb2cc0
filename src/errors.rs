use vstd::prelude::*;

verus! {

/// The ways a crawl of one server can fail.
#[derive(Debug, Clone, Copy, PartialEq, Eq, Structural)]
pub enum SearchError {
    /// The store could not be reached or refused a write.
    DbError,
    /// A request did not complete, or came back with a failure status.
    RequestError,
    /// A response body was not the expected document.
    ParseError,
    /// The server's address could not be found.
    CantFindServer,
}

} // verus!
