//! Discovery of public chat rooms across a federation of servers.
//!
//! The crate holds the decisions of the crawler: how a server's delivery
//! address is chosen, how the paginated room directory is walked, which
//! server names are learned from room aliases, and how one server's crawl
//! is written to the store as a single all-or-nothing transaction.
pub mod address;
pub mod alias;
pub mod directory;
pub mod errors;
pub mod ingest;
pub mod models;
pub mod schedule;
pub mod store;
