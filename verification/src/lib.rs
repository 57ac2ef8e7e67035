//! Verified core of a host-embedded table viewer.
//!
//! The surrounding runtime (a browser or script engine) owns the document,
//! the promises and the table/view handles; this crate holds the logic that
//! can be checked: typed configuration bags, the promise-adaptation and
//! callback-bridge state machines, the declarative tree applier over a mock
//! document, and the download flow as a state/event machine.  A thin shell
//! around the crate performs the host calls that these machines decide on.

pub mod adapter;
pub mod bridge;
pub mod config;
pub mod dom;
pub mod download;
pub mod host;
