//! Live semantic file-search core: the indexing pipeline and query
//! coordination layer, verified.
//!
//! The library owns the state that filesystem events and client queries
//! act on: the file catalog, the single-flight indexing coordinator, the
//! watched-folder set, the query limit and result-resolution rules, the
//! session broadcaster and the client message protocol. Filesystem
//! watching, text extraction, the embedding model and the vector store
//! are outside collaborators: callers perform that work and hand the
//! results in as plain values.

pub mod batch;
pub mod catalog;
pub mod coordinator;
pub mod errors;
pub mod protocol;
pub mod query;
pub mod sessions;
pub mod text;
pub mod types;
pub mod watch;
