//! Watches chat text for links to posts on a social-media site, records each
//! sighting in a store with deduplication, and tracks the republishing of
//! every recorded post so that each one is attempted and resolved once.

pub mod command;
pub mod extract;
pub mod ingest;
pub mod publish;
pub mod store;
pub mod text;
