//! Member enumeration for channels whose search endpoint caps the number of
//! results per query: a prefix sweep whose batches are merged through an
//! identity-keyed cache, and an engine that sequences connect and scrape.
pub mod record;
pub mod cache;
pub mod sweep;
pub mod engine;
pub mod boundary;
