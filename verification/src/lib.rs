//! Core of a webmention receiver: an endpoint accepts the claim that one web
//! resource (`source`) references another (`target`), validates it, and
//! records at most one mention per `(domain, source, target)` triple.
//!
//! The crate holds the verified logic: the record model and its invariants,
//! the validation and idempotent-upsert rules of ingestion, the read paths,
//! and the schema migrator with its pre-migration backups.  Parsing of URLs,
//! identifier generation and the clock come from outside crates through a few
//! trusted declarations; everything persistent is modelled by [`store::Store`].

pub mod clock;
pub mod error;
pub mod ids;
pub mod laws;
pub mod migrate;
pub mod store;
pub mod text;
pub mod types;
pub mod urls;
