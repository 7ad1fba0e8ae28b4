//! Aggregates course module listings from a learning-management-system API
//! into a line-oriented listing, caches it on disk for a short interval,
//! and parses the line an interactive selector hands back.
//!
//! This crate holds the verified core: the freshness decision for the on-disk
//! snapshot, the aggregation of fetched module data into the listing, the
//! line format and its parsing, and the course configuration rules. The
//! surrounding process (environment loading, HTTP transport, the external
//! selector and the URL opener) lives outside and hands this crate plain
//! values.

pub mod cache;
pub mod config;
pub mod fetch;
pub mod listing;
pub mod numeral;
pub mod selection;
pub mod split;
pub mod url;
