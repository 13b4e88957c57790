//! Aggregation of syndication feeds into a capped, time-ordered archive.
//!
//! The crate holds the rules of the aggregator as verified functions: how a
//! source gets its archive name, how fetched entries become items, how the
//! items of all sources are merged and capped, what the output documents
//! contain, and which files of the output directory are stale.

pub mod aggregate;
pub mod config;
pub mod fetch;
pub mod index;
pub mod model;
pub mod naming;
pub mod normalize;
pub mod order;
pub mod reconcile;
pub mod render;
pub mod text;
pub mod time;
