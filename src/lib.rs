//! Podcast tracking core: episode and podcast values, the feed cache, the
//! durable subscription / listened-state store, and group aggregation.

pub mod model;
pub mod text;
pub mod discovery;
pub mod store;
pub mod feed;
pub mod backend;
pub mod cache;
pub mod aggregate;
pub mod laws;
