//! A personal bookmark store: normalized tags, content-addressed record
//! files, merge-on-write, and Jaccard ranking of records against a query.

pub mod address;
pub mod bookmark;
pub mod codec;
pub mod config;
pub mod digest;
pub mod interact;
pub mod matcher;
pub mod page;
pub mod store;
pub mod tag;
pub mod tagset;
pub mod text;
