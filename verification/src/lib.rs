//! A pluggable binary-object cache.
//!
//! Callers store an opaque byte payload together with a content-type label
//! under a string identifier, and later fetch or delete it.  One capability
//! contract ([`cache::CacheImpl`]) is implemented over heterogeneous
//! backends; each logical object is kept as two physical entries, a payload
//! key `"{id}-image"` and a content-type key `"{id}-mime"`.

pub mod cache;
pub mod keys;
pub mod remote;
pub mod store;
