//! The in-memory cache tier: recency model, LRU shards and the sharded cache.

pub mod config;
pub mod lru_cache;
pub mod recency;
pub mod sharded_cache;
