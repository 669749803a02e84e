//! Settings of the cache tier.

use vstd::prelude::*;

verus! {

/// Settings of one sharded cache.
#[derive(Debug)]
pub struct CacheConfig {
    pub enabled: bool,
    pub cache_capacity: usize,
    pub num_shards: usize,
    pub cache_update_on_db_read: bool,
    pub cache_update_on_db_write: bool,
    pub keys_dump_enabled: bool,
    pub keys_dump_file: String,
}

/// The settings of several caches.
pub struct CacheManagerConfig {
    pub cache_configs: Vec<CacheConfig>,
}

impl CacheConfig {
    /// The settings a cache starts from when none are given.
    pub open spec fn initial(&self) -> bool {
        &&& self.enabled
        &&& self.cache_capacity == 1_000_000
        &&& self.num_shards == 1024
        &&& self.cache_update_on_db_read
        &&& self.cache_update_on_db_write
        &&& self.keys_dump_enabled
        &&& self.keys_dump_file@ == "/tmp/kanudo_lru_keys.dump"@
    }

    /// A cache can be built from the settings: there is at least one shard
    /// and room for at least one entry.
    pub open spec fn usable(&self) -> bool {
        self.num_shards > 0 && self.cache_capacity > 0
    }

    /// Whether a cache can be built from the settings.
    pub fn is_usable(&self) -> (usable: bool)
        ensures
            usable == self.usable(),
    {
        self.num_shards > 0 && self.cache_capacity > 0
    }
}

impl Clone for CacheConfig {
    fn clone(&self) -> (copy: CacheConfig)
        ensures
            copy == *self,
    {
        CacheConfig {
            enabled: self.enabled,
            cache_capacity: self.cache_capacity,
            num_shards: self.num_shards,
            cache_update_on_db_read: self.cache_update_on_db_read,
            cache_update_on_db_write: self.cache_update_on_db_write,
            keys_dump_enabled: self.keys_dump_enabled,
            keys_dump_file: self.keys_dump_file.clone(),
        }
    }
}

impl Default for CacheConfig {
    fn default() -> (config: CacheConfig)
        ensures
            config.initial(),
    {
        CacheConfig {
            enabled: true,
            cache_capacity: 1_000_000,
            num_shards: 1024,
            cache_update_on_db_read: true,
            cache_update_on_db_write: true,
            keys_dump_enabled: true,
            keys_dump_file: "/tmp/kanudo_lru_keys.dump".to_owned(),
        }
    }
}

impl Default for CacheManagerConfig {
    fn default() -> (config: CacheManagerConfig)
        ensures
            config.cache_configs@.len() == 1,
            config.cache_configs@[0].initial(),
    {
        let mut cache_configs = Vec::with_capacity(1);
        cache_configs.push(CacheConfig::default());
        CacheManagerConfig { cache_configs }
    }
}

} // verus!
