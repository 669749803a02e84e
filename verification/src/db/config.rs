//! Settings of the store adapter and of one database instance.

use crate::cache::config::CacheConfig;
use vstd::prelude::*;

verus! {

/// Settings of the store adapter. The tuning values are handed to the storage
/// engine as they are.
#[derive(Debug)]
pub struct RocksDbConfig {
    pub enabled: bool,
    pub async_write: bool,
    pub num_async_writer_threads: usize,
    pub async_writer_threads_sleep_ms: u64,
    pub async_write_queue_length: usize,
    pub db_path: String,
    pub wal_dir: String,
    pub backup_path: String,
    pub backup_enabled: bool,
    pub max_open_files: i32,
    pub num_threads_parallelism: i32,
    pub create_if_missing: bool,
    pub pipelined_write: bool,
    pub min_count_for_batch_write: usize,
    pub write_buffer_size_mb: usize,
    pub max_write_buffer_number: i32,
    pub min_write_buffer_number: i32,
    pub max_background_compactions: i32,
    pub max_background_flushes: i32,
    pub block_size: usize,
    pub lru_cache_size_mb: usize,
    pub num_shard_bits: i32,
    pub disable_wal: bool,
    pub bloom_filter: bool,
    pub enable_statistics: bool,
    pub restore_from_backup_at_startup: bool,
    pub keep_log_file_while_restore: bool,
}

/// Settings of one database instance: a name, a store and a cache.
#[derive(Debug)]
pub struct DbManagerConfig {
    pub enabled: bool,
    pub name: String,
    pub rocks_db_config: RocksDbConfig,
    pub cache_config: CacheConfig,
}

impl RocksDbConfig {
    /// The settings a store starts from when none are given.
    pub open spec fn initial(&self) -> bool {
        &&& self.enabled
        &&& self.async_write
        &&& self.num_async_writer_threads == 1
        &&& self.async_writer_threads_sleep_ms == 250
        &&& self.async_write_queue_length == 10_000
        &&& self.db_path@ == "/tmp/kanudo_db"@
        &&& self.wal_dir@ == "/tmp/kanudo_db/wal"@
        &&& self.backup_path@ == "/tmp/kanudo_db_bkup"@
        &&& self.backup_enabled
        &&& self.max_open_files == 5000
        &&& self.num_threads_parallelism == 2
        &&& self.create_if_missing
        &&& self.pipelined_write
        &&& self.min_count_for_batch_write == 100
        &&& self.write_buffer_size_mb == 512
        &&& self.max_write_buffer_number == 5
        &&& self.min_write_buffer_number == 2
        &&& self.max_background_compactions == 8
        &&& self.max_background_flushes == 8
        &&& self.block_size == 32768
        &&& self.lru_cache_size_mb == 10240
        &&& self.num_shard_bits == 12
        &&& !self.disable_wal
        &&& !self.bloom_filter
        &&& self.enable_statistics
        &&& self.restore_from_backup_at_startup
        &&& self.keep_log_file_while_restore
    }
}

impl Clone for RocksDbConfig {
    fn clone(&self) -> (copy: RocksDbConfig)
        ensures
            copy == *self,
    {
        RocksDbConfig {
            enabled: self.enabled,
            async_write: self.async_write,
            num_async_writer_threads: self.num_async_writer_threads,
            async_writer_threads_sleep_ms: self.async_writer_threads_sleep_ms,
            async_write_queue_length: self.async_write_queue_length,
            db_path: self.db_path.clone(),
            wal_dir: self.wal_dir.clone(),
            backup_path: self.backup_path.clone(),
            backup_enabled: self.backup_enabled,
            max_open_files: self.max_open_files,
            num_threads_parallelism: self.num_threads_parallelism,
            create_if_missing: self.create_if_missing,
            pipelined_write: self.pipelined_write,
            min_count_for_batch_write: self.min_count_for_batch_write,
            write_buffer_size_mb: self.write_buffer_size_mb,
            max_write_buffer_number: self.max_write_buffer_number,
            min_write_buffer_number: self.min_write_buffer_number,
            max_background_compactions: self.max_background_compactions,
            max_background_flushes: self.max_background_flushes,
            block_size: self.block_size,
            lru_cache_size_mb: self.lru_cache_size_mb,
            num_shard_bits: self.num_shard_bits,
            disable_wal: self.disable_wal,
            bloom_filter: self.bloom_filter,
            enable_statistics: self.enable_statistics,
            restore_from_backup_at_startup: self.restore_from_backup_at_startup,
            keep_log_file_while_restore: self.keep_log_file_while_restore,
        }
    }
}

impl Default for RocksDbConfig {
    fn default() -> (config: RocksDbConfig)
        ensures
            config.initial(),
    {
        RocksDbConfig {
            enabled: true,
            async_write: true,
            num_async_writer_threads: 1,
            async_writer_threads_sleep_ms: 250,
            async_write_queue_length: 10_000,
            db_path: "/tmp/kanudo_db".to_owned(),
            wal_dir: "/tmp/kanudo_db/wal".to_owned(),
            backup_path: "/tmp/kanudo_db_bkup".to_owned(),
            backup_enabled: true,
            max_open_files: 5000,
            num_threads_parallelism: 2,
            create_if_missing: true,
            pipelined_write: true,
            min_count_for_batch_write: 100,
            write_buffer_size_mb: 512,
            max_write_buffer_number: 5,
            min_write_buffer_number: 2,
            max_background_compactions: 8,
            max_background_flushes: 8,
            block_size: 32768,
            lru_cache_size_mb: 10240,
            num_shard_bits: 12,
            disable_wal: false,
            bloom_filter: false,
            enable_statistics: true,
            restore_from_backup_at_startup: true,
            keep_log_file_while_restore: true,
        }
    }
}

impl DbManagerConfig {
    /// The settings a database instance starts from when none are given.
    pub open spec fn initial(&self) -> bool {
        &&& self.enabled
        &&& self.name@.len() == 0
        &&& self.rocks_db_config.initial()
        &&& self.cache_config.initial()
    }
}

impl Clone for DbManagerConfig {
    fn clone(&self) -> (copy: DbManagerConfig)
        ensures
            copy == *self,
    {
        DbManagerConfig {
            enabled: self.enabled,
            name: self.name.clone(),
            rocks_db_config: self.rocks_db_config.clone(),
            cache_config: self.cache_config.clone(),
        }
    }
}

impl Default for DbManagerConfig {
    fn default() -> (config: DbManagerConfig)
        ensures
            config.initial(),
    {
        let rocks_db_config = RocksDbConfig::default();
        let cache_config = CacheConfig::default();
        DbManagerConfig { enabled: true, name: String::new(), rocks_db_config, cache_config }
    }
}

} // verus!
