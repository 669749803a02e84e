use bhatho::cache::config::CacheConfig;
use bhatho::db::config::{DbManagerConfig, RocksDbConfig};
use bhatho::db::db_manager::{DbManager, ReadStep};
use bhatho::db::rocks_db::{
    BackupStep, PurgeStep, RocksDb, StoreDelete, StoreRead, StoreWrite, WriterStep,
};
use bhatho::keyval::KeyVal;
use std::collections::{HashMap, VecDeque};

/// A store that lives in memory and can be told to fail.
struct MemStore {
    items: HashMap<Vec<u8>, Vec<u8>>,
    failing: bool,
    batches: usize,
    batches_with_wal: usize,
    single_puts: usize,
}

impl MemStore {
    fn new() -> MemStore {
        MemStore { items: HashMap::new(), failing: false, batches: 0, batches_with_wal: 0, single_puts: 0 }
    }

    fn get(&self, key: &[u8]) -> Result<Option<Vec<u8>>, String> {
        if self.failing {
            return Err("store is down".to_string());
        }
        Ok(self.items.get(key).cloned())
    }

    fn put(&mut self, key: &[u8], val: &[u8]) -> Result<(), String> {
        if self.failing {
            return Err("store is down".to_string());
        }
        self.single_puts += 1;
        self.items.insert(key.to_vec(), val.to_vec());
        Ok(())
    }

    fn delete(&mut self, key: &[u8]) -> Result<(), String> {
        if self.failing {
            return Err("store is down".to_string());
        }
        self.items.remove(key);
        Ok(())
    }

    fn write_batch(&mut self, items: &[KeyVal], with_wal: bool) -> Result<(), String> {
        if self.failing {
            return Err("store is down".to_string());
        }
        self.batches += 1;
        if with_wal {
            self.batches_with_wal += 1;
        }
        for kv in items {
            self.items.insert(kv.key.clone(), kv.val.clone());
        }
        Ok(())
    }
}

fn manager_get(
    manager: &mut DbManager,
    store: &MemStore,
    key: &[u8],
) -> Result<Option<(Vec<u8>, bool)>, String> {
    match manager.get(key) {
        ReadStep::Done(reply) => Ok(reply),
        ReadStep::Fetch => manager.complete_get(key, store.get(key)),
    }
}

fn manager_put(
    manager: &mut DbManager,
    store: &mut MemStore,
    queue: &mut VecDeque<KeyVal>,
    key: &[u8],
    val: &[u8],
) -> Result<(), String> {
    match manager.put(key, val) {
        StoreWrite::Skip => Ok(()),
        StoreWrite::Write => {
            let stored = store.put(key, val);
            manager.complete_put(key, val, stored)
        }
        StoreWrite::Enqueue(kv) => {
            queue.push_back(kv);
            manager.complete_put(key, val, Ok(()))
        }
    }
}

fn manager_delete(manager: &mut DbManager, store: &mut MemStore, key: &[u8]) -> Result<(), String> {
    match manager.delete(key) {
        StoreDelete::Skip => Ok(()),
        StoreDelete::Delete => store.delete(key),
    }
}

/// One turn of a writer thread; true when the thread leaves its loop.
fn writer_turn(
    config: &RocksDbConfig,
    queue: &mut VecDeque<KeyVal>,
    store: &mut MemStore,
    shutdown: bool,
) -> bool {
    let drained: Vec<KeyVal> = queue.drain(..).collect();
    match RocksDb::write_to_db(config, drained, shutdown) {
        WriterStep::Exit => true,
        WriterStep::Sleep(_) => false,
        WriterStep::Puts(items) => {
            for kv in items.iter() {
                let _ = store.put(&kv.key, &kv.val);
            }
            false
        }
        WriterStep::Batch(items, with_wal) => {
            let _ = store.write_batch(&items, with_wal);
            false
        }
    }
}

fn small_config(store_enabled: bool, async_write: bool, cache_enabled: bool) -> DbManagerConfig {
    let mut config = DbManagerConfig::default();
    config.name = "db".to_string();
    config.rocks_db_config.enabled = store_enabled;
    config.rocks_db_config.async_write = async_write;
    config.cache_config.enabled = cache_enabled;
    config.cache_config.cache_capacity = 64;
    config.cache_config.num_shards = 4;
    config
}

#[test]
fn store_config_defaults() {
    let config = RocksDbConfig::default();
    assert!(config.enabled);
    assert!(config.async_write);
    assert_eq!(config.num_async_writer_threads, 1);
    assert_eq!(config.async_writer_threads_sleep_ms, 250);
    assert_eq!(config.async_write_queue_length, 10_000);
    assert_eq!(config.db_path, "/tmp/kanudo_db");
    assert_eq!(config.wal_dir, "/tmp/kanudo_db/wal");
    assert_eq!(config.backup_path, "/tmp/kanudo_db_bkup");
    assert!(config.backup_enabled);
    assert_eq!(config.max_open_files, 5000);
    assert_eq!(config.num_threads_parallelism, 2);
    assert!(config.create_if_missing);
    assert!(config.pipelined_write);
    assert_eq!(config.min_count_for_batch_write, 100);
    assert_eq!(config.write_buffer_size_mb, 512);
    assert_eq!(config.max_write_buffer_number, 5);
    assert_eq!(config.min_write_buffer_number, 2);
    assert_eq!(config.max_background_compactions, 8);
    assert_eq!(config.max_background_flushes, 8);
    assert_eq!(config.block_size, 32768);
    assert_eq!(config.lru_cache_size_mb, 10240);
    assert_eq!(config.num_shard_bits, 12);
    assert!(!config.disable_wal);
    assert!(!config.bloom_filter);
    assert!(config.enable_statistics);
    assert!(config.restore_from_backup_at_startup);
    assert!(config.keep_log_file_while_restore);

    let manager = DbManagerConfig::default();
    assert!(manager.enabled);
    assert_eq!(manager.name, "");
    assert_eq!(manager.rocks_db_config.db_path, "/tmp/kanudo_db");
    assert_eq!(manager.cache_config.num_shards, 1024);
}

#[test]
fn store_config_clone_copies_every_field() {
    let mut config = RocksDbConfig::default();
    config.enabled = false;
    config.async_write = false;
    config.num_async_writer_threads = 3;
    config.async_writer_threads_sleep_ms = 7;
    config.async_write_queue_length = 16;
    config.db_path = "a".to_string();
    config.wal_dir = "b".to_string();
    config.backup_path = "c".to_string();
    config.backup_enabled = false;
    config.min_count_for_batch_write = 4;
    config.disable_wal = true;
    config.restore_from_backup_at_startup = false;
    config.keep_log_file_while_restore = false;
    let copy = config.clone();
    assert!(!copy.enabled);
    assert!(!copy.async_write);
    assert_eq!(copy.num_async_writer_threads, 3);
    assert_eq!(copy.async_writer_threads_sleep_ms, 7);
    assert_eq!(copy.async_write_queue_length, 16);
    assert_eq!(copy.db_path, "a");
    assert_eq!(copy.wal_dir, "b");
    assert_eq!(copy.backup_path, "c");
    assert!(!copy.backup_enabled);
    assert_eq!(copy.min_count_for_batch_write, 4);
    assert!(copy.disable_wal);
    assert!(!copy.restore_from_backup_at_startup);
    assert!(!copy.keep_log_file_while_restore);
    assert_eq!(copy.block_size, 32768);

    let mut manager = DbManagerConfig::default();
    manager.name = "red".to_string();
    manager.enabled = false;
    let copy = manager.clone();
    assert_eq!(copy.name, "red");
    assert!(!copy.enabled);
    assert_eq!(copy.cache_config.cache_capacity, 1_000_000);
}

#[test]
fn adapter_routes_reads_writes_and_removals() {
    let mut config = RocksDbConfig::default();
    config.async_write = false;
    let db = RocksDb::new(&config);
    assert!(db.enabled);
    assert!(matches!(db.get(b"k"), StoreRead::Fetch));
    assert!(matches!(db.put(b"k", b"v"), StoreWrite::Write));
    assert!(matches!(db.put_key_val(&KeyVal::new(b"k", b"v")), StoreWrite::Write));
    assert!(matches!(db.delete(b"k"), StoreDelete::Delete));

    config.async_write = true;
    let db = RocksDb::new(&config);
    match db.put(b"k", b"v") {
        StoreWrite::Enqueue(kv) => {
            assert_eq!(kv.key, b"k".to_vec());
            assert_eq!(kv.val, b"v".to_vec());
            assert_eq!(kv.hash, KeyVal::get_hash_code(b"k"));
            assert!(kv.db_name.is_empty());
        }
        other => panic!("unexpected plan {:?}", other),
    }
    let record = KeyVal::new_with_db_name(b"red", b"k2", b"v2");
    match db.put_key_val(&record) {
        StoreWrite::Enqueue(kv) => {
            assert_eq!(kv.key, b"k2".to_vec());
            assert_eq!(kv.val, b"v2".to_vec());
            assert_eq!(kv.db_name, b"red".to_vec());
            assert_eq!(kv.hash, record.hash);
        }
        other => panic!("unexpected plan {:?}", other),
    }
    assert!(matches!(db.get(b"k"), StoreRead::Fetch));
    assert!(matches!(db.delete(b"k"), StoreDelete::Delete));

    config.enabled = false;
    let db = RocksDb::new(&config);
    assert!(!db.enabled);
    assert!(matches!(db.get(b"k"), StoreRead::Skip));
    assert!(matches!(db.put(b"k", b"v"), StoreWrite::Skip));
    assert!(matches!(db.put_key_val(&record), StoreWrite::Skip));
    assert!(matches!(db.delete(b"k"), StoreDelete::Skip));
    let copy = db.clone();
    assert!(!copy.enabled);
    assert!(copy.config.async_write);
}

#[test]
fn startup_plans_restore_and_writers() {
    let config = RocksDbConfig::default();
    let plan = RocksDb::startup(&config);
    let restore = plan.restore.expect("restore is planned");
    assert_eq!(restore.backup_path, "/tmp/kanudo_db_bkup");
    assert_eq!(restore.db_path, "/tmp/kanudo_db");
    assert_eq!(restore.wal_dir, "/tmp/kanudo_db/wal");
    assert!(restore.keep_log_files);
    assert_eq!(plan.writer_threads, 1);
    assert_eq!(plan.queue_length, 10_000);

    let mut config = RocksDbConfig::default();
    config.wal_dir = String::new();
    config.keep_log_file_while_restore = false;
    config.num_async_writer_threads = 5;
    config.async_write_queue_length = 16;
    let plan = RocksDb::startup(&config);
    let restore = plan.restore.expect("restore is planned");
    assert_eq!(restore.wal_dir, "/tmp/kanudo_db");
    assert!(!restore.keep_log_files);
    assert_eq!(plan.writer_threads, 5);
    assert_eq!(plan.queue_length, 16);

    let mut config = RocksDbConfig::default();
    config.restore_from_backup_at_startup = false;
    config.async_write = false;
    let plan = RocksDb::startup(&config);
    assert!(plan.restore.is_none());
    assert_eq!(plan.writer_threads, 0);

    let mut config = RocksDbConfig::default();
    config.backup_enabled = false;
    assert!(RocksDb::startup(&config).restore.is_none());

    let mut config = RocksDbConfig::default();
    config.backup_path = String::new();
    assert!(RocksDb::startup(&config).restore.is_none());

    let mut config = RocksDbConfig::default();
    config.enabled = false;
    let plan = RocksDb::startup(&config);
    assert!(plan.restore.is_none());
    assert_eq!(plan.writer_threads, 0);
}

#[test]
fn backup_engine_needs_a_path_and_the_switches() {
    let config = RocksDbConfig::default();
    assert_eq!(RocksDb::create_backup_engine(&config), Ok("/tmp/kanudo_db_bkup".to_string()));

    let mut off = RocksDbConfig::default();
    off.backup_enabled = false;
    assert_eq!(RocksDb::create_backup_engine(&off), Err("Backup is not enabled.".to_string()));

    let mut disabled = RocksDbConfig::default();
    disabled.enabled = false;
    assert_eq!(RocksDb::create_backup_engine(&disabled), Err("Backup is not enabled.".to_string()));

    let mut pathless = RocksDbConfig::default();
    pathless.backup_path = String::new();
    assert_eq!(
        RocksDb::create_backup_engine(&pathless),
        Err("Backup path is empty. Not enabling backup engine".to_string())
    );
}

#[test]
fn backup_and_purge_requests() {
    let db = RocksDb::new(&RocksDbConfig::default());
    match db.backup_db() {
        Ok(BackupStep::Backup(path)) => assert_eq!(path, "/tmp/kanudo_db_bkup"),
        other => panic!("unexpected step {:?}", other),
    }
    match db.purge_old_backup(3) {
        Ok(PurgeStep::Purge(path, keep)) => {
            assert_eq!(path, "/tmp/kanudo_db_bkup");
            assert_eq!(keep, 3);
        }
        other => panic!("unexpected step {:?}", other),
    }

    let mut off = RocksDbConfig::default();
    off.backup_enabled = false;
    let db = RocksDb::new(&off);
    assert!(matches!(db.backup_db(), Ok(BackupStep::Skip)));
    assert!(matches!(db.purge_old_backup(3), Ok(PurgeStep::Skip)));

    let mut disabled = RocksDbConfig::default();
    disabled.enabled = false;
    let db = RocksDb::new(&disabled);
    assert!(matches!(db.backup_db(), Ok(BackupStep::Skip)));
    assert!(matches!(db.purge_old_backup(3), Ok(PurgeStep::Skip)));

    let mut pathless = RocksDbConfig::default();
    pathless.backup_path = String::new();
    let db = RocksDb::new(&pathless);
    match db.backup_db() {
        Err(e) => assert_eq!(e, "Backup Engine was not initialized"),
        other => panic!("unexpected step {:?}", other),
    }
    match db.purge_old_backup(1) {
        Err(e) => assert_eq!(e, "Backup Engine was not initialized"),
        other => panic!("unexpected step {:?}", other),
    }
}

#[test]
fn writer_sleeps_exits_puts_and_batches() {
    let mut config = RocksDbConfig::default();
    config.min_count_for_batch_write = 3;
    config.async_writer_threads_sleep_ms = 11;

    assert!(matches!(RocksDb::write_to_db(&config, vec![], false), WriterStep::Sleep(11)));
    assert!(matches!(RocksDb::write_to_db(&config, vec![], true), WriterStep::Exit));

    let two = vec![KeyVal::new(b"a", b"1"), KeyVal::new(b"b", b"2")];
    match RocksDb::write_to_db(&config, two, true) {
        WriterStep::Puts(items) => {
            assert_eq!(items.len(), 2);
            assert_eq!(items[0].key, b"a".to_vec());
            assert_eq!(items[1].key, b"b".to_vec());
        }
        other => panic!("unexpected step {:?}", other),
    }

    let three = vec![KeyVal::new(b"a", b"1"), KeyVal::new(b"b", b"2"), KeyVal::new(b"c", b"3")];
    match RocksDb::write_to_db(&config, three, false) {
        WriterStep::Batch(items, with_wal) => {
            assert_eq!(items.len(), 3);
            assert_eq!(items[2].val, b"3".to_vec());
            assert!(with_wal);
        }
        other => panic!("unexpected step {:?}", other),
    }

    config.disable_wal = true;
    let three = vec![KeyVal::new(b"a", b"1"), KeyVal::new(b"b", b"2"), KeyVal::new(b"c", b"3")];
    assert!(matches!(RocksDb::write_to_db(&config, three, false), WriterStep::Batch(_, false)));

    config.min_count_for_batch_write = 0;
    assert!(matches!(RocksDb::write_to_db(&config, vec![], false), WriterStep::Sleep(11)));
    let one = vec![KeyVal::new(b"a", b"1")];
    assert!(matches!(RocksDb::write_to_db(&config, one, false), WriterStep::Batch(_, false)));
}

#[test]
fn async_pipeline_drains_before_it_exits() {
    let mut config = small_config(true, true, true);
    config.rocks_db_config.num_async_writer_threads = 1;
    config.rocks_db_config.async_write_queue_length = 16;
    config.rocks_db_config.min_count_for_batch_write = 4;
    let mut manager = DbManager::new(&config).unwrap();
    let mut store = MemStore::new();
    let mut queue = VecDeque::new();

    for i in 0..10u32 {
        let key = format!("key-{}", i);
        assert!(manager_put(&mut manager, &mut store, &mut queue, key.as_bytes(), b"v").is_ok());
        assert!(queue.len() <= 16);
    }
    assert_eq!(queue.len(), 10);
    assert_eq!(store.items.len(), 0);

    let shutdown = true;
    assert!(!writer_turn(&config.rocks_db_config, &mut queue, &mut store, shutdown));
    assert_eq!(store.items.len(), 10);
    assert_eq!(store.batches, 1);
    assert_eq!(store.batches_with_wal, 1);
    assert_eq!(store.single_puts, 0);
    assert!(writer_turn(&config.rocks_db_config, &mut queue, &mut store, shutdown));
    assert_eq!(store.items.len(), 10);
    for i in 0..10u32 {
        assert_eq!(store.items.get(format!("key-{}", i).as_bytes()), Some(&b"v".to_vec()));
    }
}

#[test]
fn async_pipeline_writes_small_drains_one_by_one() {
    let mut config = small_config(true, true, true);
    config.rocks_db_config.min_count_for_batch_write = 4;
    let mut manager = DbManager::new(&config).unwrap();
    let mut store = MemStore::new();
    let mut queue = VecDeque::new();
    for key in ["a", "b", "a"] {
        manager_put(&mut manager, &mut store, &mut queue, key.as_bytes(), key.as_bytes()).unwrap();
    }
    manager_put(&mut manager, &mut store, &mut queue, b"a", b"last").unwrap();
    queue.pop_back();
    assert!(!writer_turn(&config.rocks_db_config, &mut queue, &mut store, false));
    assert_eq!(store.single_puts, 3);
    assert_eq!(store.batches, 0);
    assert_eq!(store.items.len(), 2);
    assert!(!writer_turn(&config.rocks_db_config, &mut queue, &mut store, false));
    assert!(writer_turn(&config.rocks_db_config, &mut queue, &mut store, true));
}

#[test]
fn manager_refuses_an_unusable_cache() {
    let mut config = small_config(true, false, true);
    config.cache_config.num_shards = 0;
    match DbManager::new(&config) {
        Err(e) => assert_eq!(e, "cache needs at least one shard and room for one entry"),
        Ok(_) => panic!("a cache without shards was accepted"),
    }
    let mut config = small_config(true, false, true);
    config.cache_config.cache_capacity = 0;
    assert!(DbManager::new(&config).is_err());
}

#[test]
fn manager_tells_its_store_and_dump_file() {
    let manager = DbManager::new(&small_config(true, true, true)).unwrap();
    let store = manager.store_config().expect("the store is on");
    assert!(store.async_write);
    assert_eq!(store.db_path, "/tmp/kanudo_db");
    assert_eq!(manager.keys_dump_file(), Some(&"/tmp/kanudo_lru_keys.dump".to_string()));

    let manager = DbManager::new(&small_config(false, true, true)).unwrap();
    assert!(manager.store_config().is_none());

    let manager = DbManager::new(&small_config(true, true, false)).unwrap();
    assert_eq!(manager.keys_dump_file(), None);

    let mut config = small_config(true, true, true);
    config.cache_config.keys_dump_enabled = false;
    let manager = DbManager::new(&config).unwrap();
    assert_eq!(manager.keys_dump_file(), None);
}

#[test]
fn manager_carries_its_name() {
    let mut config = small_config(true, false, true);
    config.name = "red".to_string();
    let manager = DbManager::new(&config).unwrap();
    assert_eq!(manager.name(), "red");
}

#[test]
fn read_through_fills_the_cache() {
    let config = small_config(true, false, true);
    let mut manager = DbManager::new(&config).unwrap();
    let mut store = MemStore::new();
    store.put(b"k", b"v").unwrap();

    assert_eq!(manager_get(&mut manager, &store, b"k"), Ok(Some((b"v".to_vec(), false))));
    assert_eq!(manager_get(&mut manager, &store, b"k"), Ok(Some((b"v".to_vec(), true))));
    store.items.clear();
    assert_eq!(manager_get(&mut manager, &store, b"k"), Ok(Some((b"v".to_vec(), true))));
}

#[test]
fn read_through_can_be_switched_off() {
    let mut config = small_config(true, false, true);
    config.cache_config.cache_update_on_db_read = false;
    let mut manager = DbManager::new(&config).unwrap();
    let mut store = MemStore::new();
    store.put(b"k", b"v").unwrap();
    assert_eq!(manager_get(&mut manager, &store, b"k"), Ok(Some((b"v".to_vec(), false))));
    assert_eq!(manager_get(&mut manager, &store, b"k"), Ok(Some((b"v".to_vec(), false))));
}

#[test]
fn read_of_an_absent_key_is_absence() {
    let mut manager = DbManager::new(&small_config(true, false, true)).unwrap();
    let store = MemStore::new();
    assert_eq!(manager_get(&mut manager, &store, b"nothing"), Ok(None));
    assert_eq!(manager_get(&mut manager, &store, b"nothing"), Ok(None));
}

#[test]
fn read_hands_store_errors_on() {
    let mut manager = DbManager::new(&small_config(true, false, true)).unwrap();
    let mut store = MemStore::new();
    store.failing = true;
    assert_eq!(manager_get(&mut manager, &store, b"k"), Err("store is down".to_string()));
}

#[test]
fn write_through_fills_the_cache() {
    let mut manager = DbManager::new(&small_config(true, false, true)).unwrap();
    let mut store = MemStore::new();
    let mut queue = VecDeque::new();
    assert!(manager_put(&mut manager, &mut store, &mut queue, b"k", b"v").is_ok());
    assert!(queue.is_empty());
    assert_eq!(store.items.get(&b"k".to_vec()), Some(&b"v".to_vec()));
    assert!(matches!(manager.get(b"k"), ReadStep::Done(Some((v, true))) if v == b"v".to_vec()));
}

#[test]
fn write_through_can_be_switched_off() {
    let mut config = small_config(true, false, true);
    config.cache_config.cache_update_on_db_write = false;
    let mut manager = DbManager::new(&config).unwrap();
    let mut store = MemStore::new();
    let mut queue = VecDeque::new();
    assert!(manager_put(&mut manager, &mut store, &mut queue, b"k", b"v").is_ok());
    assert!(matches!(manager.get(b"k"), ReadStep::Fetch));
    assert_eq!(manager.complete_get(b"k", store.get(b"k")), Ok(Some((b"v".to_vec(), false))));
}

#[test]
fn failed_write_leaves_the_cache_alone() {
    let mut manager = DbManager::new(&small_config(true, false, true)).unwrap();
    let mut store = MemStore::new();
    let mut queue = VecDeque::new();
    store.failing = true;
    assert_eq!(
        manager_put(&mut manager, &mut store, &mut queue, b"k", b"v"),
        Err("store is down".to_string())
    );
    assert!(matches!(manager.get(b"k"), ReadStep::Fetch));
}

#[test]
fn closed_queue_fails_the_write() {
    let mut manager = DbManager::new(&small_config(true, true, true)).unwrap();
    assert!(matches!(manager.put(b"k", b"v"), StoreWrite::Enqueue(_)));
    let done = manager.complete_put(b"k", b"v", Err("queue closed".to_string()));
    assert_eq!(done, Err("queue closed".to_string()));
    assert!(matches!(manager.get(b"k"), ReadStep::Fetch));
}

#[test]
fn disabled_cache_still_reaches_the_store() {
    let mut manager = DbManager::new(&small_config(true, false, false)).unwrap();
    let mut store = MemStore::new();
    let mut queue = VecDeque::new();
    for i in 0..20u32 {
        let key = format!("key-{}", i);
        assert!(manager_put(&mut manager, &mut store, &mut queue, key.as_bytes(), b"v").is_ok());
    }
    assert_eq!(store.items.len(), 20);
    for i in 0..20u32 {
        let key = format!("key-{}", i);
        assert!(matches!(manager.get(key.as_bytes()), ReadStep::Fetch));
        assert_eq!(
            manager_get(&mut manager, &store, key.as_bytes()),
            Ok(Some((b"v".to_vec(), false)))
        );
    }
    let mut sink = Vec::new();
    assert_eq!(manager.export_lru_keys(&mut sink), Ok(0));
    assert!(sink.is_empty());
}

#[test]
fn manager_without_a_store_serves_from_the_cache() {
    let mut manager = DbManager::new(&small_config(false, true, true)).unwrap();
    let mut store = MemStore::new();
    let mut queue = VecDeque::new();
    assert!(matches!(manager.get(b"k"), ReadStep::Done(None)));
    assert!(manager_put(&mut manager, &mut store, &mut queue, b"k", b"v").is_ok());
    assert!(store.items.is_empty());
    assert!(queue.is_empty());
    assert_eq!(manager_get(&mut manager, &store, b"k"), Ok(Some((b"v".to_vec(), true))));
    assert!(manager_delete(&mut manager, &mut store, b"k").is_ok());
    assert!(matches!(manager.get(b"k"), ReadStep::Done(None)));
    assert!(matches!(manager.backup_db(), Ok(BackupStep::Skip)));
}

#[test]
fn delete_leaves_cache_and_store() {
    let mut manager = DbManager::new(&small_config(true, false, true)).unwrap();
    let mut store = MemStore::new();
    let mut queue = VecDeque::new();
    manager_put(&mut manager, &mut store, &mut queue, b"k", b"v").unwrap();
    assert!(manager_delete(&mut manager, &mut store, b"k").is_ok());
    assert!(store.items.is_empty());
    assert_eq!(manager_get(&mut manager, &store, b"k"), Ok(None));

    manager_put(&mut manager, &mut store, &mut queue, b"k", b"v").unwrap();
    store.failing = true;
    assert_eq!(manager_delete(&mut manager, &mut store, b"k"), Err("store is down".to_string()));
    assert!(matches!(manager.get(b"k"), ReadStep::Fetch));
}

#[test]
fn record_operations_of_the_manager() {
    let mut manager = DbManager::new(&small_config(true, false, true)).unwrap();
    let mut store = MemStore::new();
    let kv = KeyVal::new(b"k", b"v");
    assert!(matches!(manager.get_key_val(&kv), ReadStep::Fetch));
    assert_eq!(manager.complete_get_key_val(&kv, Ok(None)), Ok(None));
    assert!(matches!(manager.put_key_val(&kv), StoreWrite::Write));
    let stored = store.put(&kv.key, &kv.val);
    assert!(manager.complete_put_key_val(&kv, stored).is_ok());
    assert!(matches!(manager.get_key_val(&kv), ReadStep::Done(Some((v, true))) if v == b"v".to_vec()));
    assert!(matches!(manager.delete_key_val(&kv), StoreDelete::Delete));
    assert!(matches!(manager.get_key_val(&kv), ReadStep::Fetch));
    assert_eq!(
        manager.complete_get_key_val(&kv, store.get(&kv.key)),
        Ok(Some((b"v".to_vec(), false)))
    );
    assert!(matches!(manager.get_key_val(&kv), ReadStep::Done(Some((_, true)))));
    assert_eq!(
        manager.complete_get_key_val(&kv, Err("store is down".to_string())),
        Err("store is down".to_string())
    );
}

#[test]
fn manager_backup_follows_the_store_settings() {
    let manager = DbManager::new(&small_config(true, false, true)).unwrap();
    match manager.backup_db() {
        Ok(BackupStep::Backup(path)) => assert_eq!(path, "/tmp/kanudo_db_bkup"),
        other => panic!("unexpected step {:?}", other),
    }
    let mut config = small_config(true, false, true);
    config.rocks_db_config.backup_path = String::new();
    let manager = DbManager::new(&config).unwrap();
    match manager.backup_db() {
        Err(e) => assert_eq!(e, "Backup Engine was not initialized"),
        other => panic!("unexpected step {:?}", other),
    }
}

#[test]
fn manager_exports_its_cache() {
    let mut config = small_config(false, false, true);
    config.cache_config = CacheConfig::default();
    config.cache_config.cache_capacity = 10;
    config.cache_config.num_shards = 1;
    let mut manager = DbManager::new(&config).unwrap();
    for key in ["k1", "k2", "k3", "k4", "k5"] {
        assert!(matches!(manager.put(key.as_bytes(), b"v"), StoreWrite::Skip));
    }
    let mut sink = Vec::new();
    assert_eq!(manager.export_lru_keys(&mut sink), Ok(5));
    assert_eq!(sink, b"k1\r\nk2\r\nk3\r\nk4\r\nk5\r\n".to_vec());
}
