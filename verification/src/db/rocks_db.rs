//! The store adapter's policy: what to ask of the storage engine, and when.
//! The engine itself, the queue and the worker threads belong to the caller;
//! every function here decides from plain values and answers with a plan.

use crate::cache::lru_cache::pairs;
use crate::cache::recency::Entry;
use crate::db::config::RocksDbConfig;
use crate::keyval::{fingerprint, record, KeyVal};
use vstd::prelude::*;

verus! {

/// How a read reaches the store.
#[derive(Debug)]
pub enum StoreRead {
    /// The store is disabled: the key counts as absent.
    Skip,
    /// Ask the engine for the key.
    Fetch,
}

/// How a write reaches the store.
#[derive(Debug)]
pub enum StoreWrite {
    /// The store is disabled: the write counts as done.
    Skip,
    /// Hand the record to the queue of the writer threads.
    Enqueue(KeyVal),
    /// Write the key and the value to the engine and wait for it.
    Write,
}

/// How a removal reaches the store.
#[derive(Debug)]
pub enum StoreDelete {
    /// The store is disabled: the removal counts as done.
    Skip,
    /// Remove the key from the engine.
    Delete,
}

/// What a backup request comes to.
#[derive(Debug)]
pub enum BackupStep {
    /// The store or its backup is disabled: the request counts as done.
    Skip,
    /// Open the backup engine at the path and take a new backup.
    Backup(String),
}

/// What a request to purge old backups comes to.
#[derive(Debug)]
pub enum PurgeStep {
    /// The store or its backup is disabled: the request counts as done.
    Skip,
    /// Open the backup engine at the path and keep that many backups.
    Purge(String, usize),
}

/// What a writer thread does with the records it has drained from the queue.
#[derive(Debug)]
pub enum WriterStep {
    /// Nothing was drained and shutdown was signalled: leave the loop.
    Exit,
    /// Nothing was drained: sleep that many milliseconds and drain again.
    Sleep(u64),
    /// Write the records one by one, in this order.
    Puts(Vec<KeyVal>),
    /// Commit the records as one batch, in this order; the flag says whether
    /// the batch goes through the write-ahead log.
    Batch(Vec<KeyVal>, bool),
}

/// A restore from the latest backup, to be made before the store is opened.
#[derive(Debug)]
pub struct Restore {
    pub backup_path: String,
    pub db_path: String,
    pub wal_dir: String,
    pub keep_log_files: bool,
}

/// What has to happen when a store starts: an optional restore, then the
/// store is opened, then the writer threads are started on a queue.
#[derive(Debug)]
pub struct Startup {
    pub restore: Option<Restore>,
    pub queue_length: usize,
    pub writer_threads: usize,
}

/// The message of a backup request while the store or its backup is disabled.
pub open spec fn backup_disabled() -> Seq<char> {
    "Backup is not enabled."@
}

/// The message of a backup request without a backup path.
pub open spec fn backup_path_missing() -> Seq<char> {
    "Backup path is empty. Not enabling backup engine"@
}

/// The message of a backup or purge that found no backup engine.
pub open spec fn backup_engine_missing() -> Seq<char> {
    "Backup Engine was not initialized"@
}

/// Whether a backup engine can be opened for the settings.
pub open spec fn backup_ready(config: RocksDbConfig) -> bool {
    config.backup_enabled && config.enabled && config.backup_path@.len() > 0
}

/// The directory of the write-ahead log: the configured one, or the database
/// path where none is configured.
pub open spec fn wal_dir_of(config: RocksDbConfig) -> Seq<char> {
    if config.wal_dir@.len() == 0 {
        config.db_path@
    } else {
        config.wal_dir@
    }
}

/// The records a writer step asks to be written, in order.
pub open spec fn writes_of(step: WriterStep) -> Seq<Entry> {
    match step {
        WriterStep::Exit => Seq::empty(),
        WriterStep::Sleep(_) => Seq::empty(),
        WriterStep::Puts(items) => pairs(items@),
        WriterStep::Batch(items, _) => pairs(items@),
    }
}

/// The contents of a store after the writes have been applied in order.
pub open spec fn after_writes(store: Map<Seq<u8>, Seq<u8>>, writes: Seq<Entry>) -> Map<
    Seq<u8>,
    Seq<u8>,
>
    decreases writes.len(),
{
    if writes.len() == 0 {
        store
    } else {
        after_writes(store, writes.drop_last()).insert(writes.last().0, writes.last().1)
    }
}

/// Once the writes have been applied, the store holds every written key, and
/// under it the value of the last write to that key.
pub proof fn lemma_writes_observable(store: Map<Seq<u8>, Seq<u8>>, writes: Seq<Entry>, i: int)
    requires
        0 <= i < writes.len(),
    ensures
        after_writes(store, writes).dom().contains(writes[i].0),
        (forall|j: int| i < j < writes.len() ==> writes[j].0 != writes[i].0) ==> after_writes(
            store,
            writes,
        )[writes[i].0] == writes[i].1,
    decreases writes.len(),
{
    if i < writes.len() - 1 {
        let front = writes.drop_last();
        lemma_writes_observable(store, front, i);
        assert(front[i] == writes[i]);
        assert(writes.last() == writes[writes.len() - 1]);
        if forall|j: int| i < j < writes.len() ==> writes[j].0 != writes[i].0 {
            assert forall|j: int| i < j < front.len() implies front[j].0 != front[i].0 by {
                assert(front[j] == writes[j]);
            }
        }
    }
}

/// What a writer thread does with the records it drained from the queue
/// without waiting: nothing drained means leaving after shutdown was
/// signalled and sleeping before; fewer records than the batch threshold are
/// written one by one; the threshold or more are committed as one batch,
/// through the write-ahead log unless it is disabled.
pub open spec fn drains(
    db_config: RocksDbConfig,
    data: Vec<KeyVal>,
    shutdown: bool,
    step: WriterStep,
) -> bool {
    if data@.len() == 0 {
        if shutdown {
            step is Exit
        } else {
            step == WriterStep::Sleep(db_config.async_writer_threads_sleep_ms)
        }
    } else if data@.len() < db_config.min_count_for_batch_write {
        step == WriterStep::Puts(data)
    } else {
        step == WriterStep::Batch(data, !db_config.disable_wal)
    }
}

/// A writer thread leaves only when it drained nothing: every record it
/// drained is written, in the order it was dequeued, so that the store then
/// holds its key, and under it the value of the last drained record with
/// that key.
pub proof fn lemma_drained_records_are_written(
    db_config: RocksDbConfig,
    data: Vec<KeyVal>,
    shutdown: bool,
    step: WriterStep,
    store: Map<Seq<u8>, Seq<u8>>,
    i: int,
)
    requires
        drains(db_config, data, shutdown, step),
        0 <= i < data@.len(),
    ensures
        !(step is Exit),
        writes_of(step) == pairs(data@),
        after_writes(store, writes_of(step)).dom().contains(data@[i].key@),
        (forall|j: int| i < j < data@.len() ==> data@[j].key@ != data@[i].key@) ==> after_writes(
            store,
            writes_of(step),
        )[data@[i].key@] == data@[i].val@,
{
    let writes = pairs(data@);
    lemma_writes_observable(store, writes, i);
    if forall|j: int| i < j < data@.len() ==> data@[j].key@ != data@[i].key@ {
        assert forall|j: int| i < j < writes.len() implies writes[j].0 != writes[i].0 by {
            assert(data@[j].key@ != data@[i].key@);
        }
    }
}

/// The policy half of the store adapter.
#[derive(Debug)]
pub struct RocksDb {
    pub enabled: bool,
    pub config: RocksDbConfig,
}

impl Clone for RocksDb {
    fn clone(&self) -> (copy: RocksDb)
        ensures
            copy == *self,
    {
        RocksDb { enabled: self.enabled, config: self.config.clone() }
    }
}

impl RocksDb {
    /// What a writer thread does next, given the records it drained from the
    /// queue without waiting and the state of the shutdown flag. Every
    /// drained record is written; the thread leaves only when it drained
    /// nothing after shutdown was signalled.
    pub fn write_to_db(db_config: &RocksDbConfig, data: Vec<KeyVal>, shutdown: bool) -> (step:
        WriterStep)
        ensures
            drains(*db_config, data, shutdown, step),
            writes_of(step) == pairs(data@),
            step is Exit <==> data@.len() == 0 && shutdown,
    {
        if data.len() == 0 {
            assert(pairs(data@) =~= Seq::<Entry>::empty());
            if shutdown {
                return WriterStep::Exit;
            }
            return WriterStep::Sleep(db_config.async_writer_threads_sleep_ms);
        }
        if data.len() < db_config.min_count_for_batch_write {
            return WriterStep::Puts(data);
        }
        WriterStep::Batch(data, !db_config.disable_wal)
    }

    /// The adapter for the settings.
    pub fn new(config: &RocksDbConfig) -> (db: RocksDb)
        ensures
            db.enabled == config.enabled,
            db.config == *config,
    {
        RocksDb { enabled: config.enabled, config: config.clone() }
    }

    /// What has to happen when the store starts. A restore is planned when it
    /// is asked for and a backup engine can be opened; writer threads are
    /// planned when the store is enabled and writes asynchronously.
    pub fn startup(config: &RocksDbConfig) -> (plan: Startup)
        ensures
            plan.restore is Some <==> config.restore_from_backup_at_startup && backup_ready(
                *config,
            ),
            plan.restore matches Some(r) ==> {
                &&& r.backup_path@ == config.backup_path@
                &&& r.db_path@ == config.db_path@
                &&& r.wal_dir@ == wal_dir_of(*config)
                &&& r.keep_log_files == config.keep_log_file_while_restore
            },
            plan.queue_length == config.async_write_queue_length,
            plan.writer_threads == if config.async_write && config.enabled {
                config.num_async_writer_threads
            } else {
                0
            },
    {
        let mut restore: Option<Restore> = None;
        if config.restore_from_backup_at_startup && config.enabled {
            match RocksDb::create_backup_engine(config) {
                Ok(backup_path) => {
                    let wal_dir = if config.wal_dir.as_str().is_empty() {
                        config.db_path.clone()
                    } else {
                        config.wal_dir.clone()
                    };
                    restore = Some(
                        Restore {
                            backup_path,
                            db_path: config.db_path.clone(),
                            wal_dir,
                            keep_log_files: config.keep_log_file_while_restore,
                        },
                    );
                },
                Err(_) => {},
            }
        }
        let writer_threads = if config.async_write && config.enabled {
            config.num_async_writer_threads
        } else {
            0
        };
        Startup { restore, queue_length: config.async_write_queue_length, writer_threads }
    }

    /// The path at which the backup engine is to be opened, or why there is
    /// none.
    pub fn create_backup_engine(config: &RocksDbConfig) -> (path: Result<String, String>)
        ensures
            path is Ok <==> backup_ready(*config),
            path matches Ok(p) ==> p@ == config.backup_path@,
            path matches Err(e) ==> e@ == if !config.backup_enabled || !config.enabled {
                backup_disabled()
            } else {
                backup_path_missing()
            },
    {
        if !config.backup_enabled || !config.enabled {
            return Err("Backup is not enabled.".to_owned());
        } else if config.backup_path.as_str().is_empty() {
            return Err("Backup path is empty. Not enabling backup engine".to_owned());
        }
        Ok(config.backup_path.clone())
    }

    /// How a read reaches the store.
    pub fn get(&self, key: &[u8]) -> (plan: StoreRead)
        ensures
            plan is Fetch <==> self.enabled,
    {
        if !self.enabled {
            return StoreRead::Skip;
        }
        StoreRead::Fetch
    }

    /// How a write of the key and the value reaches the store: not at all
    /// when the store is disabled, through the queue when it writes
    /// asynchronously, directly otherwise.
    pub fn put(&self, key: &[u8], val: &[u8]) -> (plan: StoreWrite)
        ensures
            plan is Skip <==> !self.enabled,
            plan is Write <==> self.enabled && !self.config.async_write,
            plan matches StoreWrite::Enqueue(kv) ==> kv@ == record(
                fingerprint(key@),
                Seq::empty(),
                key@,
                val@,
            ),
    {
        if !self.enabled {
            return StoreWrite::Skip;
        }
        if self.config.async_write {
            self.put_async(key, val)
        } else {
            StoreWrite::Write
        }
    }

    /// How a write of the record reaches the store.
    pub fn put_key_val(&self, key_val: &KeyVal) -> (plan: StoreWrite)
        ensures
            plan is Skip <==> !self.enabled,
            plan is Write <==> self.enabled && !self.config.async_write,
            plan matches StoreWrite::Enqueue(kv) ==> kv@ == key_val@,
    {
        if !self.enabled {
            return StoreWrite::Skip;
        }
        if self.config.async_write {
            self.put_key_val_async(key_val)
        } else {
            StoreWrite::Write
        }
    }

    fn put_key_val_async(&self, key_val: &KeyVal) -> (plan: StoreWrite)
        ensures
            plan is Skip <==> !self.enabled,
            !(plan is Write),
            plan matches StoreWrite::Enqueue(kv) ==> kv@ == key_val@,
    {
        if !self.enabled {
            return StoreWrite::Skip;
        }
        StoreWrite::Enqueue(key_val.clone())
    }

    fn put_async(&self, key: &[u8], val: &[u8]) -> (plan: StoreWrite)
        ensures
            plan is Skip <==> !self.enabled,
            !(plan is Write),
            plan matches StoreWrite::Enqueue(kv) ==> kv@ == record(
                fingerprint(key@),
                Seq::empty(),
                key@,
                val@,
            ),
    {
        if !self.enabled {
            return StoreWrite::Skip;
        }
        StoreWrite::Enqueue(KeyVal::new(key, val))
    }

    /// How a removal reaches the store.
    pub fn delete(&self, key: &[u8]) -> (plan: StoreDelete)
        ensures
            plan is Delete <==> self.enabled,
    {
        if !self.enabled {
            return StoreDelete::Skip;
        }
        StoreDelete::Delete
    }

    /// What a backup request comes to: nothing while the store or its backup
    /// is disabled, an error where no backup engine can be opened, a backup
    /// at the configured path otherwise.
    pub fn backup_db(&self) -> (step: Result<BackupStep, String>)
        ensures
            !self.enabled || !self.config.backup_enabled ==> step matches Ok(BackupStep::Skip),
            self.enabled && self.config.backup_enabled && backup_ready(self.config) ==> (
            step matches Ok(BackupStep::Backup(p)) && p@ == self.config.backup_path@),
            self.enabled && self.config.backup_enabled && !backup_ready(self.config) ==> (
            step matches Err(e) && e@ == backup_engine_missing()),
    {
        if !self.enabled {
            return Ok(BackupStep::Skip);
        }
        if !self.config.backup_enabled {
            return Ok(BackupStep::Skip);
        }
        match RocksDb::create_backup_engine(&self.config) {
            Ok(path) => Ok(BackupStep::Backup(path)),
            Err(_) => Err("Backup Engine was not initialized".to_owned()),
        }
    }

    /// What a request to keep only the newest backups comes to.
    pub fn purge_old_backup(&self, num_backups_to_keep: usize) -> (step: Result<PurgeStep, String>)
        ensures
            !self.enabled || !self.config.backup_enabled ==> step matches Ok(PurgeStep::Skip),
            self.enabled && self.config.backup_enabled && backup_ready(self.config) ==> (
            step matches Ok(PurgeStep::Purge(p, n)) && p@ == self.config.backup_path@ && n
                == num_backups_to_keep),
            self.enabled && self.config.backup_enabled && !backup_ready(self.config) ==> (
            step matches Err(e) && e@ == backup_engine_missing()),
    {
        if !self.enabled {
            return Ok(PurgeStep::Skip);
        }
        if !self.config.backup_enabled {
            return Ok(PurgeStep::Skip);
        }
        match RocksDb::create_backup_engine(&self.config) {
            Ok(path) => Ok(PurgeStep::Purge(path, num_backups_to_keep)),
            Err(_) => Err("Backup Engine was not initialized".to_owned()),
        }
    }
}

} // verus!
