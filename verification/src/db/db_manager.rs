//! One database instance: a sharded cache in front of a store, with the
//! read-through and write-through policy between them. The store itself is
//! reached by the caller: a request that needs it is answered with what to
//! ask of the store, and completed with what the store said.

use crate::cache::sharded_cache::{
    after_delete, after_read, after_write, count_all, exported_all, lemma_read_after_write, read,
    ShardedCache,
};
use crate::db::config::{DbManagerConfig, RocksDbConfig};
use crate::db::rocks_db::{
    backup_engine_missing, backup_ready, BackupStep, RocksDb, StoreDelete, StoreRead, StoreWrite,
};
use crate::keyval::{fingerprint, record, KeyVal, KeyValView};
use vstd::prelude::*;

verus! {

/// The first answer to a read.
#[derive(Debug)]
pub enum ReadStep {
    /// The read is done: a cached value with the mark `true`, or absence where
    /// there is no store to ask.
    Done(Option<(Vec<u8>, bool)>),
    /// The cache missed: ask the store for the key and complete the read with
    /// its answer.
    Fetch,
}

/// The message of a manager that cannot be built from its settings.
pub open spec fn cache_unusable() -> Seq<char> {
    "cache needs at least one shard and room for one entry"@
}

/// One database instance.
pub struct DbManager {
    name: String,
    db: Option<RocksDb>,
    cache: ShardedCache,
    config: DbManagerConfig,
}

impl DbManager {
    /// The cache of the instance.
    pub closed spec fn cache(&self) -> ShardedCache {
        self.cache
    }

    /// The store adapter of the instance, if it has one.
    pub closed spec fn store(&self) -> Option<RocksDb> {
        self.db
    }

    /// The settings the instance was built from.
    pub closed spec fn settings(&self) -> DbManagerConfig {
        self.config
    }

    /// The instance carries the name from its settings.
    pub closed spec fn named(&self) -> bool {
        self.name@ == self.config.name@
    }

    /// Whether reads and writes reach a store.
    pub open spec fn store_on(&self) -> bool {
        self.settings().rocks_db_config.enabled
    }

    /// The cache is well formed and built from the cache settings; there is
    /// a store adapter exactly if the store is enabled.
    pub open spec fn wf(&self) -> bool {
        &&& self.named()
        &&& self.cache().wf()
        &&& self.cache().settings() == self.settings().cache_config
        &&& self.store() == if self.store_on() {
            Some(RocksDb { enabled: true, config: self.settings().rocks_db_config })
        } else {
            None
        }
    }

    /// What a read of the key does, the cache slot being selected by `hash`:
    /// a cached value is handed out with the mark `true` and becomes the most
    /// recent entry of its shard; a miss asks the store if there is one.
    pub open spec fn reads(self, after: DbManager, hash: u64, key: Seq<u8>, step: ReadStep) -> bool {
        &&& after.wf()
        &&& after.settings() == self.settings()
        &&& after.cache()@ == after_read(self.cache()@, hash, key)
        &&& match read(self.cache()@, hash, key) {
            Some(v) => step matches ReadStep::Done(Some((found, true))) && found@ == v,
            None => if self.store_on() {
                step is Fetch
            } else {
                step matches ReadStep::Done(None)
            },
        }
    }

    /// What the answer of the store does to a read that the cache missed: a
    /// value is handed on with the mark `false`, and cached where the settings
    /// say so; absence and errors are handed on as they are.
    pub open spec fn completes_read(
        self,
        after: DbManager,
        hash: u64,
        key: Seq<u8>,
        fetched: Result<Option<Vec<u8>>, String>,
        reply: Result<Option<(Vec<u8>, bool)>, String>,
    ) -> bool {
        &&& after.wf()
        &&& after.settings() == self.settings()
        &&& match fetched {
            Ok(Some(v)) => reply matches Ok(Some((found, false))) && found@ == v@,
            Ok(None) => reply matches Ok(None),
            Err(e) => reply == Err::<Option<(Vec<u8>, bool)>, String>(e),
        }
        &&& after.cache()@ == match fetched {
            Ok(Some(v)) if self.settings().cache_config.cache_update_on_db_read => {
                after_write(self.cache()@, self.cache().shard_capacity(), hash, key, v@)
            },
            _ => self.cache()@,
        }
    }

    /// What the start of a write does. Without a store the write is finished
    /// at once, cache included, and the answer is `Skip`; an enabled cache
    /// that writes fill then holds the value. With a store the answer says
    /// how it is to be written, by the queue or directly, and the cache waits
    /// for the completion.
    pub open spec fn writes(
        self,
        after: DbManager,
        hash: u64,
        key: Seq<u8>,
        val: Seq<u8>,
        queued: KeyValView,
        plan: StoreWrite,
    ) -> bool {
        &&& after.wf()
        &&& after.settings() == self.settings()
        &&& plan is Skip <==> !self.store_on()
        &&& plan is Write <==> self.store_on() && !self.settings().rocks_db_config.async_write
        &&& plan matches StoreWrite::Enqueue(kv) ==> kv@ == queued
        &&& after.cache()@ == if !self.store_on()
            && self.settings().cache_config.cache_update_on_db_write {
            after_write(self.cache()@, self.cache().shard_capacity(), hash, key, val)
        } else {
            self.cache()@
        }
        &&& !self.store_on() && self.settings().cache_config.cache_update_on_db_write
            && self.settings().cache_config.enabled ==> read(after.cache()@, hash, key) == Some(
            val,
        )
    }

    /// What the answer of the store, or of the queue, does to a write: an
    /// error is handed on and the cache stays as it is; after a success the
    /// value is cached where the settings say so, and an enabled cache then
    /// holds it.
    pub open spec fn completes_write(
        self,
        after: DbManager,
        hash: u64,
        key: Seq<u8>,
        val: Seq<u8>,
        stored: Result<(), String>,
        done: Result<(), String>,
    ) -> bool {
        &&& after.wf()
        &&& after.settings() == self.settings()
        &&& match stored {
            Ok(_) => done is Ok,
            Err(e) => done == Err::<(), String>(e),
        }
        &&& after.cache()@ == if stored is Ok
            && self.settings().cache_config.cache_update_on_db_write {
            after_write(self.cache()@, self.cache().shard_capacity(), hash, key, val)
        } else {
            self.cache()@
        }
        &&& stored is Ok && self.settings().cache_config.cache_update_on_db_write
            && self.settings().cache_config.enabled ==> read(after.cache()@, hash, key) == Some(
            val,
        )
    }

    /// What a removal does: the key leaves the cache, and the store follows
    /// if there is one.
    pub open spec fn deletes(self, after: DbManager, key: Seq<u8>, plan: StoreDelete) -> bool {
        &&& after.wf()
        &&& after.settings() == self.settings()
        &&& plan is Delete <==> self.store_on()
        &&& after.cache()@ == after_delete(self.cache()@, fingerprint(key), key)
    }

    /// What a backup request comes to: nothing without a store or with the
    /// backup switched off, an error where no backup engine can be opened, a
    /// backup at the configured path otherwise.
    pub open spec fn backs_up(self, step: Result<BackupStep, String>) -> bool {
        let store = self.settings().rocks_db_config;
        if !self.store_on() || !store.backup_enabled {
            step matches Ok(BackupStep::Skip)
        } else if backup_ready(store) {
            step matches Ok(BackupStep::Backup(p)) && p@ == store.backup_path@
        } else {
            step matches Err(e) && e@ == backup_engine_missing()
        }
    }

    /// What an export appends to the sink and counts.
    pub open spec fn exports(
        self,
        before: Seq<u8>,
        after: Seq<u8>,
        written: Result<u64, String>,
    ) -> bool {
        if self.settings().cache_config.keys_dump_enabled {
            &&& written matches Ok(n) && n == count_all(self.cache()@)
            &&& after == before + exported_all(self.cache()@)
        } else {
            &&& written matches Ok(n) && n == 0
            &&& after == before
        }
    }

    /// An instance for the settings, with an empty cache. The settings are
    /// refused where no cache can be built from them.
    pub fn new(config: &DbManagerConfig) -> (made: Result<DbManager, String>)
        ensures
            made is Ok <==> config.cache_config.usable(),
            made matches Err(e) ==> e@ == cache_unusable(),
            made matches Ok(m) ==> {
                &&& m.wf()
                &&& m.settings() == *config
                &&& forall|i: int| 0 <= i < m.cache()@.len() ==> (#[trigger] m.cache()@[i]).len() == 0
            },
    {
        if !config.cache_config.is_usable() {
            return Err("cache needs at least one shard and room for one entry".to_owned());
        }
        let db = if config.rocks_db_config.enabled {
            Some(RocksDb::new(&config.rocks_db_config))
        } else {
            None
        };
        let cache = ShardedCache::new(&config.cache_config);
        Ok(DbManager { name: config.name.clone(), db, cache, config: config.clone() })
    }

    /// The name of the instance.
    pub fn name(&self) -> (name: &String)
        requires
            self.wf(),
        ensures
            name@ == self.settings().name@,
    {
        &self.name
    }

    /// The settings of the store, if reads and writes reach one.
    pub fn store_config(&self) -> (store: Option<&RocksDbConfig>)
        requires
            self.wf(),
        ensures
            store is Some <==> self.store_on(),
            store matches Some(c) ==> *c == self.settings().rocks_db_config,
    {
        match &self.db {
            Some(db) => Some(&db.config),
            None => None,
        }
    }

    /// The file that an export of the cache keys is written to, if there is
    /// anything to export: the cache is enabled and so is its key dump.
    pub fn keys_dump_file(&self) -> (file: Option<&String>)
        requires
            self.wf(),
        ensures
            file is Some <==> self.settings().cache_config.enabled
                && self.settings().cache_config.keys_dump_enabled,
            file matches Some(f) ==> f@ == self.settings().cache_config.keys_dump_file@,
    {
        if self.config.cache_config.enabled && self.config.cache_config.keys_dump_enabled {
            Some(&self.config.cache_config.keys_dump_file)
        } else {
            None
        }
    }

    /// How a read reaches the store of the instance.
    fn store_read(&self, key: &[u8]) -> (plan: StoreRead)
        requires
            self.wf(),
        ensures
            plan is Fetch <==> self.store_on(),
    {
        match &self.db {
            Some(db) => db.get(key),
            None => StoreRead::Skip,
        }
    }

    /// Reads the key: from the cache if it is there, else from the store.
    pub fn get(&mut self, key: &[u8]) -> (step: ReadStep)
        requires
            old(self).wf(),
        ensures
            old(self).reads(*final(self), fingerprint(key@), key@, step),
    {
        if let Some(val) = self.cache.get(key) {
            return ReadStep::Done(Some((val, true)));
        }
        match self.store_read(key) {
            StoreRead::Skip => ReadStep::Done(None),
            StoreRead::Fetch => ReadStep::Fetch,
        }
    }

    /// Completes a read that the cache missed with the answer of the store: a
    /// value is cached where the settings say so and handed on with the mark
    /// `false`; absence and errors are handed on as they are.
    pub fn complete_get(&mut self, key: &[u8], fetched: Result<Option<Vec<u8>>, String>) -> (reply:
        Result<Option<(Vec<u8>, bool)>, String>)
        requires
            old(self).wf(),
        ensures
            old(self).completes_read(*final(self), fingerprint(key@), key@, fetched, reply),
    {
        match fetched {
            Ok(Some(value)) => {
                if self.config.cache_config.cache_update_on_db_read {
                    let _ = self.cache.put(key, value.as_slice());
                }
                Ok(Some((value, false)))
            },
            Ok(None) => Ok(None),
            Err(e) => Err(e),
        }
    }

    /// Reads the record's key, looking in the shard that the record's
    /// fingerprint selects.
    pub fn get_key_val(&mut self, kv: &KeyVal) -> (step: ReadStep)
        requires
            old(self).wf(),
        ensures
            old(self).reads(*final(self), kv.hash, kv.key@, step),
    {
        if let Some(val) = self.cache.get_key_val(kv) {
            return ReadStep::Done(Some((val, true)));
        }
        match self.store_read(kv.key.as_slice()) {
            StoreRead::Skip => ReadStep::Done(None),
            StoreRead::Fetch => ReadStep::Fetch,
        }
    }

    /// Completes a read of the record's key with the answer of the store.
    pub fn complete_get_key_val(
        &mut self,
        kv: &KeyVal,
        fetched: Result<Option<Vec<u8>>, String>,
    ) -> (reply: Result<Option<(Vec<u8>, bool)>, String>)
        requires
            old(self).wf(),
        ensures
            old(self).completes_read(*final(self), kv.hash, kv.key@, fetched, reply),
    {
        match fetched {
            Ok(Some(value)) => {
                if self.config.cache_config.cache_update_on_db_read {
                    let _ = self.cache.put_key_val(kv, value.as_slice());
                }
                Ok(Some((value, false)))
            },
            Ok(None) => Ok(None),
            Err(e) => Err(e),
        }
    }

    /// Starts a write of the value under the key. Where the store takes no
    /// part the write is finished at once, cache included, and the answer is
    /// `Skip`. Otherwise the answer says how the store is to be written; the
    /// cache waits for `complete_put`.
    pub fn put(&mut self, key: &[u8], val: &[u8]) -> (plan: StoreWrite)
        requires
            old(self).wf(),
        ensures
            old(self).writes(
                *final(self),
                fingerprint(key@),
                key@,
                val@,
                record(fingerprint(key@), Seq::empty(), key@, val@),
                plan,
            ),
    {
        proof {
            self.cache.lemma_wf_sound();
            if self.cache@.len() > 0 {
                lemma_read_after_write(
                    self.cache@,
                    self.cache.shard_capacity(),
                    fingerprint(key@),
                    key@,
                    val@,
                );
            }
        }
        let plan = match &self.db {
            Some(db) => db.put(key, val),
            None => StoreWrite::Skip,
        };
        match plan {
            StoreWrite::Skip => {
                if self.config.cache_config.cache_update_on_db_write {
                    let _ = self.cache.put(key, val);
                }
                StoreWrite::Skip
            },
            other => other,
        }
    }

    /// Completes a write with the answer of the store, or of the queue for a
    /// write that was enqueued. An error is handed on and the cache stays as
    /// it is; after a success the value is cached where the settings say so.
    pub fn complete_put(&mut self, key: &[u8], val: &[u8], stored: Result<(), String>) -> (done:
        Result<(), String>)
        requires
            old(self).wf(),
        ensures
            old(self).completes_write(*final(self), fingerprint(key@), key@, val@, stored, done),
    {
        proof {
            self.cache.lemma_wf_sound();
            if self.cache@.len() > 0 {
                lemma_read_after_write(
                    self.cache@,
                    self.cache.shard_capacity(),
                    fingerprint(key@),
                    key@,
                    val@,
                );
            }
        }
        match stored {
            Ok(()) => {
                if self.config.cache_config.cache_update_on_db_write {
                    let _ = self.cache.put(key, val);
                }
                Ok(())
            },
            Err(e) => Err(e),
        }
    }

    /// Starts a write of the record, caching by the record's fingerprint.
    pub fn put_key_val(&mut self, kv: &KeyVal) -> (plan: StoreWrite)
        requires
            old(self).wf(),
        ensures
            old(self).writes(*final(self), kv.hash, kv.key@, kv.val@, kv@, plan),
    {
        proof {
            self.cache.lemma_wf_sound();
            if self.cache@.len() > 0 {
                lemma_read_after_write(
                    self.cache@,
                    self.cache.shard_capacity(),
                    kv.hash,
                    kv.key@,
                    kv.val@,
                );
            }
        }
        let plan = match &self.db {
            Some(db) => db.put_key_val(kv),
            None => StoreWrite::Skip,
        };
        match plan {
            StoreWrite::Skip => {
                if self.config.cache_config.cache_update_on_db_write {
                    let _ = self.cache.put_key_val(kv, kv.val.as_slice());
                }
                StoreWrite::Skip
            },
            other => other,
        }
    }

    /// Completes a write of the record with the answer of the store or of the
    /// queue.
    pub fn complete_put_key_val(&mut self, kv: &KeyVal, stored: Result<(), String>) -> (done:
        Result<(), String>)
        requires
            old(self).wf(),
        ensures
            old(self).completes_write(*final(self), kv.hash, kv.key@, kv.val@, stored, done),
    {
        proof {
            self.cache.lemma_wf_sound();
            if self.cache@.len() > 0 {
                lemma_read_after_write(
                    self.cache@,
                    self.cache.shard_capacity(),
                    kv.hash,
                    kv.key@,
                    kv.val@,
                );
            }
        }
        match stored {
            Ok(()) => {
                if self.config.cache_config.cache_update_on_db_write {
                    let _ = self.cache.put_key_val(kv, kv.val.as_slice());
                }
                Ok(())
            },
            Err(e) => Err(e),
        }
    }

    /// Removes the key from the cache and says how the store is to follow.
    /// The answer of the store is the answer to the caller.
    pub fn delete(&mut self, key: &[u8]) -> (plan: StoreDelete)
        requires
            old(self).wf(),
        ensures
            old(self).deletes(*final(self), key@, plan),
    {
        let _ = self.cache.delete(key);
        match &self.db {
            Some(db) => db.delete(key),
            None => StoreDelete::Skip,
        }
    }

    /// Removes the record's key from the cache and says how the store is to
    /// follow.
    pub fn delete_key_val(&mut self, kv: &KeyVal) -> (plan: StoreDelete)
        requires
            old(self).wf(),
        ensures
            old(self).deletes(*final(self), kv.key@, plan),
    {
        let _ = self.cache.delete(kv.key.as_slice());
        match &self.db {
            Some(db) => db.delete(kv.key.as_slice()),
            None => StoreDelete::Skip,
        }
    }

    /// What a backup request comes to for the store of the instance.
    pub fn backup_db(&self) -> (step: Result<BackupStep, String>)
        requires
            self.wf(),
        ensures
            self.backs_up(step),
    {
        match &self.db {
            Some(db) => db.backup_db(),
            None => Ok(BackupStep::Skip),
        }
    }

    /// Appends the export image of the cache to the sink and returns the
    /// number of keys written.
    pub fn export_lru_keys(&self, sink: &mut Vec<u8>) -> (written: Result<u64, String>)
        requires
            self.wf(),
        ensures
            self.exports(old(sink)@, final(sink)@, written),
    {
        self.cache.export_keys(sink)
    }
}

/// Read-through: a key that the cache misses and the store holds is read
/// from the store with the mark `false`; where reads fill an enabled cache,
/// the next read of the key is served from the cache, with the same value and
/// the mark `true`.
pub proof fn lemma_read_through(
    before: DbManager,
    missed: DbManager,
    filled: DbManager,
    after: DbManager,
    hash: u64,
    key: Seq<u8>,
    value: Vec<u8>,
    first: ReadStep,
    reply: Result<Option<(Vec<u8>, bool)>, String>,
    second: ReadStep,
)
    requires
        before.wf(),
        before.store_on(),
        before.settings().cache_config.enabled,
        before.settings().cache_config.cache_update_on_db_read,
        read(before.cache()@, hash, key) is None,
        before.reads(missed, hash, key, first),
        missed.completes_read(filled, hash, key, Ok(Some(value)), reply),
        filled.reads(after, hash, key, second),
    ensures
        first is Fetch,
        reply matches Ok(Some((found, false))) && found@ == value@,
        second matches ReadStep::Done(Some((found, true))) && found@ == value@,
{
    missed.cache().lemma_wf_sound();
    lemma_read_after_write(
        missed.cache()@,
        missed.cache().shard_capacity(),
        hash,
        key,
        value@,
    );
}

/// Write-through: once a write has succeeded, with or without a store, an
/// enabled cache that writes fill holds the value under the key.
pub proof fn lemma_write_through(
    before: DbManager,
    started: DbManager,
    after: DbManager,
    hash: u64,
    key: Seq<u8>,
    val: Seq<u8>,
    queued: KeyValView,
    plan: StoreWrite,
    stored: Result<(), String>,
    done: Result<(), String>,
)
    requires
        before.wf(),
        before.settings().cache_config.enabled,
        before.settings().cache_config.cache_update_on_db_write,
        before.writes(started, hash, key, val, queued, plan),
        !(plan is Skip) ==> stored is Ok && started.completes_write(
            after,
            hash,
            key,
            val,
            stored,
            done,
        ),
    ensures
        plan is Skip ==> read(started.cache()@, hash, key) == Some(val),
        !(plan is Skip) ==> done is Ok && read(after.cache()@, hash, key) == Some(val),
{
    before.cache().lemma_wf_sound();
    lemma_read_after_write(before.cache()@, before.cache().shard_capacity(), hash, key, val);
}

} // verus!
