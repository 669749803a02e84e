//! The sharded cache: LRU shards selected by the slot of a key's fingerprint.

use crate::cache::config::CacheConfig;
use crate::cache::lru_cache::{bytes_of, Lru};
use crate::cache::recency::{
    discard, exported, holds, insert, lemma_exported_len, lemma_insert, lemma_keys_kept, lookup,
    promote, well_formed, Entry,
};
use crate::keyval::{fingerprint, lemma_slot_in_range, slot_of, KeyVal, KeyValView};
use vstd::arithmetic::div_mod::lemma_fundamental_div_mod;
use vstd::prelude::*;

verus! {

/// The capacity of each shard: the total capacity divided by the number of
/// shards, rounded up.
pub open spec fn per_shard(capacity: nat, shards: nat) -> nat {
    if capacity % shards == 0 {
        capacity / shards
    } else {
        capacity / shards + 1
    }
}

/// The value cached under the key, looked up in the shard the fingerprint
/// selects. A cache without shards caches nothing.
pub open spec fn read(view: Seq<Seq<Entry>>, hash: u64, key: Seq<u8>) -> Option<Seq<u8>> {
    if view.len() == 0 {
        None
    } else {
        lookup(view[slot_of(hash, view.len())], key)
    }
}

/// The shards after a read of the key.
pub open spec fn after_read(view: Seq<Seq<Entry>>, hash: u64, key: Seq<u8>) -> Seq<Seq<Entry>> {
    if view.len() == 0 {
        view
    } else {
        let s = slot_of(hash, view.len());
        view.update(s, promote(view[s], key))
    }
}

/// The shards after the value has been written under the key.
pub open spec fn after_write(
    view: Seq<Seq<Entry>>,
    limit: nat,
    hash: u64,
    key: Seq<u8>,
    val: Seq<u8>,
) -> Seq<Seq<Entry>> {
    if view.len() == 0 {
        view
    } else {
        let s = slot_of(hash, view.len());
        view.update(s, insert(view[s], limit, key, val))
    }
}

/// The shards after the key has been removed.
pub open spec fn after_delete(view: Seq<Seq<Entry>>, hash: u64, key: Seq<u8>) -> Seq<Seq<Entry>> {
    if view.len() == 0 {
        view
    } else {
        let s = slot_of(hash, view.len());
        view.update(s, discard(view[s], key))
    }
}

/// The shards after every record has been written, each into the shard its
/// carried fingerprint selects, in the order given.
pub open spec fn after_batch(view: Seq<Seq<Entry>>, limit: nat, records: Seq<KeyValView>) -> Seq<
    Seq<Entry>,
>
    decreases records.len(),
{
    if records.len() == 0 {
        view
    } else {
        let last = records.last();
        after_write(
            after_batch(view, limit, records.drop_last()),
            limit,
            last.hash,
            last.key,
            last.val,
        )
    }
}

/// The views of the records, in the same order.
pub open spec fn views(data: Seq<KeyVal>) -> Seq<KeyValView> {
    Seq::new(data.len(), |i: int| data[i]@)
}

/// Every cached key lies in the shard that its fingerprint selects.
pub open spec fn placed(view: Seq<Seq<Entry>>) -> bool {
    forall|s: int, k: Seq<u8>|
        0 <= s < view.len() && #[trigger] holds(view[s], k) ==> slot_of(
            fingerprint(k),
            view.len(),
        ) == s
}

/// Every record carries the fingerprint of its own key.
pub open spec fn all_consistent(records: Seq<KeyValView>) -> bool {
    forall|i: int| 0 <= i < records.len() ==> (#[trigger] records[i]).hash == fingerprint(records[i].key)
}

/// The export image of the shards: the image of each shard, in index order.
pub open spec fn exported_all(view: Seq<Seq<Entry>>) -> Seq<u8>
    decreases view.len(),
{
    if view.len() == 0 {
        Seq::empty()
    } else {
        exported_all(view.drop_last()) + exported(view.last())
    }
}

/// The number of entries in all shards together.
pub open spec fn count_all(view: Seq<Seq<Entry>>) -> nat
    decreases view.len(),
{
    if view.len() == 0 {
        0
    } else {
        count_all(view.drop_last()) + view.last().len()
    }
}

/// The export image holds at least two bytes for every entry.
pub proof fn lemma_exported_all_len(view: Seq<Seq<Entry>>)
    ensures
        exported_all(view).len() >= 2 * count_all(view),
    decreases view.len(),
{
    if view.len() > 0 {
        lemma_exported_all_len(view.drop_last());
        lemma_exported_len(view.last());
    }
}

/// A read by a key's own fingerprint keeps every key in the shard its
/// fingerprint selects.
pub proof fn lemma_placed_read(view: Seq<Seq<Entry>>, key: Seq<u8>)
    requires
        placed(view),
    ensures
        placed(after_read(view, fingerprint(key), key)),
{
    if view.len() > 0 {
        lemma_slot_in_range(fingerprint(key), view.len());
        let s = slot_of(fingerprint(key), view.len());
        let r = after_read(view, fingerprint(key), key);
        assert forall|t: int, k: Seq<u8>| 0 <= t < r.len() && #[trigger] holds(r[t], k) implies slot_of(
            fingerprint(k),
            r.len(),
        ) == t by {
            if t == s {
                lemma_keys_kept(view[s], 0, key, key);
                assert(holds(view[t], k));
            } else {
                assert(r[t] == view[t]);
            }
        }
    }
}

/// A write by a key's own fingerprint keeps every key in the shard its
/// fingerprint selects.
pub proof fn lemma_placed_write(view: Seq<Seq<Entry>>, limit: nat, key: Seq<u8>, val: Seq<u8>)
    requires
        placed(view),
    ensures
        placed(after_write(view, limit, fingerprint(key), key, val)),
{
    if view.len() > 0 {
        lemma_slot_in_range(fingerprint(key), view.len());
        let s = slot_of(fingerprint(key), view.len());
        let w = after_write(view, limit, fingerprint(key), key, val);
        assert forall|t: int, k: Seq<u8>| 0 <= t < w.len() && #[trigger] holds(w[t], k) implies slot_of(
            fingerprint(k),
            w.len(),
        ) == t by {
            if t == s {
                lemma_keys_kept(view[s], limit, key, val);
                if k != key {
                    assert(holds(view[t], k));
                }
            } else {
                assert(w[t] == view[t]);
            }
        }
    }
}

/// A removal by a key's own fingerprint keeps every key in the shard its
/// fingerprint selects.
pub proof fn lemma_placed_delete(view: Seq<Seq<Entry>>, key: Seq<u8>)
    requires
        placed(view),
    ensures
        placed(after_delete(view, fingerprint(key), key)),
{
    if view.len() > 0 {
        lemma_slot_in_range(fingerprint(key), view.len());
        let s = slot_of(fingerprint(key), view.len());
        let d = after_delete(view, fingerprint(key), key);
        assert forall|t: int, k: Seq<u8>| 0 <= t < d.len() && #[trigger] holds(d[t], k) implies slot_of(
            fingerprint(k),
            d.len(),
        ) == t by {
            if t == s {
                lemma_keys_kept(view[s], 0, key, key);
                assert(holds(view[t], k));
            } else {
                assert(d[t] == view[t]);
            }
        }
    }
}

/// A batch of records that carry the fingerprints of their own keys keeps
/// every key in the shard its fingerprint selects.
pub proof fn lemma_placed_batch(view: Seq<Seq<Entry>>, limit: nat, records: Seq<KeyValView>)
    requires
        placed(view),
        all_consistent(records),
    ensures
        placed(after_batch(view, limit, records)),
    decreases records.len(),
{
    if records.len() > 0 {
        let front = records.drop_last();
        assert forall|i: int| 0 <= i < front.len() implies (#[trigger] front[i]).hash == fingerprint(
            front[i].key,
        ) by {
            assert(front[i] == records[i]);
        }
        lemma_placed_batch(view, limit, front);
        let last = records.last();
        assert(last == records[records.len() - 1]);
        lemma_placed_write(after_batch(view, limit, front), limit, last.key, last.val);
    }
}

/// Every shard is well formed for the per-shard capacity.
pub open spec fn sound(view: Seq<Seq<Entry>>, limit: nat) -> bool {
    forall|s: int| 0 <= s < view.len() ==> well_formed(#[trigger] view[s], limit)
}

/// With at least one shard and room in it, a key that has just been written
/// is read back with the value written.
pub proof fn lemma_read_after_write(
    view: Seq<Seq<Entry>>,
    limit: nat,
    hash: u64,
    key: Seq<u8>,
    val: Seq<u8>,
)
    requires
        sound(view, limit),
        view.len() > 0,
        limit > 0,
    ensures
        sound(after_write(view, limit, hash, key, val), limit),
        read(after_write(view, limit, hash, key, val), hash, key) == Some(val),
{
    lemma_slot_in_range(hash, view.len());
    let s = slot_of(hash, view.len());
    lemma_insert(view[s], limit, key, val);
    let w = after_write(view, limit, hash, key, val);
    assert forall|t: int| 0 <= t < w.len() implies well_formed(#[trigger] w[t], limit) by {
        if t != s {
            assert(w[t] == view[t]);
        }
    }
}

/// The cache never holds more entries than its shards have room for
/// together.
pub proof fn lemma_count_bounded(view: Seq<Seq<Entry>>, limit: nat)
    requires
        sound(view, limit),
    ensures
        count_all(view) <= view.len() * limit,
    decreases view.len(),
{
    if view.len() > 0 {
        let front = view.drop_last();
        assert forall|s: int| 0 <= s < front.len() implies well_formed(#[trigger] front[s], limit) by {
            assert(front[s] == view[s]);
        }
        lemma_count_bounded(front, limit);
        assert(well_formed(view[view.len() - 1], limit));
        assert((view.len() - 1) * limit + limit == view.len() * limit) by (nonlinear_arith);
    }
}

/// Each shard has room for at least one entry when the cache has.
pub proof fn lemma_per_shard_positive(capacity: nat, shards: nat)
    requires
        capacity > 0,
        shards > 0,
    ensures
        per_shard(capacity, shards) > 0,
{
    if capacity % shards == 0 {
        lemma_fundamental_div_mod(capacity as int, shards as int);
        assert(capacity / shards > 0) by (nonlinear_arith)
            requires
                capacity > 0,
                shards > 0,
                capacity == shards * (capacity / shards),
        ;
    } else {
        assert(capacity / shards >= 0) by (nonlinear_arith)
            requires
                capacity > 0,
                shards > 0,
        ;
    }
}

/// A cache of LRU shards.
pub struct ShardedCache {
    shards: Vec<Lru>,
    config: CacheConfig,
    enabled: bool,
}

impl View for ShardedCache {
    type V = Seq<Seq<Entry>>;

    /// The entries of each shard, in index order.
    open spec fn view(&self) -> Seq<Seq<Entry>> {
        Seq::new(self.lrus().len(), |i: int| self.lrus()[i]@)
    }
}

impl ShardedCache {
    /// The shards, in index order.
    pub closed spec fn lrus(&self) -> Seq<Lru> {
        self.shards@
    }

    /// The settings the cache was built from.
    pub closed spec fn settings(&self) -> CacheConfig {
        self.config
    }

    /// The cache remembers whether it is enabled.
    pub closed spec fn settled(&self) -> bool {
        self.enabled == self.config.enabled
    }

    /// The capacity of each shard.
    pub open spec fn shard_capacity(&self) -> nat {
        per_shard(self.settings().cache_capacity as nat, self.settings().num_shards as nat)
    }

    /// An enabled cache has the configured number of shards, a disabled one
    /// has none; every shard is well formed, has the per-shard capacity and
    /// knows its index.
    pub open spec fn wf(&self) -> bool {
        &&& self.settled()
        &&& self.settings().usable()
        &&& self.lrus().len() == if self.settings().enabled {
            self.settings().num_shards
        } else {
            0
        }
        &&& forall|i: int|
            0 <= i < self.lrus().len() ==> {
                &&& (#[trigger] self.lrus()[i]).wf()
                &&& self.lrus()[i].capacity() == self.shard_capacity()
                &&& self.lrus()[i].id() == i
            }
    }

    /// The shards of a well-formed cache are well formed for the per-shard
    /// capacity, which is at least one.
    pub proof fn lemma_wf_sound(&self)
        requires
            self.wf(),
        ensures
            sound(self@, self.shard_capacity()),
            self.shard_capacity() > 0,
            self.settings().enabled <==> self@.len() > 0,
    {
        lemma_per_shard_positive(
            self.settings().cache_capacity as nat,
            self.settings().num_shards as nat,
        );
        assert forall|s: int| 0 <= s < self@.len() implies well_formed(
            #[trigger] self@[s],
            self.shard_capacity(),
        ) by {
            assert(self.lrus()[s].wf());
        }
    }

    fn get_shard(&self, key: &[u8]) -> (shard: usize)
        requires
            self.wf(),
            self.settings().enabled,
        ensures
            shard == slot_of(fingerprint(key@), self@.len()),
            shard < self@.len(),
    {
        KeyVal::key_slot(key, self.config.num_shards) as usize
    }

    fn get_shard_key_val(&self, kv: &KeyVal) -> (shard: usize)
        requires
            self.wf(),
            self.settings().enabled,
        ensures
            shard == slot_of(kv.hash, self@.len()),
            shard < self@.len(),
    {
        kv.slot(self.config.num_shards) as usize
    }

    /// Whether the cache is enabled.
    pub fn enabled(&self) -> (enabled: bool)
        ensures
            enabled == self.settings().enabled,
    {
        self.config.enabled
    }

    /// A cache with the configured number of empty shards, or with none if it
    /// is disabled.
    pub fn new(config: &CacheConfig) -> (cache: ShardedCache)
        requires
            config.usable(),
        ensures
            cache.wf(),
            cache.settings() == *config,
            cache@.len() == if config.enabled {
                config.num_shards
            } else {
                0
            },
            forall|i: int| 0 <= i < cache@.len() ==> (#[trigger] cache@[i]).len() == 0,
    {
        let whole = config.cache_capacity / config.num_shards;
        let shard_capacity = if config.cache_capacity % config.num_shards == 0 {
            whole
        } else {
            proof {
                lemma_fundamental_div_mod(config.cache_capacity as int, config.num_shards as int);
                assert(whole < config.cache_capacity) by (nonlinear_arith)
                    requires
                        config.num_shards > 0,
                        whole >= 0,
                        config.cache_capacity % config.num_shards != 0,
                        config.cache_capacity == config.num_shards * whole + config.cache_capacity
                            % config.num_shards,
                ;
            }
            whole + 1
        };
        let mut shards: Vec<Lru> = Vec::with_capacity(config.num_shards);
        if config.enabled {
            let mut i: usize = 0;
            while i < config.num_shards
                invariant
                    i <= config.num_shards,
                    shards@.len() == i,
                    shard_capacity == per_shard(
                        config.cache_capacity as nat,
                        config.num_shards as nat,
                    ),
                    forall|j: int|
                        0 <= j < i ==> {
                            &&& (#[trigger] shards@[j]).wf()
                            &&& shards@[j].capacity() == shard_capacity
                            &&& shards@[j].id() == j
                            &&& shards@[j]@.len() == 0
                        },
                decreases config.num_shards - i,
            {
                shards.push(Lru::new(i, shard_capacity));
                i += 1;
            }
        }
        ShardedCache { shards, config: config.clone(), enabled: config.enabled }
    }

    /// The shard at the index.
    pub fn get_lru_shard(&self, shard: usize) -> (lru: &Lru)
        requires
            shard < self@.len(),
        ensures
            *lru == self.lrus()[shard as int],
    {
        &self.shards[shard]
    }

    /// Caches every record's value under its key, in the shard that the
    /// record's fingerprint selects.
    pub fn batch_put(&mut self, data: &[KeyVal]) -> (done: Result<(), String>)
        requires
            old(self).wf(),
        ensures
            done is Ok,
            final(self).wf(),
            final(self).settings() == old(self).settings(),
            final(self)@ == after_batch(old(self)@, old(self).shard_capacity(), views(data@)),
            placed(old(self)@) && all_consistent(views(data@)) ==> placed(final(self)@),
    {
        proof {
            if placed(self@) && all_consistent(views(data@)) {
                lemma_placed_batch(self@, self.shard_capacity(), views(data@));
            }
        }
        if !self.enabled {
            proof {
                lemma_batch_of_nothing(self@, self.shard_capacity(), views(data@));
            }
            return Ok(());
        }
        let mut i: usize = 0;
        while i < data.len()
            invariant
                i <= data@.len(),
                self.wf(),
                self.settings() == old(self).settings(),
                self.settings().enabled,
                self@ == after_batch(
                    old(self)@,
                    old(self).shard_capacity(),
                    views(data@).take(i as int),
                ),
            decreases data@.len() - i,
        {
            let kv = &data[i];
            let _ = self.put_key_val(kv, kv.val.as_slice());
            i += 1;
            assert(views(data@).take(i as int).drop_last() == views(data@).take(i - 1));
        }
        assert(views(data@).take(i as int) == views(data@));
        Ok(())
    }

    /// The value cached under the key; a hit becomes the most recent entry
    /// of its shard. A disabled cache finds nothing.
    pub fn get(&mut self, key: &[u8]) -> (found: Option<Vec<u8>>)
        requires
            old(self).wf(),
        ensures
            final(self).wf(),
            final(self).settings() == old(self).settings(),
            bytes_of(found) == read(old(self)@, fingerprint(key@), key@),
            final(self)@ == after_read(old(self)@, fingerprint(key@), key@),
            placed(old(self)@) ==> placed(final(self)@),
    {
        proof {
            if placed(self@) {
                lemma_placed_read(self@, key@);
            }
        }
        if !self.enabled {
            return None;
        }
        let shard = self.get_shard(key);
        let found = self.shards[shard].get(key);
        assert(self@ == after_read(old(self)@, fingerprint(key@), key@));
        found
    }

    /// The value cached under the record's key, looked up in the shard that
    /// the record's fingerprint selects.
    pub fn get_key_val(&mut self, kv: &KeyVal) -> (found: Option<Vec<u8>>)
        requires
            old(self).wf(),
        ensures
            final(self).wf(),
            final(self).settings() == old(self).settings(),
            bytes_of(found) == read(old(self)@, kv.hash, kv.key@),
            final(self)@ == after_read(old(self)@, kv.hash, kv.key@),
            placed(old(self)@) && kv.consistent() ==> placed(final(self)@),
    {
        proof {
            if placed(self@) && kv.consistent() {
                lemma_placed_read(self@, kv.key@);
            }
        }
        if !self.enabled {
            return None;
        }
        let shard = self.get_shard_key_val(kv);
        let found = self.shards[shard].get(kv.key.as_slice());
        assert(self@ == after_read(old(self)@, kv.hash, kv.key@));
        found
    }

    /// Caches the value under the key. A disabled cache stores nothing.
    pub fn put(&mut self, key: &[u8], val: &[u8]) -> (done: Result<(), String>)
        requires
            old(self).wf(),
        ensures
            done is Ok,
            final(self).wf(),
            final(self).settings() == old(self).settings(),
            final(self)@ == after_write(
                old(self)@,
                old(self).shard_capacity(),
                fingerprint(key@),
                key@,
                val@,
            ),
            placed(old(self)@) ==> placed(final(self)@),
    {
        proof {
            if placed(self@) {
                lemma_placed_write(self@, self.shard_capacity(), key@, val@);
            }
        }
        if !self.enabled {
            return Ok(());
        }
        let shard = self.get_shard(key);
        let done = self.shards[shard].put(key, val);
        assert(self@ == after_write(
            old(self)@,
            old(self).shard_capacity(),
            fingerprint(key@),
            key@,
            val@,
        ));
        done
    }

    /// Caches the value under the record's key, in the shard that the
    /// record's fingerprint selects.
    pub fn put_key_val(&mut self, kv: &KeyVal, val: &[u8]) -> (done: Result<(), String>)
        requires
            old(self).wf(),
        ensures
            done is Ok,
            final(self).wf(),
            final(self).settings() == old(self).settings(),
            final(self)@ == after_write(
                old(self)@,
                old(self).shard_capacity(),
                kv.hash,
                kv.key@,
                val@,
            ),
            placed(old(self)@) && kv.consistent() ==> placed(final(self)@),
    {
        proof {
            if placed(self@) && kv.consistent() {
                lemma_placed_write(self@, self.shard_capacity(), kv.key@, val@);
            }
        }
        if !self.enabled {
            return Ok(());
        }
        let shard = self.get_shard_key_val(kv);
        let done = self.shards[shard].put(kv.key.as_slice(), val);
        assert(self@ == after_write(
            old(self)@,
            old(self).shard_capacity(),
            kv.hash,
            kv.key@,
            val@,
        ));
        done
    }

    /// Removes the key if it is cached.
    pub fn delete(&mut self, key: &[u8]) -> (done: Result<(), String>)
        requires
            old(self).wf(),
        ensures
            done is Ok,
            final(self).wf(),
            final(self).settings() == old(self).settings(),
            final(self)@ == after_delete(old(self)@, fingerprint(key@), key@),
            placed(old(self)@) ==> placed(final(self)@),
    {
        proof {
            if placed(self@) {
                lemma_placed_delete(self@, key@);
            }
        }
        if !self.enabled {
            return Ok(());
        }
        let shard = self.get_shard(key);
        let done = self.shards[shard].delete(key);
        assert(self@ == after_delete(old(self)@, fingerprint(key@), key@));
        done
    }

    /// Appends the export image of the cache to the sink, shard after shard in
    /// index order, and returns the number of keys written. A disabled cache,
    /// or one whose key dump is switched off, writes nothing.
    pub fn export_keys(&self, sink: &mut Vec<u8>) -> (written: Result<u64, String>)
        requires
            self.wf(),
        ensures
            written matches Ok(n) && n == if self.settings().keys_dump_enabled {
                count_all(self@)
            } else {
                0
            },
            final(sink)@ == if self.settings().keys_dump_enabled {
                old(sink)@ + exported_all(self@)
            } else {
                old(sink)@
            },
    {
        if !self.enabled {
            assert(self@ =~= Seq::<Seq<Entry>>::empty());
            return Ok(0);
        }
        if !self.config.keys_dump_enabled {
            return Ok(0);
        }
        let mut total: u64 = 0;
        let mut i: usize = 0;
        while i < self.shards.len()
            invariant
                i <= self.lrus().len(),
                self.lrus() == self.shards@,
                total == count_all(self@.take(i as int)),
                sink@ == old(sink)@ + exported_all(self@.take(i as int)),
            decreases self.lrus().len() - i,
        {
            let written = self.shards[i].export_keys(sink);
            i += 1;
            proof {
                assert(self@.take(i as int).drop_last() == self@.take(i - 1));
                assert(self@.take(i as int).last() == self@[i - 1]);
                lemma_exported_all_len(self@.take(i as int));
                assert(sink@.len() == sink.len());
            }
            match written {
                Ok(count) => {
                    total = total + count;
                },
                Err(e) => {
                    return Err(e);
                },
            }
        }
        assert(self@.take(i as int) == self@);
        Ok(total)
    }
}

/// A cache without shards stays empty whatever is written.
pub proof fn lemma_batch_of_nothing(view: Seq<Seq<Entry>>, limit: nat, records: Seq<KeyValView>)
    requires
        view.len() == 0,
    ensures
        after_batch(view, limit, records) == view,
    decreases records.len(),
{
    if records.len() > 0 {
        lemma_batch_of_nothing(view, limit, records.drop_last());
    }
}

} // verus!
