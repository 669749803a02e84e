//! One LRU shard: a capacity-bounded map from key bytes to value bytes that
//! evicts the least recently used entry.

use crate::cache::recency::{
    discard, exported, insert, insert_all, lemma_discard, lemma_insert, lemma_promote, line_end,
    lookup, promote, well_formed, Entry,
};
use crate::keyval::KeyVal;
use crate::text::{lossy_text, utf8_lossy};
use lru::LruCache;
use vstd::prelude::*;
use vstd::slice::slice_to_vec;
use vstd::utf8::{decode_utf8, encode_utf8, valid_utf8};

verus! {

/// `lru::LruCache`: known only through its entries and its limit.
#[verifier::external_type_specification]
#[verifier::external_body]
#[verifier::reject_recursive_types(K)]
#[verifier::reject_recursive_types(V)]
#[verifier::reject_recursive_types(S)]
pub struct ExLruCache<K, V, S>(LruCache<K, V, S>);

/// `lru::DefaultHasher`, the hasher an `lru::LruCache` is built with.
#[verifier::external_type_specification]
#[verifier::external_body]
pub struct ExDefaultHasher(lru::DefaultHasher);

/// The entries of an `lru::LruCache`, from the least recently used to the
/// most recently used.
pub uninterp spec fn lru_entries(cache: LruCache<Vec<u8>, Vec<u8>>) -> Seq<Entry>;

/// The number of entries an `lru::LruCache` was made to hold at most.
pub uninterp spec fn lru_limit(cache: LruCache<Vec<u8>, Vec<u8>>) -> nat;

/// The bytes of an optional byte vector.
pub open spec fn bytes_of(found: Option<Vec<u8>>) -> Option<Seq<u8>> {
    match found {
        Some(v) => Some(v@),
        None => None,
    }
}

/// The key and value of each record, in the same order.
pub open spec fn pairs(data: Seq<KeyVal>) -> Seq<Entry> {
    Seq::new(data.len(), |i: int| (data[i].key@, data[i].val@))
}

/// `lru::LruCache::unbounded`: an empty cache with the largest limit there
/// is. It reserves no room for entries ahead of their arrival.
#[verifier::external_body]
fn lru_unbounded() -> (cache: LruCache<Vec<u8>, Vec<u8>>)
    ensures
        lru_entries(cache) == Seq::<Entry>::empty(),
        lru_limit(cache) == usize::MAX,
{
    LruCache::unbounded()
}

/// `lru::LruCache::resize`: the cache holds at most `cap` entries from now on.
/// A cache with no more entries than that keeps them all, in their order.
#[verifier::external_body]
fn lru_resize(cache: &mut LruCache<Vec<u8>, Vec<u8>>, cap: usize)
    requires
        lru_entries(*old(cache)).len() <= cap,
    ensures
        lru_limit(*final(cache)) == cap,
        lru_entries(*final(cache)) == lru_entries(*old(cache)),
{
    cache.resize(cap);
}

/// `lru::LruCache::get`: the value under the key, copied out. A hit becomes
/// the most recently used entry; a miss changes nothing.
#[verifier::external_body]
fn lru_get(cache: &mut LruCache<Vec<u8>, Vec<u8>>, key: &[u8]) -> (found: Option<Vec<u8>>)
    ensures
        lru_limit(*final(cache)) == lru_limit(*old(cache)),
        lru_entries(*final(cache)) == promote(lru_entries(*old(cache)), key@),
        bytes_of(found) == lookup(lru_entries(*old(cache)), key@),
{
    cache.get(key).cloned()
}

/// `lru::LruCache::put`: a key that is present gets the new value and becomes
/// the most recently used entry; a new key is added as the most recently used
/// entry, in place of the least recently used one when the cache is full; a
/// cache made for no entries stays empty.
#[verifier::external_body]
fn lru_put(cache: &mut LruCache<Vec<u8>, Vec<u8>>, key: Vec<u8>, val: Vec<u8>)
    ensures
        lru_limit(*final(cache)) == lru_limit(*old(cache)),
        lru_entries(*final(cache)) == insert(
            lru_entries(*old(cache)),
            lru_limit(*old(cache)),
            key@,
            val@,
        ),
{
    cache.put(key, val);
}

/// `lru::LruCache::pop`: the entry under the key leaves the cache, the others
/// keep their order.
#[verifier::external_body]
fn lru_pop(cache: &mut LruCache<Vec<u8>, Vec<u8>>, key: &[u8])
    ensures
        lru_limit(*final(cache)) == lru_limit(*old(cache)),
        lru_entries(*final(cache)) == discard(lru_entries(*old(cache)), key@),
{
    cache.pop(key);
}

/// `lru::LruCache::len`: the number of entries.
#[verifier::external_body]
fn lru_len(cache: &LruCache<Vec<u8>, Vec<u8>>) -> (len: usize)
    ensures
        len == lru_entries(*cache).len(),
{
    cache.len()
}

/// `lru::LruCache::iter`: the keys in the order the iterator visits them, which
/// is from the most recently used to the least recently used.
#[verifier::external_body]
fn lru_keys(cache: &LruCache<Vec<u8>, Vec<u8>>) -> (keys: Vec<Vec<u8>>)
    ensures
        keys@.len() == lru_entries(*cache).len(),
        forall|i: int|
            0 <= i < keys@.len() ==> (#[trigger] keys@[i])@ == lru_entries(*cache)[keys@.len() - 1
                - i].0,
{
    cache.iter().map(|(key, _)| key.clone()).collect()
}

/// Appends the bytes to the sink.
fn append(sink: &mut Vec<u8>, bytes: &[u8])
    ensures
        final(sink)@ == old(sink)@ + bytes@,
{
    let mut i: usize = 0;
    while i < bytes.len()
        invariant
            i <= bytes@.len(),
            sink@ == old(sink)@ + bytes@.take(i as int),
        decreases bytes@.len() - i,
    {
        sink.push(bytes[i]);
        i += 1;
        assert(bytes@.take(i as int) == bytes@.take(i - 1).push(bytes@[i - 1]));
    }
    assert(bytes@.take(i as int) == bytes@);
}

/// One shard of the cache.
pub struct Lru {
    id: usize,
    cache: LruCache<Vec<u8>, Vec<u8>>,
    cache_capacity: usize,
}

impl View for Lru {
    type V = Seq<Entry>;

    /// The entries, from the least recently used to the most recently used.
    closed spec fn view(&self) -> Seq<Entry> {
        lru_entries(self.cache)
    }
}

impl Lru {
    /// The number of the shard.
    pub closed spec fn id(&self) -> usize {
        self.id
    }

    /// The number of entries the shard holds at most.
    pub closed spec fn capacity(&self) -> nat {
        lru_limit(self.cache)
    }

    /// The shard remembers the capacity it was made with.
    pub closed spec fn settled(&self) -> bool {
        self.cache_capacity == lru_limit(self.cache)
    }

    /// No key is cached twice and the capacity is kept.
    pub open spec fn wf(&self) -> bool {
        self.settled() && well_formed(self@, self.capacity())
    }

    /// An empty shard that holds at most `cache_capacity` entries. Room for
    /// them is taken as they arrive, so that any capacity can be asked for.
    pub fn new(id: usize, cache_capacity: usize) -> (lru: Lru)
        ensures
            lru.wf(),
            lru.id() == id,
            lru.capacity() == cache_capacity,
            lru@ == Seq::<Entry>::empty(),
    {
        let mut cache = lru_unbounded();
        lru_resize(&mut cache, cache_capacity);
        Lru { id, cache, cache_capacity }
    }

    /// The value cached under the key. A hit becomes the most recent entry.
    pub fn get(&mut self, key: &[u8]) -> (found: Option<Vec<u8>>)
        requires
            old(self).wf(),
        ensures
            final(self).wf(),
            final(self).id() == old(self).id(),
            final(self).capacity() == old(self).capacity(),
            final(self)@ == promote(old(self)@, key@),
            bytes_of(found) == lookup(old(self)@, key@),
    {
        proof {
            lemma_promote(self@, self.capacity(), key@);
        }
        lru_get(&mut self.cache, key)
    }

    /// The value cached under the key, both taken as text.
    pub fn get_str(&mut self, key: &str) -> (found: Option<String>)
        requires
            old(self).wf(),
        ensures
            final(self).wf(),
            final(self).id() == old(self).id(),
            final(self).capacity() == old(self).capacity(),
            final(self)@ == promote(old(self)@, encode_utf8(key@)),
            match lookup(old(self)@, encode_utf8(key@)) {
                Some(v) => found matches Some(text) && text@ == utf8_lossy(v) && (valid_utf8(v)
                    ==> text@ == decode_utf8(v)),
                None => found is None,
            },
    {
        match self.get(key.as_bytes()) {
            Some(val) => Some(lossy_text(val.as_slice())),
            None => None,
        }
    }

    /// Caches the value under the key, both given as text.
    pub fn put_str(&mut self, key: &str, val: &str) -> (done: Result<(), String>)
        requires
            old(self).wf(),
        ensures
            done is Ok,
            final(self).wf(),
            final(self).id() == old(self).id(),
            final(self).capacity() == old(self).capacity(),
            final(self)@ == insert(
                old(self)@,
                old(self).capacity(),
                encode_utf8(key@),
                encode_utf8(val@),
            ),
    {
        self.put(key.as_bytes(), val.as_bytes())
    }

    /// Caches the value under the key, evicting the least recent entry if the
    /// shard is full and the key is new.
    pub fn put(&mut self, key: &[u8], val: &[u8]) -> (done: Result<(), String>)
        requires
            old(self).wf(),
        ensures
            done is Ok,
            final(self).wf(),
            final(self).id() == old(self).id(),
            final(self).capacity() == old(self).capacity(),
            final(self)@ == insert(old(self)@, old(self).capacity(), key@, val@),
    {
        proof {
            lemma_insert(self@, self.capacity(), key@, val@);
        }
        lru_put(&mut self.cache, slice_to_vec(key), slice_to_vec(val));
        Ok(())
    }

    /// Caches every record's value under its key, in the order given.
    pub fn batch_put(&mut self, data: &[KeyVal]) -> (done: Result<(), String>)
        requires
            old(self).wf(),
        ensures
            done is Ok,
            final(self).wf(),
            final(self).id() == old(self).id(),
            final(self).capacity() == old(self).capacity(),
            final(self)@ == insert_all(old(self)@, old(self).capacity(), pairs(data@)),
    {
        let mut i: usize = 0;
        while i < data.len()
            invariant
                i <= data@.len(),
                self.wf(),
                self.id() == old(self).id(),
                self.capacity() == old(self).capacity(),
                self@ == insert_all(old(self)@, old(self).capacity(), pairs(data@).take(i as int)),
            decreases data@.len() - i,
        {
            let kv = &data[i];
            let _ = self.put(kv.key.as_slice(), kv.val.as_slice());
            i += 1;
            assert(pairs(data@).take(i as int).drop_last() == pairs(data@).take(i - 1));
        }
        assert(pairs(data@).take(i as int) == pairs(data@));
        Ok(())
    }

    /// Removes the key if it is cached.
    pub fn delete(&mut self, key: &[u8]) -> (done: Result<(), String>)
        requires
            old(self).wf(),
        ensures
            done is Ok,
            final(self).wf(),
            final(self).id() == old(self).id(),
            final(self).capacity() == old(self).capacity(),
            final(self)@ == discard(old(self)@, key@),
    {
        proof {
            lemma_discard(self@, self.capacity(), key@);
        }
        lru_pop(&mut self.cache, key);
        Ok(())
    }

    /// The number of cached entries.
    pub fn len(&self) -> (len: usize)
        ensures
            len == self@.len(),
    {
        lru_len(&self.cache)
    }

    /// Whether nothing is cached.
    pub fn is_empty(&self) -> (empty: bool)
        ensures
            empty == (self@.len() == 0),
    {
        lru_len(&self.cache) == 0
    }

    /// Appends every key, followed by a line terminator, to the sink, from the
    /// least recent to the most recent, and returns how many keys it wrote.
    pub fn export_keys(&self, sink: &mut Vec<u8>) -> (written: Result<u64, String>)
        ensures
            final(sink)@ == old(sink)@ + exported(self@),
            written matches Ok(n) && n == self@.len(),
    {
        let keys = lru_keys(&self.cache);
        let count = keys.len();
        let mut left: usize = count;
        while left > 0
            invariant
                left <= count,
                count == keys@.len(),
                keys@.len() == self@.len(),
                forall|i: int|
                    0 <= i < keys@.len() ==> (#[trigger] keys@[i])@ == self@[keys@.len() - 1 - i].0,
                sink@ == old(sink)@ + exported(self@.take(count - left)),
            decreases left,
        {
            left -= 1;
            let ghost before = sink@;
            append(sink, keys[left].as_slice());
            sink.push(13u8);
            sink.push(10u8);
            proof {
                let done = self@.take(count - left);
                assert(done.drop_last() == self@.take(count - left - 1));
                assert(done.last() == self@[count - left - 1]);
                assert(keys@[left as int]@ == self@[count - 1 - left].0);
                assert(sink@ == before + keys@[left as int]@ + line_end());
            }
        }
        assert(self@.take(count as int) == self@);
        Ok(count as u64)
    }
}

} // verus!
