//! The mathematical model of one LRU shard: a sequence of entries ordered from
//! the least recently used (index 0) to the most recently used (last index).

use vstd::prelude::*;

verus! {

/// A cached key with its value.
pub type Entry = (Seq<u8>, Seq<u8>);

/// Whether some entry has the key.
pub open spec fn holds(entries: Seq<Entry>, key: Seq<u8>) -> bool {
    exists|i: int| 0 <= i < entries.len() && (#[trigger] entries[i]).0 == key
}

/// The index of an entry with the key, where there is one.
pub open spec fn position(entries: Seq<Entry>, key: Seq<u8>) -> int {
    choose|i: int| 0 <= i < entries.len() && (#[trigger] entries[i]).0 == key
}

/// No two entries share a key.
pub open spec fn distinct(entries: Seq<Entry>) -> bool {
    forall|i: int, j: int|
        0 <= i < j < entries.len() ==> (#[trigger] entries[i]).0 != (#[trigger] entries[j]).0
}

/// The entries of a shard that holds at most `limit` of them.
pub open spec fn well_formed(entries: Seq<Entry>, limit: nat) -> bool {
    distinct(entries) && entries.len() <= limit
}

/// The value cached under the key.
pub open spec fn lookup(entries: Seq<Entry>, key: Seq<u8>) -> Option<Seq<u8>> {
    if holds(entries, key) {
        Some(entries[position(entries, key)].1)
    } else {
        None
    }
}

/// The entries after a read of the key: a hit becomes the most recent entry,
/// a miss changes nothing.
pub open spec fn promote(entries: Seq<Entry>, key: Seq<u8>) -> Seq<Entry> {
    if holds(entries, key) {
        let i = position(entries, key);
        entries.remove(i).push(entries[i])
    } else {
        entries
    }
}

/// The entries after a write. A key that is present gets the new value and
/// becomes the most recent entry. A new key is appended as the most recent
/// entry, after the least recent one has left if the shard is full. A shard
/// with no room at all stores nothing.
pub open spec fn insert(entries: Seq<Entry>, limit: nat, key: Seq<u8>, val: Seq<u8>) -> Seq<
    Entry,
> {
    if holds(entries, key) {
        entries.remove(position(entries, key)).push((key, val))
    } else if limit == 0 {
        entries
    } else if entries.len() == limit {
        entries.drop_first().push((key, val))
    } else {
        entries.push((key, val))
    }
}

/// The entries after the key has been removed.
pub open spec fn discard(entries: Seq<Entry>, key: Seq<u8>) -> Seq<Entry> {
    if holds(entries, key) {
        entries.remove(position(entries, key))
    } else {
        entries
    }
}

/// The entries after the items have been written one after the other.
pub open spec fn insert_all(entries: Seq<Entry>, limit: nat, items: Seq<Entry>) -> Seq<Entry>
    decreases items.len(),
{
    if items.len() == 0 {
        entries
    } else {
        let last = items.last();
        insert(insert_all(entries, limit, items.drop_last()), limit, last.0, last.1)
    }
}

/// The line terminator of the key export format.
pub open spec fn line_end() -> Seq<u8> {
    seq![13u8, 10u8]
}

/// The export image of the entries: every key, verbatim and followed by the
/// line terminator, from the least recently used to the most recently used.
pub open spec fn exported(entries: Seq<Entry>) -> Seq<u8>
    decreases entries.len(),
{
    if entries.len() == 0 {
        Seq::empty()
    } else {
        exported(entries.drop_last()) + entries.last().0 + line_end()
    }
}

/// Among distinct keys an entry is found at its own index.
pub proof fn lemma_position_unique(entries: Seq<Entry>, i: int)
    requires
        distinct(entries),
        0 <= i < entries.len(),
    ensures
        holds(entries, entries[i].0),
        position(entries, entries[i].0) == i,
        lookup(entries, entries[i].0) == Some(entries[i].1),
{
    let p = position(entries, entries[i].0);
    assert(0 <= p < entries.len() && entries[p].0 == entries[i].0);
    if p < i {
        assert(entries[p].0 != entries[i].0);
    } else if i < p {
        assert(entries[i].0 != entries[p].0);
    }
}

/// A read keeps a shard well formed and neither adds nor drops a key.
pub proof fn lemma_promote(entries: Seq<Entry>, limit: nat, key: Seq<u8>)
    requires
        well_formed(entries, limit),
    ensures
        well_formed(promote(entries, key), limit),
        promote(entries, key).len() == entries.len(),
        forall|k: Seq<u8>| lookup(promote(entries, key), k) == lookup(entries, k),
{
    let after = promote(entries, key);
    if holds(entries, key) {
        let p = position(entries, key);
        assert(0 <= p < entries.len() && entries[p].0 == key);
        let rest = entries.remove(p);
        assert forall|i: int, j: int| 0 <= i < j < after.len() implies (#[trigger] after[i]).0 != (
        #[trigger] after[j]).0 by {
            let si = if i < p { i } else { i + 1 };
            assert(after[i] == entries[si]);
            if j < rest.len() {
                let sj = if j < p { j } else { j + 1 };
                assert(after[j] == entries[sj]);
            } else {
                assert(after[j] == entries[p]);
                if si < p {
                    assert(entries[si].0 != entries[p].0);
                } else {
                    assert(entries[p].0 != entries[si].0);
                }
            }
        }
        assert forall|k: Seq<u8>| lookup(after, k) == lookup(entries, k) by {
            if holds(entries, k) {
                let q = position(entries, k);
                assert(0 <= q < entries.len() && entries[q].0 == k);
                let t = if q < p { q } else if q == p { after.len() - 1 } else { q - 1 };
                assert(after[t] == entries[q]);
                lemma_position_unique(after, t);
                lemma_position_unique(entries, q);
            } else if holds(after, k) {
                let t = position(after, k);
                assert(0 <= t < after.len() && after[t].0 == k);
                let s = if t == after.len() - 1 { p } else if t < p { t } else { t + 1 };
                assert(after[t] == entries[s]);
                assert(entries[s].0 == k);
            }
        }
    }
}

/// A write keeps a shard well formed.
pub proof fn lemma_insert(entries: Seq<Entry>, limit: nat, key: Seq<u8>, val: Seq<u8>)
    requires
        well_formed(entries, limit),
    ensures
        well_formed(insert(entries, limit, key, val), limit),
        limit > 0 ==> lookup(insert(entries, limit, key, val), key) == Some(val),
        limit == 0 ==> insert(entries, limit, key, val) == entries,
{
    let after = insert(entries, limit, key, val);
    if holds(entries, key) {
        let p = position(entries, key);
        assert(0 <= p < entries.len() && entries[p].0 == key);
        let rest = entries.remove(p);
        assert forall|i: int, j: int| 0 <= i < j < after.len() implies (#[trigger] after[i]).0 != (
        #[trigger] after[j]).0 by {
            let si = if i < p { i } else { i + 1 };
            assert(after[i] == entries[si]);
            if j < rest.len() {
                let sj = if j < p { j } else { j + 1 };
                assert(after[j] == entries[sj]);
            } else {
                assert(after[j].0 == entries[p].0);
                if si < p {
                    assert(entries[si].0 != entries[p].0);
                } else {
                    assert(entries[p].0 != entries[si].0);
                }
            }
        }
        assert(after[after.len() - 1] == (key, val));
        lemma_position_unique(after, after.len() - 1);
    } else if limit == 0 {
    } else {
        let base = if entries.len() == limit { entries.drop_first() } else { entries };
        let shift: int = if entries.len() == limit { 1 } else { 0 };
        assert(after == base.push((key, val)));
        assert forall|i: int, j: int| 0 <= i < j < after.len() implies (#[trigger] after[i]).0 != (
        #[trigger] after[j]).0 by {
            assert(after[i] == entries[i + shift]);
            if j < base.len() {
                assert(after[j] == entries[j + shift]);
            } else {
                assert(after[j].0 == key);
                assert(entries[i + shift].0 != key);
            }
        }
        assert(after[after.len() - 1] == (key, val));
        lemma_position_unique(after, after.len() - 1);
    }
}

/// Removing a key keeps a shard well formed, and the key is gone.
pub proof fn lemma_discard(entries: Seq<Entry>, limit: nat, key: Seq<u8>)
    requires
        well_formed(entries, limit),
    ensures
        well_formed(discard(entries, key), limit),
        !holds(discard(entries, key), key),
        forall|k: Seq<u8>| k != key ==> lookup(discard(entries, key), k) == lookup(entries, k),
{
    let after = discard(entries, key);
    if holds(entries, key) {
        let p = position(entries, key);
        assert(0 <= p < entries.len() && entries[p].0 == key);
        assert forall|i: int| 0 <= i < after.len() implies after[i] == entries[if i < p {
            i
        } else {
            i + 1
        }] by {}
        assert forall|i: int, j: int| 0 <= i < j < after.len() implies (#[trigger] after[i]).0 != (
        #[trigger] after[j]).0 by {
            let si = if i < p { i } else { i + 1 };
            let sj = if j < p { j } else { j + 1 };
            assert(after[i] == entries[si]);
            assert(after[j] == entries[sj]);
        }
        if holds(after, key) {
            let t = position(after, key);
            assert(0 <= t < after.len() && after[t].0 == key);
            let s = if t < p { t } else { t + 1 };
            assert(after[t] == entries[s]);
            if s < p {
                assert(entries[s].0 != entries[p].0);
            } else {
                assert(entries[p].0 != entries[s].0);
            }
        }
        assert forall|k: Seq<u8>| k != key implies lookup(after, k) == lookup(entries, k) by {
            if holds(entries, k) {
                let q = position(entries, k);
                assert(0 <= q < entries.len() && entries[q].0 == k);
                let t = if q < p { q } else { q - 1 };
                assert(after[t] == entries[q]);
                lemma_position_unique(after, t);
                lemma_position_unique(entries, q);
            } else if holds(after, k) {
                let t = position(after, k);
                assert(0 <= t < after.len() && after[t].0 == k);
                let s = if t < p { t } else { t + 1 };
                assert(after[t] == entries[s]);
                assert(entries[s].0 == k);
            }
        }
    }
}

/// A shard never holds more entries than its limit, whatever is written to it
/// and in whatever order.
pub proof fn lemma_insert_all(entries: Seq<Entry>, limit: nat, items: Seq<Entry>)
    requires
        well_formed(entries, limit),
    ensures
        well_formed(insert_all(entries, limit, items), limit),
        insert_all(entries, limit, items).len() <= limit,
    decreases items.len(),
{
    if items.len() > 0 {
        lemma_insert_all(entries, limit, items.drop_last());
        let last = items.last();
        lemma_insert(insert_all(entries, limit, items.drop_last()), limit, last.0, last.1);
    }
}

/// Writing distinct keys to an empty shard, no more of them than it has room
/// for, keeps them all, in the order they were written.
pub proof fn lemma_fill(limit: nat, items: Seq<Entry>)
    requires
        distinct(items),
        items.len() <= limit,
    ensures
        insert_all(Seq::empty(), limit, items) == items,
    decreases items.len(),
{
    if items.len() > 0 {
        let front = items.drop_last();
        let last = items.last();
        assert forall|i: int, j: int| 0 <= i < j < front.len() implies (#[trigger] front[i]).0 != (
        #[trigger] front[j]).0 by {
            assert(front[i] == items[i] && front[j] == items[j]);
        }
        lemma_fill(limit, front);
        if holds(front, last.0) {
            let p = position(front, last.0);
            assert(front[p] == items[p]);
            assert(items[p].0 != items[items.len() - 1].0);
        }
        assert(front.push(last) =~= items);
    }
}

/// Once a shard has been filled from empty with as many distinct keys as it
/// has room for, writing one more key, different from all of them, evicts
/// the key that was written first.
pub proof fn lemma_overflow_evicts_oldest(limit: nat, items: Seq<Entry>, extra: Entry)
    requires
        limit > 0,
        items.len() == limit,
        distinct(items),
        !holds(items, extra.0),
    ensures
        !holds(insert_all(Seq::empty(), limit, items.push(extra)), items[0].0),
        insert_all(Seq::empty(), limit, items.push(extra)) == items.drop_first().push(extra),
{
    let all = items.push(extra);
    assert(all.drop_last() =~= items);
    assert(all.last() == extra);
    lemma_fill(limit, items);
    let after = insert_all(Seq::empty(), limit, all);
    assert(after == insert(items, limit, extra.0, extra.1));
    assert(after == items.drop_first().push(extra));
    if holds(after, items[0].0) {
        let t = position(after, items[0].0);
        assert(0 <= t < after.len() && after[t].0 == items[0].0);
        if t < after.len() - 1 {
            assert(after[t] == items[t + 1]);
            assert(items[0].0 != items[t + 1].0);
        } else {
            assert(after[t] == extra);
            assert(items[0].0 == extra.0);
        }
    }
}

/// A read, a write and a removal bring in no key but the one they are given.
pub proof fn lemma_keys_kept(entries: Seq<Entry>, limit: nat, key: Seq<u8>, val: Seq<u8>)
    ensures
        forall|k: Seq<u8>| #[trigger] holds(promote(entries, key), k) ==> holds(entries, k),
        forall|k: Seq<u8>| #[trigger]
            holds(insert(entries, limit, key, val), k) ==> k == key || holds(entries, k),
        forall|k: Seq<u8>| #[trigger] holds(discard(entries, key), k) ==> holds(entries, k),
{
    let p = position(entries, key);
    assert forall|k: Seq<u8>| holds(promote(entries, key), k) implies holds(entries, k) by {
        let after = promote(entries, key);
        let t = position(after, k);
        assert(0 <= t < after.len() && after[t].0 == k);
        if holds(entries, key) {
            let s = if t == after.len() - 1 { p } else if t < p { t } else { t + 1 };
            assert(after[t] == entries[s]);
        }
    }
    assert forall|k: Seq<u8>| holds(insert(entries, limit, key, val), k) implies k == key || holds(
        entries,
        k,
    ) by {
        let after = insert(entries, limit, key, val);
        let t = position(after, k);
        assert(0 <= t < after.len() && after[t].0 == k);
        if holds(entries, key) {
            if t < after.len() - 1 {
                let s = if t < p { t } else { t + 1 };
                assert(after[t] == entries[s]);
            }
        } else if limit == 0 {
        } else if t < after.len() - 1 {
            let s = if entries.len() == limit { t + 1 } else { t };
            assert(after[t] == entries[s]);
        }
    }
    assert forall|k: Seq<u8>| holds(discard(entries, key), k) implies holds(entries, k) by {
        let after = discard(entries, key);
        let t = position(after, k);
        assert(0 <= t < after.len() && after[t].0 == k);
        if holds(entries, key) {
            let s = if t < p { t } else { t + 1 };
            assert(after[t] == entries[s]);
        }
    }
}

/// The export image holds two bytes more than its key for every entry.
pub proof fn lemma_exported_len(entries: Seq<Entry>)
    ensures
        exported(entries).len() >= 2 * entries.len(),
    decreases entries.len(),
{
    if entries.len() > 0 {
        lemma_exported_len(entries.drop_last());
    }
}

} // verus!
