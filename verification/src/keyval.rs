//! Request records, key fingerprints and the slot function.

use std::hash::Hasher;
use vstd::prelude::*;
use vstd::slice::slice_to_vec;

verus! {

/// The seed every key fingerprint is computed with.
pub const FINGERPRINT_SEED: u64 = 0;

/// The multiplier of the linear-congruential sequence the slot function walks.
pub const JUMP_MULTIPLIER: u64 = 2862933555777941757;

/// The 64-bit XXH64 digest of `bytes` under `seed`, as `twox_hash::XxHash64` computes it.
pub uninterp spec fn xxh64(seed: u64, bytes: Seq<u8>) -> u64;

/// The fingerprint of a key: its XXH64 digest under the fixed seed.
pub open spec fn fingerprint(key: Seq<u8>) -> u64 {
    xxh64(FINGERPRINT_SEED, key)
}

/// One step of the linear-congruential sequence.
pub open spec fn jump_state(h: u64) -> u64 {
    h.wrapping_mul(JUMP_MULTIPLIER).wrapping_add(1)
}

/// The candidate that follows bucket `b` once the sequence has reached `h`.
pub open spec fn jump_candidate(b: int, h: u64) -> int {
    ((b + 1) * 0x8000_0000) / (((h >> 33) + 1) as int)
}

/// The bucket the walk ends in when it stands at bucket `b` with state `h`:
/// the last candidate below `n`.
pub open spec fn jump_walk(h: u64, b: int, n: int) -> int
    decreases n - b,
{
    let next = jump_candidate(b, jump_state(h));
    if b < next && next < n {
        jump_walk(jump_state(h), next, n)
    } else {
        b
    }
}

/// The slot that `hash` selects among `slot_count` slots.
/// With no slots there is nothing to select and the value is `u64::MAX`.
#[verifier::opaque]
pub open spec fn slot_of(hash: u64, slot_count: nat) -> int {
    if slot_count == 0 {
        u64::MAX as int
    } else {
        jump_walk(hash, 0, slot_count as int)
    }
}

/// Every candidate lies strictly beyond the bucket it follows.
pub proof fn lemma_candidate_advances(b: int, h: u64)
    requires
        0 <= b,
    ensures
        b < jump_candidate(b, h),
{
    let d = ((h >> 33) + 1) as int;
    assert(h >> 33 < 0x8000_0000u64) by (bit_vector);
    assert(0 < d <= 0x8000_0000);
    let x = (b + 1) * 0x8000_0000;
    assert(x / d >= b + 1) by (nonlinear_arith)
        requires
            0 < d <= 0x8000_0000,
            x == (b + 1) * 0x8000_0000,
            b >= 0,
    {
        assert((b + 1) * d <= x);
        assert(((b + 1) * d) / d == b + 1);
        assert(((b + 1) * d) / d <= x / d);
    }
}

/// The walk stays inside the range it started in.
pub proof fn lemma_walk_in_range(h: u64, b: int, n: int)
    requires
        0 <= b < n,
    ensures
        b <= jump_walk(h, b, n) < n,
    decreases n - b,
{
    let next = jump_candidate(b, jump_state(h));
    if b < next && next < n {
        lemma_walk_in_range(jump_state(h), next, n);
    }
}

/// XXH64 of `bytes` under `seed`, computed by feeding `bytes` in one piece to
/// `twox_hash::XxHash64::with_seed(seed)` and reading `finish`. The digest is
/// taken to depend on the seed and the bytes alone.
#[verifier::external_body]
fn xxh64_digest(seed: u64, bytes: &[u8]) -> (digest: u64)
    ensures
        digest == xxh64(seed, bytes@),
{
    let mut hasher = twox_hash::XxHash64::with_seed(seed);
    hasher.write(bytes);
    hasher.finish()
}

/// `jumphash::JumpHasher::new().slot(..)`: a bucket below `slot_count`, chosen
/// by a hasher with random keys, so that nothing more is known of it. The
/// outside function asserts that there is at least one bucket.
#[verifier::external_body]
fn random_jump_slot(key: &[u8], slot_count: u32) -> (slot: u32)
    requires
        slot_count > 0,
    ensures
        slot < slot_count,
{
    jumphash::JumpHasher::new().slot(&key, slot_count)
}

/// A request record: a key with its fingerprint, a value, the name of the
/// database it is meant for and two hints.
#[derive(Debug)]
pub struct KeyVal {
    pub hash: u64,
    pub key: Vec<u8>,
    pub val: Vec<u8>,
    pub db_name: Vec<u8>,
    pub skip_db: bool,
    pub skip_cache: bool,
}

/// What a request record holds, as mathematical values.
pub struct KeyValView {
    pub hash: u64,
    pub key: Seq<u8>,
    pub val: Seq<u8>,
    pub db_name: Seq<u8>,
    pub skip_db: bool,
    pub skip_cache: bool,
}

impl View for KeyVal {
    type V = KeyValView;

    open spec fn view(&self) -> KeyValView {
        KeyValView {
            hash: self.hash,
            key: self.key@,
            val: self.val@,
            db_name: self.db_name@,
            skip_db: self.skip_db,
            skip_cache: self.skip_cache,
        }
    }
}

impl Clone for KeyVal {
    fn clone(&self) -> (copy: KeyVal)
        ensures
            copy@ == self@,
    {
        KeyVal {
            hash: self.hash,
            key: self.key.clone(),
            val: self.val.clone(),
            db_name: self.db_name.clone(),
            skip_db: self.skip_db,
            skip_cache: self.skip_cache,
        }
    }
}

/// The record that a constructor builds from its parts, with both hints off.
pub open spec fn record(hash: u64, db_name: Seq<u8>, key: Seq<u8>, val: Seq<u8>) -> KeyValView {
    KeyValView { hash, key, val, db_name, skip_db: false, skip_cache: false }
}

impl KeyVal {
    /// Whether the carried fingerprint is the fingerprint of the carried key.
    pub open spec fn consistent(&self) -> bool {
        self.hash == fingerprint(self.key@)
    }

    /// A record for the key and the value, with the key's fingerprint and no
    /// database name.
    pub fn new(key: &[u8], val: &[u8]) -> (kv: KeyVal)
        ensures
            kv@ == record(fingerprint(key@), Seq::empty(), key@, val@),
    {
        let hash = KeyVal::get_hash_code(key);
        KeyVal {
            hash,
            key: slice_to_vec(key),
            val: slice_to_vec(val),
            db_name: Vec::new(),
            skip_db: false,
            skip_cache: false,
        }
    }

    /// A record for the key and the value, meant for the named database.
    pub fn new_with_db_name(db_name: &[u8], key: &[u8], val: &[u8]) -> (kv: KeyVal)
        ensures
            kv@ == record(fingerprint(key@), db_name@, key@, val@),
    {
        let hash = KeyVal::get_hash_code(key);
        KeyVal {
            hash,
            key: slice_to_vec(key),
            val: slice_to_vec(val),
            db_name: slice_to_vec(db_name),
            skip_db: false,
            skip_cache: false,
        }
    }

    /// A record that carries the fingerprint it is given, whatever the key.
    pub fn new_with_hash(key_hash: u64, key: &[u8], val: &[u8]) -> (kv: KeyVal)
        ensures
            kv@ == record(key_hash, Seq::empty(), key@, val@),
    {
        KeyVal {
            hash: key_hash,
            key: slice_to_vec(key),
            val: slice_to_vec(val),
            db_name: Vec::new(),
            skip_db: false,
            skip_cache: false,
        }
    }

    /// A record for the key alone, with an empty value.
    pub fn new_with_key(key: &[u8]) -> (kv: KeyVal)
        ensures
            kv@ == record(fingerprint(key@), Seq::empty(), key@, Seq::empty()),
    {
        let hash = KeyVal::get_hash_code(key);
        KeyVal {
            hash,
            key: slice_to_vec(key),
            val: Vec::new(),
            db_name: Vec::new(),
            skip_db: false,
            skip_cache: false,
        }
    }

    /// A record for the key alone, meant for the named database.
    pub fn new_with_db_key(db_name: &[u8], key: &[u8]) -> (kv: KeyVal)
        ensures
            kv@ == record(fingerprint(key@), db_name@, key@, Seq::empty()),
    {
        let hash = KeyVal::get_hash_code(key);
        KeyVal {
            hash,
            key: slice_to_vec(key),
            val: Vec::new(),
            db_name: slice_to_vec(db_name),
            skip_db: false,
            skip_cache: false,
        }
    }

    /// The carried fingerprint.
    pub fn hash(&self) -> (hash: u64)
        ensures
            hash == self.hash,
    {
        self.hash
    }

    /// The fingerprint of the key: a function of its bytes alone.
    pub fn get_hash_code(key: &[u8]) -> (hash: u64)
        ensures
            hash == fingerprint(key@),
    {
        xxh64_digest(FINGERPRINT_SEED, key)
    }

    /// The slot that `hash` selects among `slot_count` slots.
    pub fn get_slot_from_hash(hash: u64, slot_count: usize) -> (slot: u64)
        ensures
            slot == slot_of(hash, slot_count as nat),
            slot_count > 0 ==> slot < slot_count,
    {
        KeyVal::gen_consistent_slot(hash, slot_count)
    }

    /// A slot for the key among `slot_count` slots, drawn by a jump hasher
    /// that is keyed afresh on every call: two calls may disagree.
    pub fn get_slot_jumphash(key: &[u8], slot_count: usize) -> (slot: u64)
        requires
            0 < slot_count <= u32::MAX,
        ensures
            slot < slot_count,
    {
        random_jump_slot(key, slot_count as u32) as u64
    }

    /// The slot that the carried fingerprint selects among `slot_count` slots.
    pub fn slot(&self, slot_count: usize) -> (slot: u64)
        ensures
            slot == slot_of(self.hash, slot_count as nat),
            slot_count > 0 ==> slot < slot_count,
    {
        if slot_count == 1 {
            proof {
                lemma_single_slot(self.hash);
            }
            return 0;
        }
        KeyVal::gen_consistent_slot(self.hash, slot_count)
    }

    /// The slot that the fingerprint of `key` selects among `slot_count` slots.
    pub fn key_slot(key: &[u8], slot_count: usize) -> (slot: u64)
        ensures
            slot == slot_of(fingerprint(key@), slot_count as nat),
            slot_count > 0 ==> slot < slot_count,
    {
        if slot_count == 1 {
            proof {
                lemma_single_slot(fingerprint(key@));
            }
            return 0;
        }
        let h = KeyVal::get_hash_code(key);
        KeyVal::gen_consistent_slot(h, slot_count)
    }

    /// The slot that `hash` selects among `slot_count` slots, by jump
    /// consistent hashing in exact integer arithmetic.
    pub fn gen_consistent_slot(hash: u64, slot_count: usize) -> (slot: u64)
        ensures
            slot == slot_of(hash, slot_count as nat),
            slot_count > 0 ==> slot < slot_count,
    {
        if slot_count == 0 {
            proof {
                reveal(slot_of);
            }
            return u64::MAX;
        }
        let n: u128 = slot_count as u128;
        let mut h: u64 = hash;
        let mut b: u128 = 0;
        loop
            invariant_except_break
                0 <= b < n,
                n == slot_count,
                jump_walk(h, b as int, n as int) == jump_walk(hash, 0, n as int),
            ensures
                0 <= b < n,
                n == slot_count,
                b == jump_walk(hash, 0, n as int),
            decreases n - b,
        {
            let next_h: u64 = h.wrapping_mul(JUMP_MULTIPLIER).wrapping_add(1);
            let top: u64 = next_h >> 33;
            assert(top < 0x8000_0000u64) by (bit_vector)
                requires
                    top == next_h >> 33,
            ;
            let j: u128 = ((b + 1) * 0x8000_0000) / ((top as u128) + 1);
            proof {
                lemma_candidate_advances(b as int, next_h);
                assert(next_h == jump_state(h));
                assert(j == jump_candidate(b as int, next_h));
            }
            if j >= n {
                break ;
            }
            h = next_h;
            b = j;
        }
        proof {
            reveal(slot_of);
        }
        b as u64
    }
}

/// With at least one slot, the selected slot is one of them.
pub proof fn lemma_slot_in_range(hash: u64, slot_count: nat)
    requires
        slot_count > 0,
    ensures
        0 <= slot_of(hash, slot_count) < slot_count,
{
    reveal(slot_of);
    lemma_walk_in_range(hash, 0, slot_count as int);
}

/// A single slot is selected by every fingerprint.
pub proof fn lemma_single_slot(hash: u64)
    ensures
        slot_of(hash, 1) == 0,
{
    reveal(slot_of);
    lemma_walk_in_range(hash, 0, 1);
}

} // verus!
