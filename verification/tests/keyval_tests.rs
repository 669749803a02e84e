use bhatho::keyval::KeyVal;
use rand::RngCore;
use std::collections::HashMap;

const DIGITS_AND_LETTERS: &[u8] = b"ABCDEFGHIJKLMNOPQRSTUVWXYZabcdefghijklmnopqrstuvwxyz0123456789";

/// A source of random alphanumeric text, seeded from the thread's generator.
struct KeySource {
    state: u64,
}

impl KeySource {
    fn new() -> KeySource {
        KeySource { state: rand::thread_rng().next_u64() | 1 }
    }

    fn next_bits(&mut self) -> u64 {
        self.state ^= self.state >> 12;
        self.state ^= self.state << 25;
        self.state ^= self.state >> 27;
        self.state.wrapping_mul(0x2545_F491_4F6C_DD1D)
    }

    fn text(&mut self, len: usize) -> String {
        let mut out = String::with_capacity(len);
        while out.len() < len {
            let mut bits = self.next_bits();
            let mut group = 0;
            while group < 10 && out.len() < len {
                let pick = (bits & 63) as usize;
                bits >>= 6;
                group += 1;
                if pick < DIGITS_AND_LETTERS.len() {
                    out.push(DIGITS_AND_LETTERS[pick] as char);
                }
            }
        }
        out
    }
}

#[test]
fn test_get_hash_code() {
    let key = b"1234567890abcdefghijkl";
    let first = KeyVal::get_hash_code(key);
    let second = KeyVal::get_hash_code(key);
    assert_eq!(first, second);
    assert_eq!(first, KeyVal::new(key, b"").hash());
}

#[test]
fn test_sharded_cache_keyval_hashcode() {
    let capacity = 2000000;
    let mut cache = HashMap::with_capacity(capacity);
    let mut data = HashMap::with_capacity(capacity);

    let mut r_th = KeySource::new();
    for _ in 0..capacity {
        let key = r_th.text(8);
        let val = format!("{}", (KeyVal::get_hash_code(&key.as_bytes()) as usize));

        cache.insert(key.clone(), val.clone());
        data.insert(key, val);
    }

    for (key, val) in data.iter() {
        let cache_val = cache.get(key);
        assert!(cache_val.is_some());
        assert_eq!(val, cache_val.unwrap());
    }
}

#[test]
fn fingerprint_matches_known_digests() {
    assert_eq!(KeyVal::get_hash_code(&[]), 0xef46_db37_51d8_e999);
    assert_eq!(KeyVal::get_hash_code(&[42]), 0x0a9e_dece_beb0_3ae4);
    assert_eq!(KeyVal::get_hash_code(b"Hello, world!\0"), 0x7b06_c531_ea43_e89f);
    let bytes: Vec<u8> = (0..100).collect();
    assert_eq!(KeyVal::get_hash_code(&bytes), 0x6ac1_e580_3216_6597);
}

#[test]
fn fingerprint_depends_on_the_key_bytes_only() {
    let a = KeyVal::new(b"same-key", b"one value");
    let b = KeyVal::new_with_db_name(b"some-db", b"same-key", b"another value");
    let c = KeyVal::new_with_key(b"same-key");
    let d = KeyVal::new_with_db_key(b"other-db", b"same-key");
    assert_eq!(a.hash(), b.hash());
    assert_eq!(a.hash(), c.hash());
    assert_eq!(a.hash(), d.hash());
    assert_eq!(a.hash(), KeyVal::get_hash_code(b"same-key"));
    assert_ne!(a.hash(), KeyVal::get_hash_code(b"same-kez"));
}

#[test]
fn constructors_fill_the_record() {
    let kv = KeyVal::new(b"k", b"v");
    assert_eq!(kv.key, b"k".to_vec());
    assert_eq!(kv.val, b"v".to_vec());
    assert!(kv.db_name.is_empty());
    assert!(!kv.skip_db);
    assert!(!kv.skip_cache);

    let kv = KeyVal::new_with_db_name(b"red", b"k", b"v");
    assert_eq!(kv.db_name, b"red".to_vec());
    assert_eq!(kv.key, b"k".to_vec());
    assert_eq!(kv.val, b"v".to_vec());
    assert_eq!(kv.hash, KeyVal::get_hash_code(b"k"));

    let kv = KeyVal::new_with_hash(77, b"k", b"v");
    assert_eq!(kv.hash(), 77);
    assert_eq!(kv.key, b"k".to_vec());
    assert_eq!(kv.val, b"v".to_vec());
    assert!(kv.db_name.is_empty());

    let kv = KeyVal::new_with_key(b"k");
    assert!(kv.val.is_empty());
    assert!(kv.db_name.is_empty());
    assert_eq!(kv.key, b"k".to_vec());

    let kv = KeyVal::new_with_db_key(b"blue", b"k");
    assert!(kv.val.is_empty());
    assert_eq!(kv.db_name, b"blue".to_vec());
    assert_eq!(kv.key, b"k".to_vec());
}

#[test]
fn clone_copies_every_field() {
    let mut kv = KeyVal::new_with_db_name(b"red", b"key", b"val");
    kv.skip_db = true;
    kv.skip_cache = true;
    let copy = kv.clone();
    assert_eq!(copy.hash, kv.hash);
    assert_eq!(copy.key, kv.key);
    assert_eq!(copy.val, kv.val);
    assert_eq!(copy.db_name, kv.db_name);
    assert!(copy.skip_db);
    assert!(copy.skip_cache);
}

#[test]
fn slot_follows_the_jump_sequence() {
    assert_eq!(KeyVal::gen_consistent_slot(0, 1), 0);
    assert_eq!(KeyVal::gen_consistent_slot(0, 2), 0);
    assert_eq!(KeyVal::gen_consistent_slot(0, 4), 0);
    assert_eq!(KeyVal::gen_consistent_slot(1, 4), 0);
    assert_eq!(KeyVal::gen_consistent_slot(0xef46_db37_51d8_e999, 4), 2);
    assert_eq!(KeyVal::gen_consistent_slot(0xef46_db37_51d8_e999, 1024), 332);
    assert_eq!(KeyVal::gen_consistent_slot(0x0a9e_dece_beb0_3ae4, 32), 6);
    assert_eq!(KeyVal::gen_consistent_slot(0x7b06_c531_ea43_e89f, 1000), 354);
    assert_eq!(KeyVal::gen_consistent_slot(12345678901234567890, 10), 8);
    assert_eq!(KeyVal::gen_consistent_slot(u64::MAX, 7), 2);
    assert_eq!(KeyVal::get_slot_from_hash(0x7b06_c531_ea43_e89f, 1000), 354);
}

#[test]
fn slot_of_a_large_count_needs_wide_arithmetic() {
    assert_eq!(KeyVal::gen_consistent_slot(0, 1usize << 40), 981326096152);
}

#[test]
fn slot_without_slots_is_no_index() {
    assert_eq!(KeyVal::gen_consistent_slot(42, 0), u64::MAX);
    assert_eq!(KeyVal::new_with_hash(42, b"k", b"v").slot(0), u64::MAX);
}

#[test]
fn single_slot_is_always_zero() {
    for h in [0u64, 1, 42, u64::MAX, 0xef46_db37_51d8_e999] {
        assert_eq!(KeyVal::new_with_hash(h, b"k", b"v").slot(1), 0);
        assert_eq!(KeyVal::gen_consistent_slot(h, 1), 0);
    }
    assert_eq!(KeyVal::key_slot(b"any key", 1), 0);
}

#[test]
fn slot_is_stable_and_in_range() {
    for n in [2usize, 3, 4, 7, 32, 1000, 1024] {
        for i in 0..200u32 {
            let key = format!("key-{}", i);
            let kv = KeyVal::new(key.as_bytes(), b"");
            let first = kv.slot(n);
            assert!(first < n as u64);
            assert_eq!(first, kv.slot(n));
            assert_eq!(first, KeyVal::key_slot(key.as_bytes(), n));
            assert_eq!(first, KeyVal::gen_consistent_slot(kv.hash(), n));
        }
    }
}

#[test]
fn slot_by_record_uses_the_carried_fingerprint() {
    let kv = KeyVal::new_with_hash(0xef46_db37_51d8_e999, b"unrelated key", b"");
    assert_eq!(kv.slot(1024), 332);
    assert_eq!(KeyVal::key_slot(&[], 1024), 332);
}

#[test]
fn random_jump_slot_is_in_range() {
    for n in [1usize, 2, 10, 1000] {
        for i in 0..50u32 {
            let key = format!("key-{}", i);
            assert!(KeyVal::get_slot_jumphash(key.as_bytes(), n) < n as u64);
        }
    }
}
