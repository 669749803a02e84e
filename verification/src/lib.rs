//! A sharded, cache-fronted key-value engine: the verified core.
//!
//! The router holds the database instances and sends every request to one of
//! them: to the instance named by the request, to the instance named by the
//! first rule whose pattern matches the key, or to the instance that the
//! key's fingerprint selects.
//!
//! The core touches no disk, no queue and no thread. A request that needs the
//! store is answered with a step that says what to ask of the store, and is
//! completed with what the store said; the caller owns the storage engine,
//! the writer threads and the locks.

use crate::db::config::DbManagerConfig;
use crate::db::db_manager::{cache_unusable, DbManager, ReadStep};
use crate::db::rocks_db::{StoreDelete, StoreWrite};
use crate::keyval::{KeyVal, KeyValView};
use crate::text::{lossy_text, same_bytes, utf8_lossy};
use regex::Regex;
use vstd::prelude::*;
use vstd::slice::slice_to_vec;
use vstd::utf8::encode_utf8;

pub mod cache;
pub mod db;
pub mod keyval;
pub mod text;

verus! {

/// `regex::Regex`, a compiled pattern: carried, never looked into.
#[verifier::external_type_specification]
#[verifier::external_body]
pub struct ExRegex(Regex);

/// `regex::Error`, the reason a pattern was refused: carried, never looked into.
#[verifier::external_type_specification]
#[verifier::external_body]
pub struct ExRegexError(regex::Error);

/// The pattern that a `regex::Regex` was compiled from.
pub uninterp spec fn regex_pattern(re: Regex) -> Seq<char>;

/// Whether `regex::Regex::new` accepts the pattern.
pub uninterp spec fn regex_valid(pattern: Seq<char>) -> bool;

/// Whether the regex compiled from the pattern matches somewhere in the text.
pub uninterp spec fn regex_hit(pattern: Seq<char>, text: Seq<char>) -> bool;

/// `regex::Regex::new`: compiles the pattern, or refuses it. Whether a pattern
/// is accepted depends on the pattern alone, and the compiled regex keeps the
/// pattern it was made from.
#[verifier::external_body]
fn regex_new(pattern: &str) -> (made: Result<Regex, regex::Error>)
    ensures
        made is Ok <==> regex_valid(pattern@),
        made matches Ok(re) ==> regex_pattern(re) == pattern@,
{
    Regex::new(pattern)
}

/// `regex::Regex::is_match`: whether the regex matches anywhere in the text,
/// which depends on its pattern and the text alone.
#[verifier::external_body]
fn regex_is_match(re: &Regex, text: &str) -> (hit: bool)
    ensures
        hit == regex_hit(regex_pattern(*re), text@),
{
    re.is_match(text)
}

/// A rule that names a database for the keys a pattern matches.
#[derive(Debug)]
pub struct RegExMapping {
    pub extract_name_regex: String,
    pub new_db_name: String,
}

/// The rules that find a database name in a key.
#[derive(Debug)]
pub struct DbNameExtractor {
    pub enabled: bool,
    pub override_nonempty: bool,
    pub regex_mappings: Vec<RegExMapping>,
}

/// The settings of the router: the database instances, in order, and the
/// rules that find a database name in a key.
#[derive(Debug)]
pub struct BhathoConfig {
    pub db_configs: Vec<DbManagerConfig>,
    pub db_name_extractor_from_key: DbNameExtractor,
}

/// A rule as a pattern and the name it gives.
pub type Rule = (Seq<char>, Seq<char>);

/// The rules that find a database name in a key, as mathematical values.
pub struct ExtractorView {
    pub enabled: bool,
    pub override_nonempty: bool,
    pub rules: Seq<Rule>,
}

/// The settings of the router, as mathematical values.
pub struct BhathoConfigView {
    pub db_configs: Seq<DbManagerConfig>,
    pub extractor: ExtractorView,
}

impl View for RegExMapping {
    type V = Rule;

    open spec fn view(&self) -> Rule {
        (self.extract_name_regex@, self.new_db_name@)
    }
}

impl View for DbNameExtractor {
    type V = ExtractorView;

    open spec fn view(&self) -> ExtractorView {
        ExtractorView {
            enabled: self.enabled,
            override_nonempty: self.override_nonempty,
            rules: Seq::new(self.regex_mappings@.len(), |i: int| self.regex_mappings@[i]@),
        }
    }
}

impl View for BhathoConfig {
    type V = BhathoConfigView;

    open spec fn view(&self) -> BhathoConfigView {
        BhathoConfigView {
            db_configs: self.db_configs@,
            extractor: self.db_name_extractor_from_key@,
        }
    }
}

impl Clone for RegExMapping {
    fn clone(&self) -> (copy: RegExMapping)
        ensures
            copy == *self,
    {
        RegExMapping {
            extract_name_regex: self.extract_name_regex.clone(),
            new_db_name: self.new_db_name.clone(),
        }
    }
}

impl Clone for DbNameExtractor {
    fn clone(&self) -> (copy: DbNameExtractor)
        ensures
            copy@ == self@,
    {
        let regex_mappings = self.regex_mappings.clone();
        assert(regex_mappings@ =~= self.regex_mappings@);
        DbNameExtractor {
            enabled: self.enabled,
            override_nonempty: self.override_nonempty,
            regex_mappings,
        }
    }
}

impl Clone for BhathoConfig {
    fn clone(&self) -> (copy: BhathoConfig)
        ensures
            copy@ == self@,
    {
        let db_configs = self.db_configs.clone();
        assert(db_configs@ =~= self.db_configs@);
        BhathoConfig {
            db_configs,
            db_name_extractor_from_key: self.db_name_extractor_from_key.clone(),
        }
    }
}

impl Default for BhathoConfig {
    /// One database instance with its initial settings, and no rules.
    fn default() -> (config: BhathoConfig)
        ensures
            config@.db_configs.len() == 1,
            config@.db_configs[0].initial(),
            !config@.extractor.enabled,
            !config@.extractor.override_nonempty,
            config@.extractor.rules.len() == 0,
    {
        let mut db_configs = Vec::with_capacity(1);
        db_configs.push(DbManagerConfig::default());
        let db_name_extractor_from_key = DbNameExtractor {
            enabled: false,
            override_nonempty: false,
            regex_mappings: Vec::new(),
        };
        BhathoConfig { db_configs, db_name_extractor_from_key }
    }
}

/// The first rule, from index `from` on, whose pattern matches the text.
pub open spec fn first_hit(rules: Seq<Rule>, text: Seq<char>, from: int) -> Option<int>
    decreases rules.len() - from,
{
    if from < 0 || from >= rules.len() {
        None
    } else if regex_hit(rules[from].0, text) {
        Some(from)
    } else {
        first_hit(rules, text, from + 1)
    }
}

/// The first instance, from index `from` on, that has the wanted name.
pub open spec fn first_named(names: Seq<Seq<u8>>, wanted: Seq<u8>, from: int) -> Option<int>
    decreases names.len() - from,
{
    if from < 0 || from >= names.len() {
        None
    } else if names[from] == wanted {
        Some(from)
    } else {
        first_named(names, wanted, from + 1)
    }
}

/// The name a rule gives to the record, if the rules are consulted and one
/// of them matches the key. They are consulted when they are enabled and the
/// record names no database, or when they may override the name it carries.
pub open spec fn extracted_name(extractor: ExtractorView, record: KeyValView) -> Option<
    Seq<char>,
> {
    if extractor.enabled && (record.db_name.len() == 0 || extractor.override_nonempty) {
        match first_hit(extractor.rules, utf8_lossy(record.key), 0) {
            Some(i) => Some(extractor.rules[i].1),
            None => None,
        }
    } else {
        None
    }
}

/// The database name the record is routed by: the name a rule gives it, else
/// the name it carries.
pub open spec fn target_name(extractor: ExtractorView, record: KeyValView) -> Seq<u8> {
    match extracted_name(extractor, record) {
        Some(name) => encode_utf8(name),
        None => record.db_name,
    }
}

/// The instance a record is routed to: the first one that has the target
/// name, if the name is not empty and an instance has it; else the one at
/// the fingerprint modulo the number of instances.
pub open spec fn route(extractor: ExtractorView, names: Seq<Seq<u8>>, record: KeyValView) -> int {
    let wanted = target_name(extractor, record);
    let named = if wanted.len() > 0 {
        first_named(names, wanted, 0)
    } else {
        None
    };
    match named {
        Some(i) => i,
        None => (record.hash as int) % (names.len() as int),
    }
}

/// The instances a bulk operation reaches: all of them for an empty name,
/// else those that have the name; in index order.
pub open spec fn selected(names: Seq<Seq<u8>>, wanted: Seq<u8>) -> Seq<int>
    decreases names.len(),
{
    if names.len() == 0 {
        Seq::empty()
    } else {
        let rest = selected(names.drop_last(), wanted);
        if wanted.len() == 0 || names.last() == wanted {
            rest.push(names.len() - 1)
        } else {
            rest
        }
    }
}

/// The message of a router without database instances.
pub open spec fn no_database() -> Seq<char> {
    "no database instance is configured"@
}

/// The message of a router with a rule whose pattern does not compile.
pub open spec fn bad_pattern() -> Seq<char> {
    "a database name pattern does not compile"@
}

/// The message that a rule did not match.
pub open spec fn not_found() -> Seq<char> {
    "not_found"@
}

/// Whether every instance can be built from its settings.
pub open spec fn all_usable(db_configs: Seq<DbManagerConfig>) -> bool {
    forall|i: int| 0 <= i < db_configs.len() ==> (#[trigger] db_configs[i]).cache_config.usable()
}

/// Whether the rules compile, as far as they are used.
pub open spec fn rules_compile(extractor: ExtractorView) -> bool {
    extractor.enabled ==> forall|i: int|
        0 <= i < extractor.rules.len() ==> regex_valid((#[trigger] extractor.rules[i]).0)
}

/// Why settings are refused: for want of an instance, else for an instance
/// that cannot be built, else for a rule that does not compile.
pub open spec fn refusal(config: BhathoConfigView) -> Seq<char> {
    if config.db_configs.len() == 0 {
        no_database()
    } else if !all_usable(config.db_configs) {
        cache_unusable()
    } else {
        bad_pattern()
    }
}

/// Routing is determined by the settings and the record: two routers built
/// from the same settings send the same record to the same instance, which
/// is one of their instances.
pub proof fn lemma_routing_is_determined(one: Bhatho, other: Bhatho, record: KeyValView)
    requires
        one.wf(),
        other.wf(),
        one.settings() == other.settings(),
    ensures
        one.target(record) == other.target(record),
        0 <= one.target(record) < one.dbs().len(),
{
    lemma_route_in_range(one.settings().extractor, one.names(), record);
}

/// A record is routed to one of the instances.
pub proof fn lemma_route_in_range(extractor: ExtractorView, names: Seq<Seq<u8>>, record: KeyValView)
    requires
        names.len() > 0,
    ensures
        0 <= route(extractor, names, record) < names.len(),
{
    let wanted = target_name(extractor, record);
    lemma_first_named_in_range(names, wanted, 0);
}

/// The first instance with a name, if there is one, lies at or after the
/// index the search started from.
pub proof fn lemma_first_named_in_range(names: Seq<Seq<u8>>, wanted: Seq<u8>, from: int)
    requires
        0 <= from,
    ensures
        first_named(names, wanted, from) matches Some(i) ==> from <= i < names.len()
            && names[i] == wanted,
    decreases names.len() - from,
{
    if from < names.len() && names[from] != wanted {
        lemma_first_named_in_range(names, wanted, from + 1);
    }
}

/// The router.
pub struct Bhatho {
    dbs: Vec<DbManager>,
    config: BhathoConfig,
    regexs: Vec<(String, Regex)>,
}

impl Bhatho {
    /// The database instances, in the order of the settings.
    pub closed spec fn dbs(&self) -> Seq<DbManager> {
        self.dbs@
    }

    /// The settings the router was built from.
    pub closed spec fn settings(&self) -> BhathoConfigView {
        self.config@
    }

    /// The compiled rules are the rules of the settings, in order, if the
    /// rules are enabled; else there are none.
    pub closed spec fn compiled(&self) -> bool {
        &&& self.regexs@.len() == if self.config.db_name_extractor_from_key.enabled {
            self.config@.extractor.rules.len()
        } else {
            0
        }
        &&& forall|i: int|
            0 <= i < self.regexs@.len() ==> {
                &&& regex_pattern((#[trigger] self.regexs@[i]).1) == self.config@.extractor.rules[i].0
                &&& self.regexs@[i].0@ == self.config@.extractor.rules[i].1
            }
    }

    /// The names of the instances as bytes, in order.
    pub open spec fn names(&self) -> Seq<Seq<u8>> {
        Seq::new(
            self.settings().db_configs.len(),
            |i: int| encode_utf8(self.settings().db_configs[i].name@),
        )
    }

    /// There is at least one instance; every instance is well formed and
    /// built from its settings; the rules are compiled.
    pub open spec fn wf(&self) -> bool {
        &&& self.compiled()
        &&& self.dbs().len() > 0
        &&& self.dbs().len() == self.settings().db_configs.len()
        &&& forall|i: int|
            0 <= i < self.dbs().len() ==> {
                &&& (#[trigger] self.dbs()[i]).wf()
                &&& self.dbs()[i].settings() == self.settings().db_configs[i]
            }
    }

    /// The instance the record is routed to.
    pub open spec fn target(&self, record: KeyValView) -> int {
        route(self.settings().extractor, self.names(), record)
    }

    /// Every instance but the one at `shard` is as it was.
    pub open spec fn same_but(self, after: Bhatho, shard: int) -> bool {
        &&& after.settings() == self.settings()
        &&& after.dbs().len() == self.dbs().len()
        &&& forall|i: int|
            0 <= i < self.dbs().len() && i != shard ==> #[trigger] after.dbs()[i] == self.dbs()[i]
    }

    /// The name the first matching rule gives to the record, if the rules
    /// are consulted.
    fn extract_table_name_from_key(&self, kv: &KeyVal) -> (name: Result<String, String>)
        requires
            self.wf(),
        ensures
            match extracted_name(self.settings().extractor, kv@) {
                Some(n) => name matches Ok(s) && s@ == n,
                None => name matches Err(e) && e@ == not_found(),
            },
    {
        if self.config.db_name_extractor_from_key.enabled && (kv.db_name.len() == 0
            || self.config.db_name_extractor_from_key.override_nonempty) {
            let text = lossy_text(kv.key.as_slice());
            let ghost rules = self.config@.extractor.rules;
            let mut i: usize = 0;
            while i < self.regexs.len()
                invariant
                    i <= self.regexs@.len(),
                    self.compiled(),
                    self.config.db_name_extractor_from_key.enabled,
                    kv.db_name@.len() == 0
                        || self.config.db_name_extractor_from_key.override_nonempty,
                    rules == self.config@.extractor.rules,
                    text@ == utf8_lossy(kv.key@),
                    first_hit(rules, text@, i as int) == first_hit(rules, text@, 0),
                decreases self.regexs@.len() - i,
            {
                if regex_is_match(&self.regexs[i].1, text.as_str()) {
                    assert(regex_pattern(self.regexs@[i as int].1) == rules[i as int].0);
                    return Ok(self.regexs[i].0.clone());
                }
                i += 1;
            }
        }
        Err("not_found".to_owned())
    }

    /// The index of the instance the record is routed to.
    pub fn get_shard(&self, kv: &KeyVal) -> (shard: usize)
        requires
            self.wf(),
        ensures
            shard == self.target(kv@),
            shard < self.dbs().len(),
    {
        let mut db_name = kv.db_name.clone();
        if self.config.db_name_extractor_from_key.enabled {
            if let Ok(name) = self.extract_table_name_from_key(kv) {
                db_name = slice_to_vec(name.as_str().as_bytes());
            }
        }
        assert(db_name@ == target_name(self.settings().extractor, kv@));
        if db_name.len() > 0 {
            let mut i: usize = 0;
            while i < self.dbs.len()
                invariant
                    i <= self.dbs@.len(),
                    self.wf(),
                    db_name@.len() > 0,
                    db_name@ == target_name(self.settings().extractor, kv@),
                    first_named(self.names(), db_name@, i as int) == first_named(
                        self.names(),
                        db_name@,
                        0,
                    ),
                decreases self.dbs@.len() - i,
            {
                assert(self.dbs()[i as int].wf());
                assert(self.names()[i as int] == encode_utf8(self.dbs()[i as int].settings().name@));
                if same_bytes(self.dbs[i].name().as_str().as_bytes(), db_name.as_slice()) {
                    return i;
                }
                i += 1;
            }
        }
        (kv.hash % (self.dbs.len() as u64)) as usize
    }

    /// A router for the settings, every instance with an empty cache. The
    /// settings are refused where they hold no instance, where an instance
    /// cannot be built, or where a rule that is in use does not compile.
    pub fn new(config: &BhathoConfig) -> (made: Result<Bhatho, String>)
        ensures
            made is Ok <==> config@.db_configs.len() > 0 && all_usable(config@.db_configs)
                && rules_compile(config@.extractor),
            made matches Ok(router) ==> router.wf() && router.settings() == config@,
            made matches Err(e) ==> e@ == refusal(config@),
    {
        if config.db_configs.len() == 0 {
            return Err("no database instance is configured".to_owned());
        }
        let mut dbs: Vec<DbManager> = Vec::with_capacity(config.db_configs.len());
        let mut i: usize = 0;
        while i < config.db_configs.len()
            invariant
                i <= config.db_configs@.len(),
                dbs@.len() == i,
                forall|j: int|
                    0 <= j < i ==> {
                        &&& (#[trigger] dbs@[j]).wf()
                        &&& dbs@[j].settings() == config.db_configs@[j]
                        &&& config.db_configs@[j].cache_config.usable()
                    },
            decreases config.db_configs@.len() - i,
        {
            match DbManager::new(&config.db_configs[i]) {
                Ok(db_mgr) => {
                    dbs.push(db_mgr);
                },
                Err(e) => {
                    return Err(e);
                },
            }
            i += 1;
        }
        proof {
            assert forall|j: int| 0 <= j < config@.db_configs.len() implies (
            #[trigger] config@.db_configs[j]).cache_config.usable() by {
                assert(dbs@[j].wf());
            }
        }
        let mut regexs: Vec<(String, Regex)> = Vec::new();
        if config.db_name_extractor_from_key.enabled {
            let mut k: usize = 0;
            while k < config.db_name_extractor_from_key.regex_mappings.len()
                invariant
                    k <= config.db_name_extractor_from_key.regex_mappings@.len(),
                    config.db_name_extractor_from_key.enabled,
                    config@.db_configs.len() > 0,
                    all_usable(config@.db_configs),
                    regexs@.len() == k,
                    forall|j: int|
                        0 <= j < k ==> {
                            &&& regex_pattern((#[trigger] regexs@[j]).1)
                                == config@.extractor.rules[j].0
                            &&& regexs@[j].0@ == config@.extractor.rules[j].1
                            &&& regex_valid(config@.extractor.rules[j].0)
                        },
                decreases config.db_name_extractor_from_key.regex_mappings@.len() - k,
            {
                let mapping = &config.db_name_extractor_from_key.regex_mappings[k];
                match regex_new(mapping.extract_name_regex.as_str()) {
                    Ok(re) => {
                        regexs.push((mapping.new_db_name.clone(), re));
                    },
                    Err(_) => {
                        assert(!regex_valid(config@.extractor.rules[k as int].0));
                        return Err("a database name pattern does not compile".to_owned());
                    },
                }
                k += 1;
            }
        }
        proof {
            if config@.extractor.enabled {
                assert forall|j: int| 0 <= j < config@.extractor.rules.len() implies regex_valid(
                    (#[trigger] config@.extractor.rules[j]).0,
                ) by {
                    assert(regexs@[j].0@ == config@.extractor.rules[j].1);
                }
            }
        }
        Ok(Bhatho { dbs, config: config.clone(), regexs })
    }

    /// The number of instances.
    pub fn len(&self) -> (len: usize)
        ensures
            len == self.dbs().len(),
    {
        self.dbs.len()
    }

    /// The instance at the index.
    pub fn db(&self, shard: usize) -> (db: &DbManager)
        requires
            shard < self.dbs().len(),
        ensures
            *db == self.dbs()[shard as int],
    {
        &self.dbs[shard]
    }

    /// Reads the record's key in the instance the record is routed to.
    pub fn get(&mut self, kv: &KeyVal) -> (step: ReadStep)
        requires
            old(self).wf(),
        ensures
            final(self).wf(),
            old(self).same_but(*final(self), old(self).target(kv@)),
            old(self).dbs()[old(self).target(kv@)].reads(
                final(self).dbs()[old(self).target(kv@)],
                kv.hash,
                kv.key@,
                step,
            ),
    {
        let shard = self.get_shard(kv);
        self.dbs[shard].get_key_val(kv)
    }

    /// Completes a read with the answer of the store of the instance the
    /// record is routed to.
    pub fn complete_get(&mut self, kv: &KeyVal, fetched: Result<Option<Vec<u8>>, String>) -> (reply:
        Result<Option<(Vec<u8>, bool)>, String>)
        requires
            old(self).wf(),
        ensures
            final(self).wf(),
            old(self).same_but(*final(self), old(self).target(kv@)),
            old(self).dbs()[old(self).target(kv@)].completes_read(
                final(self).dbs()[old(self).target(kv@)],
                kv.hash,
                kv.key@,
                fetched,
                reply,
            ),
    {
        let shard = self.get_shard(kv);
        self.dbs[shard].complete_get_key_val(kv, fetched)
    }

    /// Starts a write of the record in the instance the record is routed to.
    pub fn put(&mut self, kv: &KeyVal) -> (plan: StoreWrite)
        requires
            old(self).wf(),
        ensures
            final(self).wf(),
            old(self).same_but(*final(self), old(self).target(kv@)),
            old(self).dbs()[old(self).target(kv@)].writes(
                final(self).dbs()[old(self).target(kv@)],
                kv.hash,
                kv.key@,
                kv.val@,
                kv@,
                plan,
            ),
    {
        let shard = self.get_shard(kv);
        self.dbs[shard].put_key_val(kv)
    }

    /// Completes a write with the answer of the store, or of the queue, of
    /// the instance the record is routed to.
    pub fn complete_put(&mut self, kv: &KeyVal, stored: Result<(), String>) -> (done: Result<
        (),
        String,
    >)
        requires
            old(self).wf(),
        ensures
            final(self).wf(),
            old(self).same_but(*final(self), old(self).target(kv@)),
            old(self).dbs()[old(self).target(kv@)].completes_write(
                final(self).dbs()[old(self).target(kv@)],
                kv.hash,
                kv.key@,
                kv.val@,
                stored,
                done,
            ),
    {
        let shard = self.get_shard(kv);
        self.dbs[shard].complete_put_key_val(kv, stored)
    }

    /// Removes the record's key from the cache of the instance the record is
    /// routed to, and says how its store is to follow.
    pub fn delete(&mut self, kv: &KeyVal) -> (plan: StoreDelete)
        requires
            old(self).wf(),
        ensures
            final(self).wf(),
            old(self).same_but(*final(self), old(self).target(kv@)),
            old(self).dbs()[old(self).target(kv@)].deletes(
                final(self).dbs()[old(self).target(kv@)],
                kv.key@,
                plan,
            ),
    {
        let shard = self.get_shard(kv);
        self.dbs[shard].delete_key_val(kv)
    }

    /// The instances whose cache keys are to be exported: all of them for an
    /// empty name, else those that have the name; in index order. Each export
    /// is slow and is meant to run on a thread of its own.
    pub fn export_lru_keys(&self, db_name: &[u8]) -> (targets: Vec<usize>)
        requires
            self.wf(),
        ensures
            targets@.len() == selected(self.names(), db_name@).len(),
            forall|i: int|
                0 <= i < targets@.len() ==> #[trigger] targets@[i] == selected(
                    self.names(),
                    db_name@,
                )[i],
            forall|i: int| 0 <= i < targets@.len() ==> #[trigger] targets@[i] < self.dbs().len(),
    {
        self.select(db_name)
    }

    /// The instances whose stores are to be backed up: all of them for an
    /// empty name, else those that have the name; in index order. Each backup
    /// is slow and is meant to run on a thread of its own.
    pub fn backup_db(&self, db_name: &[u8]) -> (targets: Vec<usize>)
        requires
            self.wf(),
        ensures
            targets@.len() == selected(self.names(), db_name@).len(),
            forall|i: int|
                0 <= i < targets@.len() ==> #[trigger] targets@[i] == selected(
                    self.names(),
                    db_name@,
                )[i],
            forall|i: int| 0 <= i < targets@.len() ==> #[trigger] targets@[i] < self.dbs().len(),
    {
        self.select(db_name)
    }

    /// The instances a bulk operation reaches.
    fn select(&self, db_name: &[u8]) -> (targets: Vec<usize>)
        requires
            self.wf(),
        ensures
            targets@.len() == selected(self.names(), db_name@).len(),
            forall|i: int|
                0 <= i < targets@.len() ==> #[trigger] targets@[i] == selected(
                    self.names(),
                    db_name@,
                )[i],
            forall|i: int| 0 <= i < targets@.len() ==> #[trigger] targets@[i] < self.dbs().len(),
    {
        let mut targets: Vec<usize> = Vec::new();
        let mut i: usize = 0;
        while i < self.dbs.len()
            invariant
                i <= self.dbs@.len(),
                self.wf(),
                targets@.len() == selected(self.names().take(i as int), db_name@).len(),
                forall|j: int|
                    0 <= j < targets@.len() ==> #[trigger] targets@[j] == selected(
                        self.names().take(i as int),
                        db_name@,
                    )[j],
                forall|j: int| 0 <= j < targets@.len() ==> #[trigger] targets@[j] < i,
            decreases self.dbs@.len() - i,
        {
            let hit = db_name.len() == 0 || same_bytes(
                self.dbs[i].name().as_str().as_bytes(),
                db_name,
            );
            proof {
                let next = self.names().take(i + 1);
                assert(next.drop_last() == self.names().take(i as int));
                assert(next.last() == self.names()[i as int]);
            }
            if hit {
                targets.push(i);
            }
            i += 1;
        }
        assert(self.names().take(i as int) == self.names());
        targets
    }
}

} // verus!
