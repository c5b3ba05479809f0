//! The compilation cache: results of running code, keyed by a digest of the
//! code and how it is run.
//!
//! Entries for the unmodified examples never expire and are the ones written
//! to disk; entries for modified code expire after a time to live and are
//! never written to disk. Times are milliseconds; counters wrap around at
//! `u64::MAX`.
use crate::clock::unix_millis;
use crate::digest::{hex_lower, sha256, sha256_hex};
use dashmap::DashMap;
use vstd::prelude::*;
use vstd::utf8::encode_utf8;

verus! {

/// A cached result as it is written to disk.
pub struct DiskEntry {
    pub response_body: String,
    pub example_id: String,
}

/// A cached result in memory.
#[derive(Clone)]
pub struct MemoryEntry {
    pub response_body: String,
    pub inserted_at: u64,
    pub example_id: String,
    /// Results for the unmodified examples never expire.
    pub is_default: bool,
}

/// A cached result as plain values.
pub struct EntryView {
    pub response_body: Seq<char>,
    pub inserted_at: u64,
    pub example_id: Seq<char>,
    pub is_default: bool,
}

impl View for MemoryEntry {
    type V = EntryView;

    open spec fn view(&self) -> EntryView {
        EntryView {
            response_body: self.response_body@,
            inserted_at: self.inserted_at,
            example_id: self.example_id@,
            is_default: self.is_default,
        }
    }
}

/// The cached results, keyed by digest.
pub type EntryMap = DashMap<String, MemoryEntry>;

/// What the entry map holds.
pub uninterp spec fn cache_contents(m: EntryMap) -> Map<Seq<char>, EntryView>;

/// No cached results.
pub open spec fn no_entries() -> Map<Seq<char>, EntryView> {
    Map::empty()
}

/// `DashMap::new`: an empty map.
#[verifier::external_body]
fn entries_new() -> (r: EntryMap)
    ensures
        cache_contents(r) == no_entries(),
        cache_contents(r).dom().finite(),
{
    DashMap::new()
}

/// `DashMap::get`, with the entry cloned out: the entry for `key`, if any.
#[verifier::external_body]
fn entries_get(m: &EntryMap, key: &str) -> (r: Option<MemoryEntry>)
    ensures
        match r {
            Some(e) => cache_contents(*m).contains_key(key@) && e@ == cache_contents(*m)[key@],
            None => !cache_contents(*m).contains_key(key@),
        },
{
    m.get(key).map(|entry| entry.value().clone())
}

/// `DashMap::insert`: `key` now maps to `value`, other keys unchanged.
#[verifier::external_body]
fn entries_insert(m: &mut EntryMap, key: String, value: MemoryEntry)
    ensures
        cache_contents(*final(m)) == cache_contents(*old(m)).insert(key@, value@),
        cache_contents(*final(m)).dom().finite(),
    no_unwind
{
    m.insert(key, value);
}

/// `DashMap::remove`: `key` no longer maps to anything, other keys
/// unchanged.
#[verifier::external_body]
fn entries_remove(m: &mut EntryMap, key: &str)
    ensures
        cache_contents(*final(m)) == cache_contents(*old(m)).remove(key@),
        cache_contents(*final(m)).dom().finite(),
    no_unwind
{
    m.remove(key);
}

/// `DashMap::len`: the number of keys.
#[verifier::external_body]
fn entries_len(m: &EntryMap) -> (r: usize)
    ensures
        r == cache_contents(*m).len(),
{
    m.len()
}

/// `DashMap::retain` with a closure that calls `entry_is_live`: the entries
/// that are no longer live at `now` are removed, the others kept unchanged.
#[verifier::external_body]
fn entries_retain_live(m: &mut EntryMap, now: u64, ttl_ms: u64)
    ensures
        cache_contents(*final(m)) == live_entries(cache_contents(*old(m)), now, ttl_ms),
        cache_contents(*final(m)).dom().finite(),
    no_unwind
{
    m.retain(|_key, entry| entry_is_live(entry, now, ttl_ms));
}

/// `DashMap::iter`, with each key and entry cloned out: every entry of the
/// map exactly once, in no stated order.
#[verifier::external_body]
fn entries_snapshot(m: &EntryMap) -> (r: Vec<(String, MemoryEntry)>)
    ensures
        is_listing(r@, cache_contents(*m)),
{
    m.iter().map(|entry| (entry.key().clone(), entry.value().clone())).collect()
}

/// `l` lists the entries of `c`, each exactly once.
pub open spec fn is_listing(l: Seq<(String, MemoryEntry)>, c: Map<Seq<char>, EntryView>) -> bool {
    &&& forall|i: int|
        0 <= i < l.len() ==> c.contains_key(#[trigger] l[i].0@) && c[l[i].0@] == l[i].1@
    &&& forall|i: int, j: int| 0 <= i < j < l.len() ==> #[trigger] l[i].0@ != #[trigger] l[j].0@
    &&& forall|k: Seq<char>| #[trigger]
        c.contains_key(k) ==> exists|i: int| 0 <= i < l.len() && #[trigger] l[i].0@ == k
}

/// Milliseconds from `from` to `now`; 0 when `now` is earlier.
pub open spec fn elapsed_ms(from: u64, now: u64) -> int {
    if now >= from {
        now - from
    } else {
        0
    }
}

/// An entry still serves at `now`: it is for an unmodified example, or it
/// is younger than the time to live.
pub open spec fn is_live(e: EntryView, now: u64, ttl_ms: u64) -> bool {
    e.is_default || elapsed_ms(e.inserted_at, now) < ttl_ms
}

/// The entries of `c` that are live at `now`.
pub open spec fn live_entries(c: Map<Seq<char>, EntryView>, now: u64, ttl_ms: u64) -> Map<
    Seq<char>,
    EntryView,
> {
    Map::new(|k: Seq<char>| c.contains_key(k) && is_live(c[k], now, ttl_ms), |k: Seq<char>| c[k])
}

/// Whether `entry` is live at `now`.
pub fn entry_is_live(entry: &MemoryEntry, now: u64, ttl_ms: u64) -> (r: bool)
    ensures
        r == is_live(entry@, now, ttl_ms),
{
    let elapsed = if now >= entry.inserted_at {
        now - entry.inserted_at
    } else {
        0
    };
    entry.is_default || elapsed < ttl_ms
}

/// The bytes that a cache key digests.
pub open spec fn key_material(code: Seq<char>, mode: Seq<char>, edition: Seq<char>) -> Seq<u8> {
    encode_utf8(code) + seq![124u8] + encode_utf8(mode) + seq![124u8] + encode_utf8(edition)
}

/// The cache key of running `code` in `mode` with `edition`.
pub open spec fn key_of(code: Seq<char>, mode: Seq<char>, edition: Seq<char>) -> Seq<char> {
    hex_lower(sha256(key_material(code, mode, edition)))
}

/// The result held for `key`, live or expired.
pub open spec fn held(c: Map<Seq<char>, EntryView>, key: Seq<char>) -> Option<Seq<char>> {
    if c.contains_key(key) {
        Some(c[key].response_body)
    } else {
        None
    }
}

/// The result that a lookup of `key` at `now` serves.
pub open spec fn served(c: Map<Seq<char>, EntryView>, key: Seq<char>, now: u64, ttl_ms: u64) -> Option<
    Seq<char>,
> {
    if c.contains_key(key) && is_live(c[key], now, ttl_ms) {
        Some(c[key].response_body)
    } else {
        None
    }
}

/// The entry for a result `body` of example `id`, inserted at `at`.
pub open spec fn new_entry(body: Seq<char>, at: u64, id: Seq<char>, is_default: bool) -> EntryView {
    EntryView { response_body: body, inserted_at: at, example_id: id, is_default }
}

/// The entries after loading `entries` from disk at `now`, in order.
pub open spec fn loaded(c: Map<Seq<char>, EntryView>, entries: Seq<(String, DiskEntry)>, now: u64) -> Map<
    Seq<char>,
    EntryView,
>
    decreases entries.len(),
{
    if entries.len() == 0 {
        c
    } else {
        let last = entries.last();
        loaded(c, entries.drop_last(), now).insert(
            last.0@,
            EntryView {
                response_body: last.1.response_body@,
                inserted_at: now,
                example_id: last.1.example_id@,
                is_default: true,
            },
        )
    }
}

/// The keys of `c` whose entries are for unmodified examples.
pub open spec fn default_keys(c: Map<Seq<char>, EntryView>) -> Set<Seq<char>> {
    c.dom().filter(|k: Seq<char>| c[k].is_default)
}

/// `l` lists, each exactly once, the entries of `c` for unmodified
/// examples, as they are written to disk.
pub open spec fn is_disk_listing(l: Seq<(String, DiskEntry)>, c: Map<Seq<char>, EntryView>) -> bool {
    &&& forall|i: int|
        0 <= i < l.len() ==> {
            &&& c.contains_key(#[trigger] l[i].0@)
            &&& c[l[i].0@].is_default
            &&& c[l[i].0@].response_body == l[i].1.response_body@
            &&& c[l[i].0@].example_id == l[i].1.example_id@
        }
    &&& forall|i: int, j: int| 0 <= i < j < l.len() ==> #[trigger] l[i].0@ != #[trigger] l[j].0@
    &&& forall|k: Seq<char>| #[trigger]
        default_keys(c).contains(k) ==> exists|i: int| 0 <= i < l.len() && #[trigger] l[i].0@ == k
}

/// A counter one step further, wrapping around at `u64::MAX`.
pub open spec fn wrap_inc(x: u64) -> u64 {
    if x == u64::MAX {
        0
    } else {
        (x + 1) as u64
    }
}

fn bump(x: u64) -> (r: u64)
    ensures
        r == wrap_inc(x),
{
    if x == u64::MAX {
        0
    } else {
        x + 1
    }
}

/// The deterministic cache key of running `code` in `mode` with `edition`:
/// the lowercase hexadecimal SHA-256 digest of the three joined by `|`.
pub fn cache_key(code: &str, mode: &str, edition: &str) -> (r: String)
    ensures
        r@ == key_of(code@, mode@, edition@),
{
    let mut material: Vec<u8> = Vec::new();
    material.extend_from_slice(code.as_bytes());
    material.push(124u8);
    material.extend_from_slice(mode.as_bytes());
    material.push(124u8);
    material.extend_from_slice(edition.as_bytes());
    assert(material@ =~= key_material(code@, mode@, edition@));
    sha256_hex(material.as_slice())
}

/// The compilation cache.
pub struct CompilationCache {
    memory: EntryMap,
    modified_ttl_ms: u64,
    disk_path: String,
    hits: u64,
    misses: u64,
    disk_loads: u64,
}

/// Figures about the cache for the health endpoint. The hit rate, a
/// rounded float share, is derived from `hits` and `misses` where the
/// figures are reported.
pub struct CacheStats {
    pub total_entries: usize,
    pub default_entries: usize,
    pub modified_entries: usize,
    pub hits: u64,
    pub misses: u64,
    pub disk_loads: u64,
}

impl CompilationCache {
    /// The cache holds finitely many entries.
    #[verifier::type_invariant]
    spec fn finitely_many(self) -> bool {
        cache_contents(self.memory).dom().finite()
    }

    /// The cached results.
    pub closed spec fn contents(&self) -> Map<Seq<char>, EntryView> {
        cache_contents(self.memory)
    }

    /// How long results for modified code are served.
    pub closed spec fn ttl_ms(&self) -> u64 {
        self.modified_ttl_ms
    }

    /// Where the results for the unmodified examples are kept on disk.
    pub closed spec fn disk_path(&self) -> Seq<char> {
        self.disk_path@
    }

    /// Lookups that served a result.
    pub closed spec fn hits(&self) -> u64 {
        self.hits
    }

    /// Lookups that served nothing.
    pub closed spec fn misses(&self) -> u64 {
        self.misses
    }

    /// Entries loaded from disk.
    pub closed spec fn disk_loads(&self) -> u64 {
        self.disk_loads
    }

    /// An empty cache whose results for modified code live `modified_ttl_ms`
    /// milliseconds and whose example results belong at `disk_path`.
    pub fn new(modified_ttl_ms: u64, disk_path: &str) -> (r: CompilationCache)
        ensures
            r.contents() == no_entries(),
            r.contents().dom().finite(),
            r.ttl_ms() == modified_ttl_ms,
            r.disk_path() == disk_path@,
            r.hits() == 0,
            r.misses() == 0,
            r.disk_loads() == 0,
    {
        CompilationCache {
            memory: entries_new(),
            modified_ttl_ms,
            disk_path: disk_path.to_owned(),
            hits: 0,
            misses: 0,
            disk_loads: 0,
        }
    }

    /// The path of the file that holds the example results.
    pub fn disk_path_str(&self) -> (r: &str)
        ensures
            r@ == self.disk_path(),
    {
        self.disk_path.as_str()
    }

    /// The result cached for running `code` in `mode` with `edition`, when
    /// it is live at `now`. An entry found expired is removed.
    pub fn get_at(&mut self, code: &str, mode: &str, edition: &str, now: u64) -> (r: Option<String>)
        ensures
            match r {
                Some(s) => served(old(self).contents(), key_of(code@, mode@, edition@), now, old(self).ttl_ms())
                    == Some(s@),
                None => served(old(self).contents(), key_of(code@, mode@, edition@), now, old(self).ttl_ms())
                    is None,
            },
            r is Some ==> final(self).contents() == old(self).contents(),
            r is None ==> final(self).contents() == old(self).contents().remove(
                key_of(code@, mode@, edition@),
            ),
            final(self).hits() == (if r is Some {
                wrap_inc(old(self).hits())
            } else {
                old(self).hits()
            }),
            final(self).misses() == (if r is Some {
                old(self).misses()
            } else {
                wrap_inc(old(self).misses())
            }),
            final(self).ttl_ms() == old(self).ttl_ms(),
            final(self).disk_path() == old(self).disk_path(),
            final(self).disk_loads() == old(self).disk_loads(),
            old(self).contents().dom().finite(),
            final(self).contents().dom().finite(),
    {
        proof {
            use_type_invariant(&*self);
        }
        let key = cache_key(code, mode, edition);
        if let Some(entry) = entries_get(&self.memory, key.as_str()) {
            if entry_is_live(&entry, now, self.modified_ttl_ms) {
                self.hits = bump(self.hits);
                return Some(entry.response_body);
            }
            entries_remove(&mut self.memory, key.as_str());
        } else {
            assert(self.contents().remove(key@) =~= self.contents());
        }
        self.misses = bump(self.misses);
        None
    }

    /// The result cached for running `code` in `mode` with `edition`, when
    /// it is live now, by the system clock.
    pub fn get(&mut self, code: &str, mode: &str, edition: &str) -> (r: Option<String>)
        ensures
            exists|now: u64|
                #![trigger served(old(self).contents(), key_of(code@, mode@, edition@), now, old(self).ttl_ms())]
                match r {
                    Some(s) => served(old(self).contents(), key_of(code@, mode@, edition@), now, old(self).ttl_ms())
                        == Some(s@),
                    None => served(old(self).contents(), key_of(code@, mode@, edition@), now, old(self).ttl_ms())
                        is None,
                },
            r is Some ==> final(self).contents() == old(self).contents(),
            r is None ==> final(self).contents() == old(self).contents().remove(
                key_of(code@, mode@, edition@),
            ),
            final(self).hits() == (if r is Some {
                wrap_inc(old(self).hits())
            } else {
                old(self).hits()
            }),
            final(self).misses() == (if r is Some {
                old(self).misses()
            } else {
                wrap_inc(old(self).misses())
            }),
            final(self).ttl_ms() == old(self).ttl_ms(),
            final(self).disk_path() == old(self).disk_path(),
            final(self).disk_loads() == old(self).disk_loads(),
            old(self).contents().dom().finite(),
            final(self).contents().dom().finite(),
    {
        let now = unix_millis();
        self.get_at(code, mode, edition, now)
    }

    /// The result held for running `code` in `mode` with `edition`, expired
    /// or not, for serving as stale while the upstream is unavailable. The
    /// cache and its counts are left as they are.
    pub fn get_stale(&self, code: &str, mode: &str, edition: &str) -> (r: Option<String>)
        ensures
            match r {
                Some(s) => held(self.contents(), key_of(code@, mode@, edition@)) == Some(s@),
                None => held(self.contents(), key_of(code@, mode@, edition@)) is None,
            },
    {
        let key = cache_key(code, mode, edition);
        match entries_get(&self.memory, key.as_str()) {
            Some(entry) => Some(entry.response_body),
            None => None,
        }
    }

    /// The entries for the unmodified examples, as they are written to disk.
    pub fn default_entries_for_disk(&self) -> (r: Vec<(String, DiskEntry)>)
        ensures
            is_disk_listing(r@, self.contents()),
    {
        let all = entries_snapshot(&self.memory);
        let ghost c = self.contents();
        let mut out: Vec<(String, DiskEntry)> = Vec::new();
        let mut i: usize = 0;
        while i < all.len()
            invariant
                c == self.contents(),
                is_listing(all@, c),
                i <= all@.len(),
                forall|a: int|
                    0 <= a < out@.len() ==> exists|b: int|
                        0 <= b < i && #[trigger] out@[a].0@ == #[trigger] all@[b].0@,
                forall|a: int|
                    0 <= a < out@.len() ==> {
                        &&& c.contains_key(#[trigger] out@[a].0@)
                        &&& c[out@[a].0@].is_default
                        &&& c[out@[a].0@].response_body == out@[a].1.response_body@
                        &&& c[out@[a].0@].example_id == out@[a].1.example_id@
                    },
                forall|a: int, b: int|
                    0 <= a < b < out@.len() ==> #[trigger] out@[a].0@ != #[trigger] out@[b].0@,
                forall|b: int|
                    0 <= b < i && c[#[trigger] all@[b].0@].is_default ==> exists|a: int|
                        0 <= a < out@.len() && #[trigger] out@[a].0@ == all@[b].0@,
            decreases all@.len() - i,
        {
            let (key, entry) = (&all[i].0, &all[i].1);
            assert(c.contains_key(all@[i as int].0@));
            if entry.is_default {
                let ghost prev = out@;
                let d = DiskEntry {
                    response_body: entry.response_body.clone(),
                    example_id: entry.example_id.clone(),
                };
                out.push((key.clone(), d));
                assert(out@[out@.len() - 1].0@ == all@[i as int].0@);
                assert forall|a: int, b: int|
                    0 <= a < b < out@.len() implies #[trigger] out@[a].0@ != #[trigger] out@[b].0@ by {
                    if b == out@.len() - 1 {
                        let bb = choose|bb: int| 0 <= bb < i && prev[a].0@ == all@[bb].0@;
                        assert(out@[a] == prev[a]);
                    } else {
                        assert(out@[a] == prev[a] && out@[b] == prev[b]);
                    }
                }
                assert forall|a: int|
                    0 <= a < out@.len() implies exists|b: int|
                        0 <= b < i + 1 && #[trigger] out@[a].0@ == #[trigger] all@[b].0@ by {
                    if a < out@.len() - 1 {
                        assert(out@[a] == prev[a]);
                        let bb = choose|bb: int| 0 <= bb < i && prev[a].0@ == all@[bb].0@;
                        assert(out@[a].0@ == all@[bb].0@);
                    } else {
                        assert(out@[a].0@ == all@[i as int].0@);
                    }
                }
                assert forall|b: int|
                    0 <= b < i + 1 && c[#[trigger] all@[b].0@].is_default implies exists|a: int|
                        0 <= a < out@.len() && #[trigger] out@[a].0@ == all@[b].0@ by {
                    if b < i {
                        let aa = choose|aa: int| 0 <= aa < prev.len() && prev[aa].0@ == all@[b].0@;
                        assert(out@[aa] == prev[aa]);
                    } else {
                        assert(out@[out@.len() - 1].0@ == all@[b].0@);
                    }
                }
            }
            i = i + 1;
        }
        assert forall|k: Seq<char>| #[trigger] default_keys(c).contains(k) implies exists|a: int|
            0 <= a < out@.len() && #[trigger] out@[a].0@ == k by {
            assert(c.contains_key(k));
            let b = choose|b: int| 0 <= b < all@.len() && all@[b].0@ == k;
            assert(c[all@[b].0@].is_default);
        }
        out
    }

    /// Stores the result of running `code` in `mode` with `edition`,
    /// inserted at `now`. For an unmodified example it returns what must then
    /// be written to disk: every example entry, the new one included.
    /// Results for modified code are never written to disk.
    pub fn insert_at(
        &mut self,
        code: &str,
        mode: &str,
        edition: &str,
        response: String,
        example_id: &str,
        is_default: bool,
        now: u64,
    ) -> (r: Option<Vec<(String, DiskEntry)>>)
        ensures
            final(self).contents() == old(self).contents().insert(
                key_of(code@, mode@, edition@),
                new_entry(response@, now, example_id@, is_default),
            ),
            r is Some <==> is_default,
            r matches Some(l) ==> is_disk_listing(l@, final(self).contents()),
            final(self).ttl_ms() == old(self).ttl_ms(),
            final(self).disk_path() == old(self).disk_path(),
            final(self).hits() == old(self).hits(),
            final(self).misses() == old(self).misses(),
            final(self).disk_loads() == old(self).disk_loads(),
            final(self).contents().dom().finite(),
    {
        let key = cache_key(code, mode, edition);
        let entry = MemoryEntry {
            response_body: response,
            inserted_at: now,
            example_id: example_id.to_owned(),
            is_default,
        };
        entries_insert(&mut self.memory, key, entry);
        if is_default {
            Some(self.default_entries_for_disk())
        } else {
            None
        }
    }

    /// Stores a result inserted now, by the system clock; see `insert_at`.
    pub fn insert(
        &mut self,
        code: &str,
        mode: &str,
        edition: &str,
        response: String,
        example_id: &str,
        is_default: bool,
    ) -> (r: Option<Vec<(String, DiskEntry)>>)
        ensures
            exists|now: u64|
                final(self).contents() == old(self).contents().insert(
                    key_of(code@, mode@, edition@),
                    #[trigger] new_entry(response@, now, example_id@, is_default),
                ),
            r is Some <==> is_default,
            r matches Some(l) ==> is_disk_listing(l@, final(self).contents()),
            final(self).ttl_ms() == old(self).ttl_ms(),
            final(self).disk_path() == old(self).disk_path(),
            final(self).contents().dom().finite(),
    {
        let now = unix_millis();
        self.insert_at(code, mode, edition, response, example_id, is_default, now)
    }

    /// Loads entries read back from disk at `now`, each as an unmodified
    /// example's result, later entries replacing earlier ones of the same key.
    pub fn load_entries_at(&mut self, entries: Vec<(String, DiskEntry)>, now: u64)
        ensures
            final(self).contents() == loaded(old(self).contents(), entries@, now),
            final(self).disk_loads() == wrap_add(old(self).disk_loads(), entries@.len() as u64),
            final(self).ttl_ms() == old(self).ttl_ms(),
            final(self).disk_path() == old(self).disk_path(),
            final(self).hits() == old(self).hits(),
            final(self).misses() == old(self).misses(),
            final(self).contents().dom().finite(),
    {
        proof {
            use_type_invariant(&*self);
        }
        let ghost c0 = self.contents();
        let mut i: usize = 0;
        while i < entries.len()
            invariant
                i <= entries@.len(),
                self.contents() == loaded(c0, entries@.take(i as int), now),
                self.contents().dom().finite(),
                self.ttl_ms() == old(self).ttl_ms(),
                self.disk_path() == old(self).disk_path(),
                self.hits() == old(self).hits(),
                self.misses() == old(self).misses(),
                self.disk_loads() == old(self).disk_loads(),
            decreases entries@.len() - i,
        {
            assert(entries@.take(i + 1).drop_last() =~= entries@.take(i as int));
            assert(entries@.take(i + 1).last() == entries@[i as int]);
            let entry = MemoryEntry {
                response_body: entries[i].1.response_body.clone(),
                inserted_at: now,
                example_id: entries[i].1.example_id.clone(),
                is_default: true,
            };
            entries_insert(&mut self.memory, entries[i].0.clone(), entry);
            i = i + 1;
        }
        assert(entries@.take(entries@.len() as int) =~= entries@);
        self.disk_loads = add_wrapping(self.disk_loads, entries.len() as u64);
    }

    /// Loads entries read back from disk now, by the system clock.
    pub fn load_entries(&mut self, entries: Vec<(String, DiskEntry)>)
        ensures
            exists|now: u64| final(self).contents() == loaded(old(self).contents(), entries@, now),
            final(self).disk_loads() == wrap_add(old(self).disk_loads(), entries@.len() as u64),
            final(self).ttl_ms() == old(self).ttl_ms(),
            final(self).disk_path() == old(self).disk_path(),
            final(self).contents().dom().finite(),
    {
        let now = unix_millis();
        self.load_entries_at(entries, now);
    }

    /// Removes the results of modified code that have expired at `now`.
    pub fn evict_expired_at(&mut self, now: u64)
        ensures
            final(self).contents() == live_entries(old(self).contents(), now, old(self).ttl_ms()),
            final(self).ttl_ms() == old(self).ttl_ms(),
            final(self).disk_path() == old(self).disk_path(),
            final(self).hits() == old(self).hits(),
            final(self).misses() == old(self).misses(),
            final(self).disk_loads() == old(self).disk_loads(),
            final(self).contents().dom().finite(),
    {
        entries_retain_live(&mut self.memory, now, self.modified_ttl_ms);
    }

    /// Removes the expired results of modified code, by the system clock.
    pub fn evict_expired(&mut self)
        ensures
            exists|now: u64|
                final(self).contents() == live_entries(old(self).contents(), now, old(self).ttl_ms()),
            final(self).ttl_ms() == old(self).ttl_ms(),
            final(self).disk_path() == old(self).disk_path(),
            final(self).contents().dom().finite(),
    {
        let now = unix_millis();
        self.evict_expired_at(now);
    }

    /// Figures for the health endpoint.
    pub fn stats(&self) -> (r: CacheStats)
        ensures
            r.total_entries == self.contents().len(),
            r.default_entries == default_keys(self.contents()).len(),
            r.modified_entries == r.total_entries - r.default_entries,
            r.hits == self.hits(),
            r.misses == self.misses(),
            r.disk_loads == self.disk_loads(),
            self.contents().dom().finite(),
    {
        proof {
            use_type_invariant(self);
        }
        let total = entries_len(&self.memory);
        let all = entries_snapshot(&self.memory);
        let ghost c = self.contents();
        let ghost keys = all@.map_values(|e: (String, MemoryEntry)| e.0@);
        let mut defaults: usize = 0;
        let ghost mut dk: Seq<Seq<char>> = Seq::empty();
        let mut i: usize = 0;
        while i < all.len()
            invariant
                c == self.contents(),
                is_listing(all@, c),
                keys == all@.map_values(|e: (String, MemoryEntry)| e.0@),
                i <= all@.len(),
                defaults == dk.len(),
                defaults <= i,
                dk.no_duplicates(),
                forall|a: int| 0 <= a < dk.len() ==> default_keys(c).contains(#[trigger] dk[a]),
                forall|a: int|
                    0 <= a < dk.len() ==> exists|b: int| 0 <= b < i && #[trigger] dk[a] == keys[b],
                forall|b: int|
                    0 <= b < i && c[#[trigger] keys[b]].is_default ==> dk.contains(keys[b]),
            decreases all@.len() - i,
        {
            assert(keys[i as int] == all@[i as int].0@);
            assert(c.contains_key(keys[i as int]));
            if all[i].1.is_default {
                proof {
                    assert(!dk.contains(keys[i as int])) by {
                        if dk.contains(keys[i as int]) {
                            let a = choose|a: int| 0 <= a < dk.len() && dk[a] == keys[i as int];
                            let b = choose|b: int| 0 <= b < i && dk[a] == keys[b];
                            assert(all@[b].0@ == all@[i as int].0@);
                        }
                    }
                    let ghost prev = dk;
                    dk = dk.push(keys[i as int]);
                    assert forall|a: int| 0 <= a < dk.len() implies exists|b: int|
                        0 <= b < i + 1 && #[trigger] dk[a] == keys[b] by {
                        if a < prev.len() {
                            assert(dk[a] == prev[a]);
                        } else {
                            assert(dk[a] == keys[i as int]);
                        }
                    }
                    assert forall|b: int| 0 <= b < i + 1 && c[#[trigger] keys[b]].is_default implies dk.contains(
                        keys[b],
                    ) by {
                        if b < i {
                            assert(prev.contains(keys[b]));
                            let a = choose|a: int| 0 <= a < prev.len() && prev[a] == keys[b];
                            assert(dk[a] == keys[b]);
                        } else {
                            assert(dk[prev.len() as int] == keys[b]);
                        }
                    }
                }
                defaults = defaults + 1;
            }
            i = i + 1;
        }
        proof {
            assert(dk.to_set() =~= default_keys(c)) by {
                assert forall|k: Seq<char>| default_keys(c).contains(k) implies dk.to_set().contains(k) by {
                    assert(c.contains_key(k));
                    let b = choose|b: int| 0 <= b < all@.len() && all@[b].0@ == k;
                    assert(keys[b] == k);
                }
            }
            dk.unique_seq_to_set();
        }
        proof {
            assert(total as int >= defaults) by {
                let ks = keys;
                assert(ks.to_set() =~= c.dom()) by {
                    assert forall|k: Seq<char>| c.dom().contains(k) implies ks.to_set().contains(k) by {
                        let b = choose|b: int| 0 <= b < all@.len() && all@[b].0@ == k;
                        assert(ks[b] == k);
                    }
                }
                assert(ks.no_duplicates()) by {
                    assert forall|a: int, b: int| 0 <= a < ks.len() && 0 <= b < ks.len() && a != b implies ks[a] != ks[b] by {
                        if a < b {
                            assert(all@[a].0@ != all@[b].0@);
                        } else {
                            assert(all@[b].0@ != all@[a].0@);
                        }
                    }
                }
                ks.unique_seq_to_set();
            }
        }
        CacheStats {
            total_entries: total,
            default_entries: defaults,
            modified_entries: total - defaults,
            hits: self.hits,
            misses: self.misses,
            disk_loads: self.disk_loads,
        }
    }
}

/// `x + n`, wrapping around at `u64::MAX`.
pub open spec fn wrap_add(x: u64, n: u64) -> u64 {
    ((x as int + n as int) % 0x1_0000_0000_0000_0000) as u64
}

fn add_wrapping(x: u64, n: u64) -> (r: u64)
    ensures
        r == wrap_add(x, n),
{
    if n > u64::MAX - x {
        n - (u64::MAX - x) - 1
    } else {
        x + n
    }
}


/// A stored result is served back for the same code, mode and edition, as
/// long as it is an unmodified example's or younger than the time to live.
pub proof fn lemma_read_after_write(
    c: Map<Seq<char>, EntryView>,
    code: Seq<char>,
    mode: Seq<char>,
    edition: Seq<char>,
    body: Seq<char>,
    id: Seq<char>,
    is_default: bool,
    inserted: u64,
    now: u64,
    ttl_ms: u64,
)
    requires
        is_default || elapsed_ms(inserted, now) < ttl_ms,
    ensures
        served(
            c.insert(key_of(code, mode, edition), new_entry(body, inserted, id, is_default)),
            key_of(code, mode, edition),
            now,
            ttl_ms,
        ) == Some(body),
{
}

/// A lookup that finds its entry expired serves nothing and drops the
/// entry: the cache holds one entry fewer.
pub proof fn lemma_expired_miss_drops_entry(
    c: Map<Seq<char>, EntryView>,
    key: Seq<char>,
    now: u64,
    ttl_ms: u64,
)
    requires
        c.dom().finite(),
        c.contains_key(key),
        !is_live(c[key], now, ttl_ms),
    ensures
        served(c, key, now, ttl_ms) is None,
        c.remove(key).len() == c.len() - 1,
{
}

/// A result for modified code stops being served once the time to live has
/// passed since it was stored.
pub proof fn lemma_modified_entry_expires(
    c: Map<Seq<char>, EntryView>,
    key: Seq<char>,
    now: u64,
    ttl_ms: u64,
)
    requires
        c.contains_key(key),
        !c[key].is_default,
        elapsed_ms(c[key].inserted_at, now) >= ttl_ms,
    ensures
        served(c, key, now, ttl_ms) is None,
        !live_entries(c, now, ttl_ms).contains_key(key),
{
}

/// An unmodified example's result is served at any time and survives every
/// eviction.
pub proof fn lemma_default_entry_never_expires(
    c: Map<Seq<char>, EntryView>,
    key: Seq<char>,
    now: u64,
    ttl_ms: u64,
)
    requires
        c.contains_key(key),
        c[key].is_default,
    ensures
        served(c, key, now, ttl_ms) == Some(c[key].response_body),
        live_entries(c, now, ttl_ms).contains_key(key),
        live_entries(c, now, ttl_ms)[key] == c[key],
{
}

/// Eviction at `now` changes nothing that a lookup at `now` serves, and
/// leaves only entries that are live then.
pub proof fn lemma_eviction_preserves_lookups(
    c: Map<Seq<char>, EntryView>,
    key: Seq<char>,
    now: u64,
    ttl_ms: u64,
)
    ensures
        served(live_entries(c, now, ttl_ms), key, now, ttl_ms) == served(c, key, now, ttl_ms),
        live_entries(c, now, ttl_ms).contains_key(key) ==> is_live(
            live_entries(c, now, ttl_ms)[key],
            now,
            ttl_ms,
        ),
{
}

/// Every result loaded from disk is an unmodified example's result and is
/// served, as the last entry of its key in the file, at any time.
pub proof fn lemma_loaded_entries_served(
    c: Map<Seq<char>, EntryView>,
    entries: Seq<(String, DiskEntry)>,
    loaded_at: u64,
    now: u64,
    ttl_ms: u64,
    i: int,
)
    requires
        0 <= i < entries.len(),
        forall|j: int| i < j < entries.len() ==> #[trigger] entries[j].0@ != entries[i].0@,
    ensures
        loaded(c, entries, loaded_at).contains_key(entries[i].0@),
        loaded(c, entries, loaded_at)[entries[i].0@].is_default,
        served(loaded(c, entries, loaded_at), entries[i].0@, now, ttl_ms) == Some(
            entries[i].1.response_body@,
        ),
    decreases entries.len(),
{
    if i < entries.len() - 1 {
        let init = entries.drop_last();
        assert forall|j: int| i < j < init.len() implies #[trigger] init[j].0@ != init[i].0@ by {
            assert(init[j] == entries[j]);
        }
        lemma_loaded_entries_served(c, init, loaded_at, now, ttl_ms, i);
        assert(init[i] == entries[i]);
        assert(entries.last().0@ != entries[i].0@);
    }
}


/// What is written to disk holds only the unmodified examples' results:
/// results for modified code never leave memory.
pub proof fn lemma_disk_holds_only_examples(
    l: Seq<(String, DiskEntry)>,
    c: Map<Seq<char>, EntryView>,
    i: int,
)
    requires
        is_disk_listing(l, c),
        0 <= i < l.len(),
    ensures
        c.contains_key(l[i].0@),
        c[l[i].0@].is_default,
{
}

/// The keys in `l`.
pub open spec fn listed_keys(l: Seq<(String, DiskEntry)>) -> Set<Seq<char>> {
    Set::new(|k: Seq<char>| exists|i: int| 0 <= i < l.len() && #[trigger] l[i].0@ == k)
}

proof fn lemma_loaded_domain(c: Map<Seq<char>, EntryView>, l: Seq<(String, DiskEntry)>, at: u64)
    requires
        c.dom().finite(),
        forall|i: int, j: int| 0 <= i < j < l.len() ==> #[trigger] l[i].0@ != #[trigger] l[j].0@,
        forall|i: int| 0 <= i < l.len() ==> !c.contains_key(#[trigger] l[i].0@),
    ensures
        loaded(c, l, at).dom() =~= c.dom() + listed_keys(l),
        loaded(c, l, at).dom().finite(),
        loaded(c, l, at).len() == c.len() + l.len(),
    decreases l.len(),
{
    if l.len() > 0 {
        let init = l.drop_last();
        assert forall|i: int, j: int| 0 <= i < j < init.len() implies #[trigger] init[i].0@ != #[trigger] init[j].0@ by {
            assert(init[i] == l[i] && init[j] == l[j]);
        }
        assert forall|i: int| 0 <= i < init.len() implies !c.contains_key(#[trigger] init[i].0@) by {
            assert(init[i] == l[i]);
        }
        lemma_loaded_domain(c, init, at);
        let last = l.last();
        assert(!loaded(c, init, at).contains_key(last.0@)) by {
            if listed_keys(init).contains(last.0@) {
                let i = choose|i: int| 0 <= i < init.len() && #[trigger] init[i].0@ == last.0@;
                assert(init[i] == l[i]);
                assert(l[i].0@ != l[l.len() - 1].0@);
            }
        }
        assert forall|k: Seq<char>| #[trigger] listed_keys(l).contains(k) <==> (listed_keys(init).contains(k) || k == last.0@) by {
            if listed_keys(l).contains(k) {
                let i = choose|i: int| 0 <= i < l.len() && #[trigger] l[i].0@ == k;
                if i < l.len() - 1 {
                    assert(init[i] == l[i]);
                }
            }
            if listed_keys(init).contains(k) {
                let i = choose|i: int| 0 <= i < init.len() && #[trigger] init[i].0@ == k;
                assert(init[i] == l[i]);
            }
            if k == last.0@ {
                assert(l[l.len() - 1].0@ == k);
            }
        }
    }
}

/// Writing the example results to disk and loading them into an empty
/// cache gives them back: the loaded cache holds exactly the examples'
/// entries, one per result written, each an example result that is served
/// at any time.
pub proof fn lemma_disk_round_trip(
    c: Map<Seq<char>, EntryView>,
    l: Seq<(String, DiskEntry)>,
    loaded_at: u64,
    now: u64,
    ttl_ms: u64,
)
    requires
        is_disk_listing(l, c),
    ensures
        loaded(no_entries(), l, loaded_at).dom() == default_keys(c),
        loaded(no_entries(), l, loaded_at).dom().finite(),
        loaded(no_entries(), l, loaded_at).len() == l.len(),
        default_keys(loaded(no_entries(), l, loaded_at)) == loaded(no_entries(), l, loaded_at).dom(),
        forall|k: Seq<char>| #[trigger]
            default_keys(c).contains(k) ==> served(loaded(no_entries(), l, loaded_at), k, now, ttl_ms)
                == Some(c[k].response_body),
{
    let m = loaded(no_entries(), l, loaded_at);
    lemma_loaded_domain(no_entries(), l, loaded_at);
    assert(no_entries().dom() + listed_keys(l) =~= listed_keys(l));
    assert(listed_keys(l) =~= default_keys(c)) by {
        assert forall|k: Seq<char>| listed_keys(l).contains(k) implies default_keys(c).contains(k) by {
            let i = choose|i: int| 0 <= i < l.len() && #[trigger] l[i].0@ == k;
            assert(c.contains_key(l[i].0@));
        }
    }
    assert forall|k: Seq<char>| #[trigger] m.contains_key(k) implies m[k].is_default && exists|i: int|
        0 <= i < l.len() && #[trigger] l[i].0@ == k && served(m, k, now, ttl_ms) == Some(
            l[i].1.response_body@,
        ) by {
        let i = choose|i: int| 0 <= i < l.len() && #[trigger] l[i].0@ == k;
        assert forall|j: int| i < j < l.len() implies #[trigger] l[j].0@ != l[i].0@ by {}
        lemma_loaded_entries_served(no_entries(), l, loaded_at, now, ttl_ms, i);
    }
    assert(default_keys(m) =~= m.dom());
    assert forall|k: Seq<char>| #[trigger] default_keys(c).contains(k) implies served(m, k, now, ttl_ms)
        == Some(c[k].response_body) by {
        assert(m.contains_key(k));
        let i = choose|i: int|
            0 <= i < l.len() && #[trigger] l[i].0@ == k && served(m, k, now, ttl_ms) == Some(
                l[i].1.response_body@,
            );
    }
}

} // verus!
