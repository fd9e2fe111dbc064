use vstd::prelude::*;

use dashmap::DashMap;
use std::collections::HashMap;
use std::time::{SystemTime, UNIX_EPOCH};

use crate::schedule::DayCourse;

verus! {

broadcast use vstd::std_specs::hash::group_hash_axioms;

#[verifier::external_type_specification]
#[verifier::external_body]
#[verifier::reject_recursive_types(K)]
#[verifier::reject_recursive_types(V)]
#[verifier::reject_recursive_types(S)]
pub struct ExDashMap<K, V, S>(DashMap<K, V, S>);

/// A cached schedule: the weeks of one user and when they were stored
/// (Unix seconds).
#[derive(Clone, Debug)]
pub struct CacheEntry {
    pub data: HashMap<u32, Vec<DayCourse>>,
    pub cached_at: u64,
}

/// How long an entry stays valid: 24 hours, in seconds.
pub const CACHE_TTL_SECONDS: u64 = 86400;

/// The concurrent map behind the cache.
pub type SlotMap = DashMap<String, CacheEntry>;

/// The entries that a concurrent map of the cache holds, by user code.
pub uninterp spec fn cache_slots(m: DashMap<String, CacheEntry>) -> Map<Seq<char>, CacheEntry>;

/// Relies on `DashMap::new`: a new map holds no entry.
#[verifier::external_body]
fn slots_new() -> (r: SlotMap)
    ensures
        cache_slots(r).dom().is_empty(),
{
    DashMap::new()
}

/// Relies on `DashMap::get`: the entry under `key`, if there is one; its
/// stamp and a clone of its weeks are taken out of the read guard.
#[verifier::external_body]
fn slots_get(m: &DashMap<String, CacheEntry>, key: &str) -> (r: Option<
    (u64, HashMap<u32, Vec<DayCourse>>),
>)
    ensures
        match r {
            Some(found) => {
                &&& cache_slots(*m).contains_key(key@)
                &&& found.0 == cache_slots(*m)[key@].cached_at
                &&& found.1@ == cache_slots(*m)[key@].data@
            },
            None => !cache_slots(*m).contains_key(key@),
        },
{
    m.get(key).map(|e| (e.cached_at, e.data.clone()))
}

/// Relies on `DashMap::insert`: afterwards `key` maps to `entry` and every
/// other key is as it was.
#[verifier::external_body]
fn slots_insert(m: &mut DashMap<String, CacheEntry>, key: String, entry: CacheEntry)
    ensures
        cache_slots(*final(m)) == cache_slots(*old(m)).insert(key@, entry),
{
    m.insert(key, entry);
}

/// Relies on `DashMap::remove`: afterwards `key` has no entry and every
/// other key is as it was.
#[verifier::external_body]
fn slots_remove(m: &mut DashMap<String, CacheEntry>, key: &str)
    ensures
        cache_slots(*final(m)) == cache_slots(*old(m)).remove(key@),
{
    m.remove(key);
}

/// Relies on `DashMap::len`: the number of entries.
#[verifier::external_body]
fn slots_len(m: &DashMap<String, CacheEntry>) -> (r: usize)
    ensures
        r == cache_slots(*m).len(),
{
    m.len()
}

/// `stamps` lists the stamps of the entries of `slots`, one for each key
/// of `keys`, which lists each key once.
pub open spec fn lists_stamps(
    keys: Seq<Seq<char>>,
    stamps: Seq<u64>,
    slots: Map<Seq<char>, CacheEntry>,
) -> bool {
    &&& keys.len() == stamps.len()
    &&& keys.no_duplicates()
    &&& keys.to_set() == slots.dom()
    &&& forall|i: int| 0 <= i < keys.len() ==> stamps[i] == slots[#[trigger] keys[i]].cached_at
}

/// Relies on `DashMap::iter`: it visits every entry once; each is handed
/// out as its stamp.
#[verifier::external_body]
fn slots_stamps(m: &DashMap<String, CacheEntry>) -> (r: Vec<u64>)
    ensures
        r@.len() == cache_slots(*m).len(),
        exists|keys: Seq<Seq<char>>| lists_stamps(keys, r@, cache_slots(*m)),
{
    m.iter().map(|e| e.value().cached_at).collect()
}

/// Relies on `SystemTime::now`: the current time in Unix seconds, zero
/// where the clock stands before the epoch. Nothing is known of its value.
#[verifier::external_body]
fn current_timestamp() -> (r: u64) {
    match SystemTime::now().duration_since(UNIX_EPOCH) {
        Ok(d) => d.as_secs(),
        Err(_) => 0,
    }
}

/// An entry stored at `cached_at` is still valid at `now`.
pub open spec fn entry_fresh(cached_at: u64, now: u64) -> bool {
    (now as int) - (cached_at as int) < CACHE_TTL_SECONDS as int
}

/// Whether an entry stored at `cached_at` is still valid at `now`; an
/// entry stamped later than `now` counts as valid.
pub fn is_cache_valid(cached_at: u64, now: u64) -> (r: bool)
    ensures
        r == entry_fresh(cached_at, now),
{
    cached_at > now || now - cached_at < CACHE_TTL_SECONDS
}

/// What a read of `key` at `now` finds in `slots`.
pub open spec fn lookup(slots: Map<Seq<char>, CacheEntry>, key: Seq<char>, now: u64) -> Option<
    Map<u32, Vec<DayCourse>>,
> {
    if slots.contains_key(key) && entry_fresh(slots[key].cached_at, now) {
        Some(slots[key].data@)
    } else {
        None
    }
}

/// What a read of `key` at `now` leaves behind: an expired entry is removed.
pub open spec fn after_read(slots: Map<Seq<char>, CacheEntry>, key: Seq<char>, now: u64) -> Map<
    Seq<char>,
    CacheEntry,
> {
    if slots.contains_key(key) && !entry_fresh(slots[key].cached_at, now) {
        slots.remove(key)
    } else {
        slots
    }
}

/// The keys of `slots` whose entries are valid at `now`.
pub open spec fn fresh_keys(slots: Map<Seq<char>, CacheEntry>, now: u64) -> Set<Seq<char>> {
    slots.dom().filter(|k: Seq<char>| entry_fresh(slots[k].cached_at, now))
}

pub open spec fn count_fresh(stamps: Seq<u64>, now: u64) -> nat
    decreases stamps.len(),
{
    if stamps.len() == 0 {
        0
    } else {
        count_fresh(stamps.drop_last(), now) + if entry_fresh(stamps.last(), now) {
            1nat
        } else {
            0nat
        }
    }
}

proof fn lemma_count_fresh(
    slots: Map<Seq<char>, CacheEntry>,
    keys: Seq<Seq<char>>,
    stamps: Seq<u64>,
    now: u64,
)
    requires
        keys.len() == stamps.len(),
        keys.no_duplicates(),
        keys.to_set() <= slots.dom(),
        forall|i: int| 0 <= i < keys.len() ==> stamps[i] == slots[#[trigger] keys[i]].cached_at,
    ensures
        count_fresh(stamps, now) == keys.to_set().filter(
            |k: Seq<char>| entry_fresh(slots[k].cached_at, now),
        ).len(),
    decreases keys.len(),
{
    let p = |k: Seq<char>| entry_fresh(slots[k].cached_at, now);
    if keys.len() == 0 {
        assert(keys.to_set().filter(p) =~= Set::<Seq<char>>::empty());
    } else {
        let init = keys.drop_last();
        let last = keys.last();
        assert(init.no_duplicates()) by {
            assert forall|a: int, b: int| 0 <= a < init.len() && 0 <= b < init.len() && a != b
                implies init[a] != init[b] by {
                assert(init[a] == keys[a] && init[b] == keys[b]);
            }
        }
        assert(keys.to_set() =~= init.to_set().insert(last)) by {
            assert(init.push(last) =~= keys);
            init.lemma_push_to_set_commute(last);
        }
        assert(init.to_set() <= slots.dom());
        assert forall|i: int| 0 <= i < init.len() implies stamps.drop_last()[i] == slots[
            #[trigger] init[i]
        ].cached_at by {
            assert(init[i] == keys[i]);
        }
        lemma_count_fresh(slots, init, stamps.drop_last(), now);
        assert(!init.to_set().contains(last)) by {
            if init.to_set().contains(last) {
                let j = choose|j: int| 0 <= j < init.len() && init[j] == last;
                assert(keys[j] == keys[keys.len() - 1]);
            }
        }
        assert(stamps.last() == slots[last].cached_at);
        if p(last) {
            assert(keys.to_set().filter(p) =~= init.to_set().filter(p).insert(last));
        } else {
            assert(keys.to_set().filter(p) =~= init.to_set().filter(p));
        }
    }
}

/// A time-bounded cache of assembled schedules, keyed by user code. An entry
/// older than the time-to-live is never returned; a read that finds it
/// expired removes it.
pub struct ScheduleCache {
    slots: DashMap<String, CacheEntry>,
}

impl View for ScheduleCache {
    type V = Map<Seq<char>, CacheEntry>;

    closed spec fn view(&self) -> Map<Seq<char>, CacheEntry> {
        cache_slots(self.slots)
    }
}

impl ScheduleCache {
    pub fn new() -> (r: ScheduleCache)
        ensures
            r@ == Map::<Seq<char>, CacheEntry>::empty(),
    {
        ScheduleCache { slots: slots_new() }
    }

    /// Reads the weeks cached for `ucode` at time `now`, removing the entry
    /// if it has expired.
    pub fn get(&mut self, ucode: &str, now: u64) -> (r: Option<HashMap<u32, Vec<DayCourse>>>)
        ensures
            match r {
                Some(data) => lookup(old(self)@, ucode@, now) == Some(data@),
                None => lookup(old(self)@, ucode@, now) is None,
            },
            final(self)@ == after_read(old(self)@, ucode@, now),
    {
        match slots_get(&self.slots, ucode) {
            Some(found) => {
                let (cached_at, data) = found;
                if is_cache_valid(cached_at, now) {
                    Some(data)
                } else {
                    slots_remove(&mut self.slots, ucode);
                    None
                }
            },
            None => None,
        }
    }

    /// Stores the weeks of `ucode`, stamped with `now`.
    pub fn put(&mut self, ucode: &str, data: HashMap<u32, Vec<DayCourse>>, now: u64)
        ensures
            final(self)@ == old(self)@.insert(ucode@, (CacheEntry { data, cached_at: now })),
    {
        let key = String::from_str(ucode);
        slots_insert(&mut self.slots, key, CacheEntry { data, cached_at: now });
    }

    /// Drops whatever is cached for `ucode`.
    pub fn invalidate(&mut self, ucode: &str)
        ensures
            final(self)@ == old(self)@.remove(ucode@),
    {
        slots_remove(&mut self.slots, ucode);
    }

    /// The number of entries, and the number of them still valid at `now`.
    pub fn stats(&self, now: u64) -> (r: (usize, usize))
        ensures
            r.0 == self@.len(),
            r.1 == fresh_keys(self@, now).len(),
            r.1 <= r.0,
    {
        let total = slots_len(&self.slots);
        let stamps = slots_stamps(&self.slots);
        let ghost keys = choose|keys: Seq<Seq<char>>|
            lists_stamps(keys, stamps@, cache_slots(self.slots));
        proof {
            lemma_count_fresh(self@, keys, stamps@, now);
            keys.unique_seq_to_set();
        }
        let mut valid: usize = 0;
        let mut i: usize = 0;
        while i < stamps.len()
            invariant
                i <= stamps@.len(),
                valid as nat == count_fresh(stamps@.subrange(0, i as int), now),
                valid <= i,
            decreases stamps@.len() - i,
        {
            let ghost next = stamps@.subrange(0, i as int + 1);
            assert(next.drop_last() =~= stamps@.subrange(0, i as int));
            let t = stamps[i];
            if is_cache_valid(t, now) {
                valid = valid + 1;
            }
            i = i + 1;
        }
        assert(stamps@.subrange(0, i as int) =~= stamps@);
        (total, valid)
    }
}

/// Entries put into the cache read back: within the time-to-live of the
/// put, a read of the same key finds exactly the weeks put; once it has
/// passed, the read finds nothing.
pub proof fn lemma_put_then_get(
    slots: Map<Seq<char>, CacheEntry>,
    key: Seq<char>,
    data: HashMap<u32, Vec<DayCourse>>,
    put_at: u64,
    now: u64,
)
    ensures
        (now as int) < put_at + CACHE_TTL_SECONDS ==> lookup(
            slots.insert(key, (CacheEntry { data, cached_at: put_at })),
            key,
            now,
        ) == Some(data@),
        (now as int) >= put_at + CACHE_TTL_SECONDS ==> lookup(
            slots.insert(key, (CacheEntry { data, cached_at: put_at })),
            key,
            now,
        ) is None,
{
}

/// Reads the weeks cached for `ucode` at the current time; an expired
/// entry is removed.
pub fn get_cached_schedule(cache: &mut ScheduleCache, ucode: &str) -> (r: Option<
    HashMap<u32, Vec<DayCourse>>,
>)
    ensures
        exists|now: u64|
            {
                &&& #[trigger] after_read(old(cache)@, ucode@, now) == final(cache)@
                &&& match r {
                    Some(d) => lookup(old(cache)@, ucode@, now) == Some(d@),
                    None => lookup(old(cache)@, ucode@, now) is None,
                }
            },
        r is Some ==> old(cache)@.contains_key(ucode@) && r->0@ == old(cache)@[ucode@].data@,
        r is Some ==> final(cache)@ == old(cache)@,
        !old(cache)@.contains_key(ucode@) ==> r is None,
        final(cache)@ == old(cache)@ || final(cache)@ == old(cache)@.remove(ucode@),
{
    let now = current_timestamp();
    let r = cache.get(ucode, now);
    assert(after_read(old(cache)@, ucode@, now) == cache@);
    r
}

/// Stores the weeks of `ucode`, stamped with the current time.
pub fn set_cached_schedule(cache: &mut ScheduleCache, ucode: &str, data: HashMap<u32, Vec<DayCourse>>)
    ensures
        final(cache)@.contains_key(ucode@),
        final(cache)@[ucode@].data == data,
        final(cache)@ == old(cache)@.insert(ucode@, final(cache)@[ucode@]),
{
    let now = current_timestamp();
    cache.put(ucode, data, now);
}

/// Drops whatever is cached for `ucode`.
pub fn clear_cache(cache: &mut ScheduleCache, ucode: &str)
    ensures
        final(cache)@ == old(cache)@.remove(ucode@),
{
    cache.invalidate(ucode);
}

/// The number of entries, and the number still valid at the current time.
pub fn get_cache_stats(cache: &ScheduleCache) -> (r: (usize, usize))
    ensures
        r.0 == cache@.len(),
        exists|now: u64| r.1 == #[trigger] fresh_keys(cache@, now).len(),
        r.1 <= r.0,
{
    let now = current_timestamp();
    cache.stats(now)
}

} // verus!
