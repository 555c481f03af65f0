//! A cache of values by text key whose entries expire a fixed time after
//! they were stored.
//!
//! Time is counted in nanoseconds of the cache's own monotonic clock. The
//! methods whose name ends in `_at` take that time as an argument; the
//! others read the clock and then do the same.

use vstd::prelude::*;
use vstd::hash_map::StringHashMap;
use std::time::Instant;
use crate::clock::{instant_now, nanos_since, later_time};

verus! {

/// A stored value and the time at which it was stored.
pub struct CacheEntry<T> {
    pub inserted_at: u128,
    pub value: T,
}

/// A cache whose entries live for `ttl_ns` nanoseconds.
#[verifier::reject_recursive_types(T)]
pub struct TimedCache<T> {
    ttl_ns: u128,
    origin: Instant,
    /// The latest time that the cache has seen, which its clock never reads
    /// below.
    latest: u128,
    entries: StringHashMap<CacheEntry<T>>,
}

/// The mathematical value of a [`TimedCache`].
pub struct TimedCacheView<T> {
    pub ttl_ns: u128,
    pub entries: Map<Seq<char>, CacheEntry<T>>,
}

impl<T> View for TimedCache<T> {
    type V = TimedCacheView<T>;

    closed spec fn view(&self) -> TimedCacheView<T> {
        TimedCacheView { ttl_ns: self.ttl_ns, entries: self.entries@ }
    }
}

/// The time that has passed from `from` to `now`; none if the clock reads
/// an earlier time.
pub open spec fn elapsed_time(from: u128, now: u128) -> u128 {
    if now >= from {
        (now - from) as u128
    } else {
        0
    }
}

impl<T> TimedCache<T> {
    /// The latest time that the cache has seen.
    pub closed spec fn clock(self) -> u128 {
        self.latest
    }

    /// No entry was stored after the latest time seen.
    #[verifier::type_invariant]
    spec fn well_formed(self) -> bool {
        self@.stamped_by(self.latest)
    }
}

impl<T> TimedCacheView<T> {
    /// Whether every entry was stored at `t` or earlier.
    pub open spec fn stamped_by(self, t: u128) -> bool {
        forall|k: Seq<char>| #[trigger] self.entries.contains_key(k) ==> self.entries[k].inserted_at <= t
    }

    /// Whether `key` holds a value that has not expired at `now`.
    pub open spec fn live(self, key: Seq<char>, now: u128) -> bool {
        self.entries.contains_key(key) && elapsed_time(self.entries[key].inserted_at, now) <= self.ttl_ns
    }

    /// The cache with `value` stored under `key` at `now`.
    pub open spec fn stored(self, key: Seq<char>, value: T, now: u128) -> TimedCacheView<T> {
        TimedCacheView {
            ttl_ns: self.ttl_ns,
            entries: self.entries.insert(key, CacheEntry { inserted_at: now, value }),
        }
    }

    /// The cache without the entry under `key`.
    pub open spec fn dropped(self, key: Seq<char>) -> TimedCacheView<T> {
        TimedCacheView { ttl_ns: self.ttl_ns, entries: self.entries.remove(key) }
    }
}

impl<T: Clone> TimedCache<T> {
    /// An empty cache whose entries live for `ttl_ns` nanoseconds.
    pub fn new(ttl_ns: u128) -> (c: Self)
        ensures
            c@.ttl_ns == ttl_ns,
            c@.entries == Map::<Seq<char>, CacheEntry<T>>::empty(),
    {
        TimedCache { ttl_ns, origin: instant_now(), latest: 0, entries: StringHashMap::new() }
    }

    /// The current time of the cache's clock, in nanoseconds. It never
    /// reads below a time that the cache has already seen.
    pub fn now_ns(&self) -> (t: u128)
        ensures
            t >= self.clock(),
    {
        let reading = nanos_since(&self.origin);
        if reading >= self.latest {
            reading
        } else {
            self.latest
        }
    }

    /// Exchanges the entries of the cache with `entries`.
    fn swap_entries(&mut self, entries: &mut StringHashMap<CacheEntry<T>>)
        requires
            (TimedCacheView { ttl_ns: old(self)@.ttl_ns, entries: old(entries)@ }).stamped_by(old(self).clock()),
        ensures
            final(self)@ == (TimedCacheView { ttl_ns: old(self)@.ttl_ns, entries: old(entries)@ }),
            final(entries)@ == old(self)@.entries,
            final(self).clock() == old(self).clock(),
    {
        let mut taken = TimedCache {
            ttl_ns: self.ttl_ns,
            origin: self.origin,
            latest: self.latest,
            entries: StringHashMap::new(),
        };
        std::mem::swap(self, &mut taken);
        let TimedCache { ttl_ns, origin, latest, entries: held } = taken;
        let mut held = held;
        std::mem::swap(&mut held, entries);
        *self = TimedCache { ttl_ns, origin, latest, entries: held };
    }

    /// A clone of the value under `key` if it has not expired at `now`;
    /// otherwise none, and the entry under `key` is dropped.
    pub fn get_at(&mut self, key: &str, now: u128) -> (res: Option<T>)
        ensures
            old(self)@.live(key@, now) ==> {
                &&& res is Some
                &&& cloned(old(self)@.entries[key@].value, res->0)
                &&& final(self)@ == old(self)@
            },
            !old(self)@.live(key@, now) ==> {
                &&& res is None
                &&& final(self)@ == old(self)@.dropped(key@)
            },
            old(self)@.stamped_by(old(self).clock()),
            final(self).clock() == old(self).clock(),
    {
        proof {
            use_type_invariant(&*self);
        }
        match self.entries.get(key) {
            Some(entry) => {
                let age = if now >= entry.inserted_at {
                    now - entry.inserted_at
                } else {
                    0
                };
                if age <= self.ttl_ns {
                    return Some(entry.value.clone());
                }
            },
            None => {},
        }
        let mut entries: StringHashMap<CacheEntry<T>> = StringHashMap::new();
        self.swap_entries(&mut entries);
        entries.remove(key);
        self.swap_entries(&mut entries);
        None
    }

    /// A clone of the value under `key` if it has not expired now, at a
    /// reading of the clock no earlier than any time the cache has seen.
    pub fn get(&mut self, key: &str) -> (res: Option<T>)
        ensures
            exists|now: u128|
                #![trigger old(self)@.live(key@, now)]
                {
                    &&& now >= old(self).clock()
                    &&& old(self)@.live(key@, now) ==> {
                        &&& res is Some
                        &&& cloned(old(self)@.entries[key@].value, res->0)
                        &&& final(self)@ == old(self)@
                    }
                    &&& !old(self)@.live(key@, now) ==> {
                        &&& res is None
                        &&& final(self)@ == old(self)@.dropped(key@)
                    }
                },
            old(self)@.stamped_by(old(self).clock()),
            final(self).clock() == old(self).clock(),
    {
        let now = self.now_ns();
        self.get_at(key, now)
    }

    /// Stores `value` under `key` at time `now`, in place of what was there.
    pub fn insert_at(&mut self, key: String, value: T, now: u128)
        ensures
            final(self)@ == old(self)@.stored(key@, value, now),
            final(self).clock() == later_time(old(self).clock(), now),
    {
        proof {
            use_type_invariant(&*self);
        }
        if now > self.latest {
            self.latest = now;
        }
        let mut entries: StringHashMap<CacheEntry<T>> = StringHashMap::new();
        self.swap_entries(&mut entries);
        entries.insert(key, CacheEntry { inserted_at: now, value });
        self.swap_entries(&mut entries);
    }

    /// Stores `value` under `key` now, at a reading of the clock no earlier
    /// than any time the cache has seen, in place of what was there.
    pub fn insert(&mut self, key: String, value: T)
        ensures
            exists|now: u128|
                #![trigger old(self)@.stored(key@, value, now)]
                {
                    &&& now >= old(self).clock()
                    &&& old(self)@.stored(key@, value, now) == final(self)@
                    &&& final(self).clock() == now
                },
    {
        let now = self.now_ns();
        self.insert_at(key, value, now)
    }
}


/// A value stored under a key at time `at` is held there, as it was stored,
/// for as long as at most `ttl_ns` has passed since `at`, and not after.
pub proof fn lemma_stored_value_lives_for_ttl<T>(c: TimedCacheView<T>, key: Seq<char>, value: T, at: u128, now: u128)
    ensures
        c.stored(key, value, at).entries[key].value == value,
        c.stored(key, value, at).ttl_ns == c.ttl_ns,
        at <= now ==> (c.stored(key, value, at).live(key, now) <==> now - at <= c.ttl_ns),
{
}

/// Storing under one key, or dropping it, leaves every other key as it was.
pub proof fn lemma_other_keys_untouched<T>(c: TimedCacheView<T>, key: Seq<char>, other: Seq<char>, value: T, at: u128, now: u128)
    requires
        key != other,
    ensures
        c.stored(key, value, at).live(other, now) == c.live(other, now),
        c.stored(key, value, at).entries.contains_key(other) ==> c.stored(key, value, at).entries[other]
            == c.entries[other],
        c.dropped(key).live(other, now) == c.live(other, now),
{
}

/// A dropped key holds nothing.
pub proof fn lemma_dropped_key_is_gone<T>(c: TimedCacheView<T>, key: Seq<char>, now: u128)
    ensures
        !c.dropped(key).live(key, now),
{
}


/// The round trip through the cache: a value stored under `key` at time
/// `at` is what a read of `key` gives (see [`TimedCache::get_at`]) at any
/// time from `at` to `at + ttl_ns`; a read after that finds nothing live
/// and drops the entry, so that later reads find nothing either.
pub proof fn lemma_cache_round_trip<T>(c: TimedCacheView<T>, key: Seq<char>, value: T, at: u128, now: u128, later: u128)
    requires
        at <= now,
    ensures
        now - at <= c.ttl_ns ==> {
            &&& c.stored(key, value, at).live(key, now)
            &&& c.stored(key, value, at).entries[key].value == value
        },
        now - at > c.ttl_ns ==> {
            &&& !c.stored(key, value, at).live(key, now)
            &&& !c.stored(key, value, at).dropped(key).live(key, later)
        },
{
}

} // verus!
