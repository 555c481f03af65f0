//! Per-provider health: success and failure counters, the last error and
//! latency, and a circuit breaker that opens after a run of consecutive
//! failures and stays open for a fixed time.
//!
//! Time is counted in nanoseconds of the store's own monotonic clock. The
//! methods whose name ends in `_at` take that time as an argument; the
//! others read the clock and then do the same.

use vstd::prelude::*;
use vstd::hash_map::StringHashMap;
use std::time::Instant;
use crate::clock::{instant_now, nanos_since, later_time};

verus! {

/// What the store knows of one provider.
#[derive(Debug)]
pub struct HealthEntry {
    pub successes: u64,
    pub failures: u64,
    pub consecutive_failures: u32,
    /// The time until which the provider's circuit is open, if it was opened.
    pub open_until: Option<u128>,
    pub last_error: Option<String>,
    pub last_latency_ms: Option<u128>,
}

/// A report of one provider's health.
#[derive(Debug, Clone)]
pub struct HealthSnapshot {
    pub provider: String,
    pub successes: u64,
    pub failures: u64,
    pub consecutive_failures: u32,
    pub circuit_open: bool,
    pub circuit_remaining_ms: Option<u128>,
    pub last_error: Option<String>,
    pub last_latency_ms: Option<u128>,
}

/// The health of every provider that the gateway has seen.
pub struct HealthStore {
    threshold: u32,
    open_duration_ns: u128,
    origin: Instant,
    /// The latest time that the store has seen, which its clock never reads
    /// below.
    latest: u128,
    entries: StringHashMap<Slot>,
}

/// The entry of one provider, with everything that happened to it.
struct Slot {
    entry: HealthEntry,
    events: Ghost<Seq<HealthEvent>>,
}

/// The mathematical value of a [`HealthStore`].
pub struct HealthStoreView {
    /// The number of consecutive failures that opens a provider's circuit.
    pub threshold: u32,
    /// How long an opened circuit stays open.
    pub open_duration_ns: u128,
    pub entries: Map<Seq<char>, HealthEntry>,
}

impl View for HealthStore {
    type V = HealthStoreView;

    closed spec fn view(&self) -> HealthStoreView {
        HealthStoreView {
            threshold: self.threshold,
            open_duration_ns: self.open_duration_ns,
            entries: Map::new(
                |p: Seq<char>| self.entries@.contains_key(p),
                |p: Seq<char>| self.entries@[p].entry,
            ),
        }
    }
}

/// A store with the given settings that has seen nothing.
pub open spec fn initial_store(threshold: u32, open_duration_ns: u128) -> HealthStoreView {
    HealthStoreView { threshold, open_duration_ns, entries: Map::empty() }
}

impl HealthStore {
    /// Everything that happened to `provider` in the store, in order.
    pub closed spec fn events_of(self, provider: Seq<char>) -> Seq<HealthEvent> {
        if self.entries@.contains_key(provider) {
            self.entries@[provider].events@
        } else {
            Seq::empty()
        }
    }

    /// The latest time that the store has seen.
    pub closed spec fn clock(self) -> u128 {
        self.latest
    }

    /// Each provider's entry is what its events made of a fresh one, and
    /// none of them took place after the latest time seen.
    #[verifier::type_invariant]
    spec fn well_formed(self) -> bool {
        forall|p: Seq<char>|
            #[trigger] self.entries@.contains_key(p) ==> {
                &&& self.entries@[p].entry == after_events(
                    initial_store(self.threshold, self.open_duration_ns),
                    p,
                    self.entries@[p].events@,
                ).entry(p)
                &&& events_no_later_than(self.entries@[p].events@, self.latest)
            }
    }
}

/// The entry of a provider that the store has not seen yet.
pub open spec fn fresh_entry() -> HealthEntry {
    HealthEntry {
        successes: 0,
        failures: 0,
        consecutive_failures: 0,
        open_until: None,
        last_error: None,
        last_latency_ms: None,
    }
}

pub open spec fn inc64(x: u64) -> u64 {
    if x < u64::MAX {
        (x + 1) as u64
    } else {
        x
    }
}

pub open spec fn inc32(x: u32) -> u32 {
    if x < u32::MAX {
        (x + 1) as u32
    } else {
        x
    }
}

pub open spec fn add_time(a: u128, b: u128) -> u128 {
    if a + b <= u128::MAX {
        (a + b) as u128
    } else {
        u128::MAX
    }
}

/// Whether a provider with entry `e` may be tried at time `now`: its circuit
/// is not open, or the time until which it was opened has come.
pub open spec fn entry_available(e: HealthEntry, now: u128) -> bool {
    match e.open_until {
        Some(until) => until <= now,
        None => true,
    }
}

/// The entry after an availability check at `now`: a circuit whose time has
/// come is closed.
pub open spec fn entry_checked(e: HealthEntry, now: u128) -> HealthEntry {
    if entry_available(e, now) {
        HealthEntry { open_until: None, ..e }
    } else {
        e
    }
}

/// The entry after a success with the given latency.
pub open spec fn entry_succeeded(e: HealthEntry, latency_ms: u128) -> HealthEntry {
    HealthEntry {
        successes: inc64(e.successes),
        consecutive_failures: 0,
        open_until: None,
        last_error: None,
        last_latency_ms: Some(latency_ms),
        ..e
    }
}

/// The entry after a failure at `now`: the counters grow, the message is
/// kept, and the circuit opens for `open_duration_ns` once the run of
/// consecutive failures reaches `threshold`.
pub open spec fn entry_failed(
    e: HealthEntry,
    message: String,
    now: u128,
    threshold: u32,
    open_duration_ns: u128,
) -> HealthEntry {
    let run = inc32(e.consecutive_failures);
    HealthEntry {
        successes: e.successes,
        failures: inc64(e.failures),
        consecutive_failures: run,
        open_until: if run >= threshold {
            Some(add_time(now, open_duration_ns))
        } else {
            e.open_until
        },
        last_error: Some(message),
        last_latency_ms: e.last_latency_ms,
    }
}

/// How long the circuit of an entry stays open after `now`, in whole
/// milliseconds; none when it is not open at `now`.
pub open spec fn entry_remaining(e: HealthEntry, now: u128) -> Option<u128> {
    match e.open_until {
        Some(until) => if until >= now {
            Some(((until - now) / 1_000_000) as u128)
        } else {
            None
        },
        None => None,
    }
}

impl HealthStoreView {
    /// The entry of `provider`, or a fresh one if the store has none.
    pub open spec fn entry(self, provider: Seq<char>) -> HealthEntry {
        if self.entries.contains_key(provider) {
            self.entries[provider]
        } else {
            fresh_entry()
        }
    }

    pub open spec fn with_entry(self, provider: Seq<char>, e: HealthEntry) -> HealthStoreView {
        HealthStoreView { entries: self.entries.insert(provider, e), ..self }
    }

    pub open spec fn available(self, provider: Seq<char>, now: u128) -> bool {
        entry_available(self.entry(provider), now)
    }

    /// The store after an availability check of `provider` at `now`.
    pub open spec fn checked(self, provider: Seq<char>, now: u128) -> HealthStoreView {
        self.with_entry(provider, entry_checked(self.entry(provider), now))
    }

    /// The store after a success of `provider`.
    pub open spec fn succeeded(self, provider: Seq<char>, latency_ms: u128) -> HealthStoreView {
        self.with_entry(provider, entry_succeeded(self.entry(provider), latency_ms))
    }

    /// The store after a failure of `provider` at `now`.
    pub open spec fn failed(self, provider: Seq<char>, message: String, now: u128) -> HealthStoreView {
        self.with_entry(
            provider,
            entry_failed(self.entry(provider), message, now, self.threshold, self.open_duration_ns),
        )
    }

    /// The penalty of `provider` in rankings: its run of consecutive failures.
    pub open spec fn penalty(self, provider: Seq<char>) -> u32 {
        self.entry(provider).consecutive_failures
    }

    /// Whether `snap` reports `provider`'s health at `now`.
    pub open spec fn reports(self, snap: HealthSnapshot, provider: Seq<char>, now: u128) -> bool {
        let e = self.entry(provider);
        &&& snap.provider@ == provider
        &&& snap.successes == e.successes
        &&& snap.failures == e.failures
        &&& snap.consecutive_failures == e.consecutive_failures
        &&& snap.circuit_open == (entry_remaining(e, now) is Some)
        &&& snap.circuit_remaining_ms == entry_remaining(e, now)
        &&& snap.last_error == e.last_error
        &&& snap.last_latency_ms == e.last_latency_ms
    }

    /// Whether `snaps` report the health of `names` at `now`, one for each, in order.
    pub open spec fn reports_all(self, snaps: Seq<HealthSnapshot>, names: Seq<String>, now: u128) -> bool {
        &&& snaps.len() == names.len()
        &&& forall|i: int| 0 <= i < snaps.len() ==> self.reports(#[trigger] snaps[i], names[i]@, now)
    }
}

fn clone_text(o: &Option<String>) -> (r: Option<String>)
    ensures
        r == *o,
{
    match o {
        Some(s) => Some(s.clone()),
        None => None,
    }
}

fn fresh() -> (e: HealthEntry)
    ensures
        e == fresh_entry(),
{
    HealthEntry {
        successes: 0,
        failures: 0,
        consecutive_failures: 0,
        open_until: None,
        last_error: None,
        last_latency_ms: None,
    }
}

/// The entry `e` after `event`, in a store with the given settings.
pub open spec fn entry_after(e: HealthEntry, event: HealthEvent, threshold: u32, open_duration_ns: u128) -> HealthEntry {
    match event {
        HealthEvent::Failed(message, t) => entry_failed(e, message, t, threshold, open_duration_ns),
        HealthEvent::Checked(t) => entry_checked(e, t),
        HealthEvent::Succeeded(latency_ms) => entry_succeeded(e, latency_ms),
    }
}

/// Whether `event` took place at `t` or earlier.
pub open spec fn event_no_later_than(event: HealthEvent, t: u128) -> bool {
    match event {
        HealthEvent::Failed(_, at) => at <= t,
        HealthEvent::Checked(at) => at <= t,
        HealthEvent::Succeeded(_) => true,
    }
}

/// Events leave the settings of a store as they were.
proof fn lemma_after_events_settings(h: HealthStoreView, provider: Seq<char>, events: Seq<HealthEvent>)
    ensures
        after_events(h, provider, events).threshold == h.threshold,
        after_events(h, provider, events).open_duration_ns == h.open_duration_ns,
    decreases events.len(),
{
    if events.len() > 0 {
        lemma_after_events_settings(h, provider, events.drop_last());
    }
}

/// In a well-formed store, a provider's entry is what its events made of a
/// fresh one, and none of them took place after the store's latest time.
proof fn lemma_entry_from_events(s: HealthStore, provider: Seq<char>)
    requires
        s.well_formed(),
    ensures
        s@.entry(provider) == after_events(
            initial_store(s@.threshold, s@.open_duration_ns),
            provider,
            s.events_of(provider),
        ).entry(provider),
        events_no_later_than(s.events_of(provider), s.clock()),
        initial_store(s@.threshold, s@.open_duration_ns).entry(provider) == fresh_entry(),
{
    if s.entries@.contains_key(provider) {
        assert(s@.entries.contains_key(provider));
    } else {
        assert(!s@.entries.contains_key(provider));
    }
}

impl HealthStore {
    /// An empty store whose circuits open after `threshold` consecutive
    /// failures and stay open for `open_duration_ns` nanoseconds.
    pub fn new(threshold: u32, open_duration_ns: u128) -> (s: Self)
        ensures
            s@.threshold == threshold,
            s@.open_duration_ns == open_duration_ns,
            s@.entries == Map::<Seq<char>, HealthEntry>::empty(),
            forall|p: Seq<char>| #[trigger] s.events_of(p) == Seq::<HealthEvent>::empty(),
    {
        let s = HealthStore {
            threshold,
            open_duration_ns,
            origin: instant_now(),
            latest: 0,
            entries: StringHashMap::new(),
        };
        assert(s@.entries =~= Map::<Seq<char>, HealthEntry>::empty());
        s
    }

    /// The current time of the store's clock, in nanoseconds. It never
    /// reads below a time that the store has already seen.
    pub fn now_ns(&self) -> (t: u128)
        ensures
            t >= self.clock(),
    {
        let reading = nanos_since(&self.origin);
        if reading >= self.latest {
            reading
        } else {
            self.latest
        }
    }

    /// A copy of the entry of `provider`, or a fresh one.
    fn entry_copy(&self, provider: &str) -> (e: HealthEntry)
        ensures
            e == self@.entry(provider@),
    {
        match self.entries.get(provider) {
            Some(slot) => {
                assert(self@.entries.contains_key(provider@));
                HealthEntry {
                    successes: slot.entry.successes,
                    failures: slot.entry.failures,
                    consecutive_failures: slot.entry.consecutive_failures,
                    open_until: slot.entry.open_until,
                    last_error: clone_text(&slot.entry.last_error),
                    last_latency_ms: slot.entry.last_latency_ms,
                }
            },
            None => {
                assert(!self@.entries.contains_key(provider@));
                fresh()
            },
        }
    }

    /// Moves the store's latest time up to `now`, if it is later.
    fn see(&mut self, now: u128)
        ensures
            final(self)@ == old(self)@,
            final(self).clock() == later_time(old(self).clock(), now),
            forall|p: Seq<char>| #[trigger] final(self).events_of(p) == old(self).events_of(p),
    {
        proof {
            use_type_invariant(&*self);
        }
        if now > self.latest {
            proof {
                assert forall|p: Seq<char>| #[trigger] self.entries@.contains_key(p) implies events_no_later_than(
                    self.entries@[p].events@,
                    now,
                ) by {
                    let evs = self.entries@[p].events@;
                    assert(events_no_later_than(evs, self.latest));
                    assert forall|i: int| 0 <= i < evs.len() implies event_no_later_than(
                        #[trigger] evs[i],
                        now,
                    ) by {
                        assert(event_no_later_than(evs[i], self.latest));
                    }
                }
            }
            self.latest = now;
        }
        assert(self@ == old(self)@);
    }

    /// Makes `e` the entry of `provider`, as it is after `event`.
    fn put_entry(&mut self, provider: &str, e: HealthEntry, Ghost(event): Ghost<HealthEvent>)
        requires
            e == entry_after(old(self)@.entry(provider@), event, old(self)@.threshold, old(self)@.open_duration_ns),
            event_no_later_than(event, old(self).clock()),
        ensures
            final(self)@ == old(self)@.with_entry(provider@, e),
            final(self).events_of(provider@) == old(self).events_of(provider@).push(event),
            forall|p: Seq<char>| p != provider@ ==> #[trigger] final(self).events_of(p) == old(self).events_of(p),
            final(self).clock() == old(self).clock(),
    {
        proof {
            use_type_invariant(&*self);
            lemma_entry_from_events(*self, provider@);
        }
        let ghost before = self.events_of(provider@);
        let ghost evs = before.push(event);
        let ghost h0 = initial_store(self.threshold, self.open_duration_ns);
        proof {
            assert(evs.drop_last() =~= before);
            assert(evs.last() == event);
            lemma_after_events_settings(h0, provider@, before);
            assert(after_events(h0, provider@, evs).entry(provider@) == e);
            assert forall|i: int| 0 <= i < evs.len() implies event_no_later_than(#[trigger] evs[i], self.latest) by {
                if i < before.len() {
                    assert(evs[i] == before[i]);
                }
            }
        }
        let mut taken = HealthStore {
            threshold: self.threshold,
            open_duration_ns: self.open_duration_ns,
            origin: self.origin,
            latest: self.latest,
            entries: StringHashMap::new(),
        };
        std::mem::swap(self, &mut taken);
        let HealthStore { threshold, open_duration_ns, origin, latest, mut entries } = taken;
        entries.insert(provider.to_owned(), Slot { entry: e, events: Ghost(evs) });
        *self = HealthStore { threshold, open_duration_ns, origin, latest, entries };
        proof {
            assert(self@.entries =~= old(self)@.entries.insert(provider@, e));
        }
    }

    /// Whether `provider` may be tried at time `now`. A circuit whose time
    /// has come is closed on the way, and the provider gets an entry. At a
    /// time no earlier than the store has seen, the answer is the rule of
    /// the circuit breaker over everything that happened to the provider.
    pub fn is_available_at(&mut self, provider: &str, now: u128) -> (res: bool)
        ensures
            res == old(self)@.available(provider@, now),
            final(self)@ == old(self)@.checked(provider@, now),
            now >= old(self).clock() ==> (res <==> !circuit_open_at(
                old(self).events_of(provider@),
                old(self)@.threshold,
                old(self)@.open_duration_ns,
                now,
            )),
            final(self).events_of(provider@) == old(self).events_of(provider@).push(HealthEvent::Checked(now)),
            forall|p: Seq<char>| p != provider@ ==> #[trigger] final(self).events_of(p) == old(self).events_of(p),
            final(self).clock() == later_time(old(self).clock(), now),
    {
        proof {
            use_type_invariant(&*self);
            lemma_entry_from_events(*self, provider@);
            if now >= self.clock() {
                let evs = self.events_of(provider@);
                assert forall|i: int| 0 <= i < evs.len() implies ((#[trigger] evs[i]) matches HealthEvent::Checked(
                    t,
                ) ==> t <= now) by {
                    assert(event_no_later_than(evs[i], self.latest));
                }
                lemma_circuit_breaker(initial_store(self.threshold, self.open_duration_ns), provider@, evs, now);
            }
        }
        let mut e = self.entry_copy(provider);
        let res = match e.open_until {
            Some(until) => until <= now,
            None => true,
        };
        if res {
            e.open_until = None;
        }
        self.see(now);
        self.put_entry(provider, e, Ghost(HealthEvent::Checked(now)));
        res
    }

    /// Whether `provider` may be tried at time `now`, without the closing of
    /// an expired circuit that [`HealthStore::is_available_at`] does.
    pub fn available_at(&self, provider: &str, now: u128) -> (res: bool)
        ensures
            res == self@.available(provider@, now),
    {
        let e = self.entry_copy(provider);
        match e.open_until {
            Some(until) => until <= now,
            None => true,
        }
    }

    /// Whether `provider` may be tried now: by the rule of the circuit
    /// breaker, over everything that happened to the provider, at a reading
    /// of the clock no earlier than any time that the store has seen.
    pub fn is_available(&mut self, provider: &str) -> (res: bool)
        ensures
            exists|now: u128|
                #![trigger old(self)@.checked(provider@, now)]
                {
                    &&& now >= old(self).clock()
                    &&& res == old(self)@.available(provider@, now)
                    &&& final(self)@ == old(self)@.checked(provider@, now)
                    &&& res == !circuit_open_at(
                        old(self).events_of(provider@),
                        old(self)@.threshold,
                        old(self)@.open_duration_ns,
                        now,
                    )
                    &&& final(self).events_of(provider@) == old(self).events_of(provider@).push(
                        HealthEvent::Checked(now),
                    )
                    &&& final(self).clock() == now
                },
            forall|p: Seq<char>| p != provider@ ==> #[trigger] final(self).events_of(p) == old(self).events_of(p),
    {
        let now = self.now_ns();
        self.is_available_at(provider, now)
    }

    /// The ranking penalty of `provider`: its run of consecutive failures,
    /// the number of failures since its last success.
    pub fn penalty(&self, provider: &str) -> (p: u32)
        ensures
            p == self@.penalty(provider@),
            p == saturated_count(failures_since_success(self.events_of(provider@))),
    {
        proof {
            use_type_invariant(self);
            lemma_entry_from_events(*self, provider@);
            lemma_penalty_law(initial_store(self.threshold, self.open_duration_ns), provider@, self.events_of(provider@));
        }
        let e = self.entry_copy(provider);
        e.consecutive_failures
    }

    /// Records a success of `provider` with the given latency: the run of
    /// failures ends and its circuit closes.
    pub fn record_success(&mut self, provider: &str, latency_ms: u128)
        ensures
            final(self)@ == old(self)@.succeeded(provider@, latency_ms),
            final(self).events_of(provider@) == old(self).events_of(provider@).push(
                HealthEvent::Succeeded(latency_ms),
            ),
            forall|p: Seq<char>| p != provider@ ==> #[trigger] final(self).events_of(p) == old(self).events_of(p),
            final(self).clock() == old(self).clock(),
    {
        let mut e = self.entry_copy(provider);
        e.successes = if e.successes < u64::MAX {
            e.successes + 1
        } else {
            e.successes
        };
        e.consecutive_failures = 0;
        e.open_until = None;
        e.last_error = None;
        e.last_latency_ms = Some(latency_ms);
        self.put_entry(provider, e, Ghost(HealthEvent::Succeeded(latency_ms)));
    }

    /// Records a failure of `provider` at time `now`.
    pub fn record_failure_at(&mut self, provider: &str, message: String, now: u128)
        ensures
            final(self)@ == old(self)@.failed(provider@, message, now),
            final(self).events_of(provider@) == old(self).events_of(provider@).push(
                HealthEvent::Failed(message, now),
            ),
            forall|p: Seq<char>| p != provider@ ==> #[trigger] final(self).events_of(p) == old(self).events_of(p),
            final(self).clock() == later_time(old(self).clock(), now),
    {
        let ghost m = message;
        let mut e = self.entry_copy(provider);
        e.failures = if e.failures < u64::MAX {
            e.failures + 1
        } else {
            e.failures
        };
        e.consecutive_failures = if e.consecutive_failures < u32::MAX {
            e.consecutive_failures + 1
        } else {
            e.consecutive_failures
        };
        e.last_error = Some(message);
        if e.consecutive_failures >= self.threshold {
            e.open_until = Some(
                if now <= u128::MAX - self.open_duration_ns {
                    now + self.open_duration_ns
                } else {
                    u128::MAX
                },
            );
        }
        self.see(now);
        self.put_entry(provider, e, Ghost(HealthEvent::Failed(m, now)));
    }

    /// Records a failure of `provider` now, at a reading of the clock no
    /// earlier than any time that the store has seen.
    pub fn record_failure(&mut self, provider: &str, message: String)
        ensures
            exists|now: u128|
                #![trigger old(self)@.failed(provider@, message, now)]
                {
                    &&& now >= old(self).clock()
                    &&& final(self)@ == old(self)@.failed(provider@, message, now)
                    &&& final(self).events_of(provider@) == old(self).events_of(provider@).push(
                        HealthEvent::Failed(message, now),
                    )
                    &&& final(self).clock() == now
                },
            forall|p: Seq<char>| p != provider@ ==> #[trigger] final(self).events_of(p) == old(self).events_of(p),
    {
        let now = self.now_ns();
        self.record_failure_at(provider, message, now)
    }

    /// The health of one provider at time `now`.
    pub fn snapshot_at(&self, provider: &String, now: u128) -> (snap: HealthSnapshot)
        ensures
            self@.reports(snap, provider@, now),
    {
        let e = self.entry_copy(provider.as_str());
        let remaining = match e.open_until {
            Some(until) => if until >= now {
                Some((until - now) / 1_000_000)
            } else {
                None
            },
            None => None,
        };
        HealthSnapshot {
            provider: provider.clone(),
            successes: e.successes,
            failures: e.failures,
            consecutive_failures: e.consecutive_failures,
            circuit_open: remaining.is_some(),
            circuit_remaining_ms: remaining,
            last_error: e.last_error,
            last_latency_ms: e.last_latency_ms,
        }
    }

    /// The health of each of `provider_names` at time `now`, in order.
    pub fn snapshots_at(&self, provider_names: &Vec<String>, now: u128) -> (snaps: Vec<HealthSnapshot>)
        ensures
            self@.reports_all(snaps@, provider_names@, now),
    {
        let mut snaps: Vec<HealthSnapshot> = Vec::new();
        let mut i: usize = 0;
        while i < provider_names.len()
            invariant
                i <= provider_names.len(),
                snaps.len() == i,
                forall|j: int|
                    0 <= j < i ==> self@.reports(#[trigger] snaps@[j], provider_names@[j]@, now),
            decreases provider_names.len() - i,
        {
            let snap = self.snapshot_at(&provider_names[i], now);
            snaps.push(snap);
            i = i + 1;
        }
        snaps
    }

    /// The health of each of `provider_names` now, in order, at a reading
    /// of the clock no earlier than any time that the store has seen.
    pub fn snapshots(&self, provider_names: &Vec<String>) -> (snaps: Vec<HealthSnapshot>)
        ensures
            exists|now: u128| now >= self.clock() && #[trigger] self@.reports_all(snaps@, provider_names@, now),
    {
        let now = self.now_ns();
        self.snapshots_at(provider_names, now)
    }
}


/// The store after failures of `provider`, the `i`-th with `messages[i]` at
/// `times[i]`, in order.
pub open spec fn failed_in_turn(
    h: HealthStoreView,
    provider: Seq<char>,
    messages: Seq<String>,
    times: Seq<u128>,
) -> HealthStoreView
    decreases messages.len(),
{
    if messages.len() == 0 || times.len() != messages.len() {
        h
    } else {
        failed_in_turn(h, provider, messages.drop_last(), times.drop_last()).failed(
            provider,
            messages.last(),
            times.last(),
        )
    }
}

/// In a store that has seen nothing, every provider may be tried at every
/// time and has no penalty.
pub proof fn lemma_fresh_store_is_open(h: HealthStoreView, provider: Seq<char>, now: u128)
    requires
        h.entries == Map::<Seq<char>, HealthEntry>::empty(),
    ensures
        h.available(provider, now),
        h.penalty(provider) == 0,
{
}

/// The entry of `provider` through a run of failures that starts from a
/// closed circuit and no failures: the run is counted, and the circuit stays
/// closed until the run reaches the threshold, when it opens until
/// `open_duration_ns` after the last failure.
proof fn lemma_run_of_failures(h: HealthStoreView, provider: Seq<char>, messages: Seq<String>, times: Seq<u128>)
    requires
        h.entry(provider).consecutive_failures == 0,
        h.entry(provider).open_until is None,
        messages.len() == times.len(),
        messages.len() <= h.threshold,
    ensures
        failed_in_turn(h, provider, messages, times).threshold == h.threshold,
        failed_in_turn(h, provider, messages, times).open_duration_ns == h.open_duration_ns,
        failed_in_turn(h, provider, messages, times).entry(provider).consecutive_failures == messages.len(),
        messages.len() < h.threshold ==> failed_in_turn(h, provider, messages, times).entry(
            provider,
        ).open_until is None,
        messages.len() == h.threshold && messages.len() > 0 ==> failed_in_turn(
            h,
            provider,
            messages,
            times,
        ).entry(provider).open_until == Some(add_time(times.last(), h.open_duration_ns)),
    decreases messages.len(),
{
    if messages.len() > 0 {
        lemma_run_of_failures(h, provider, messages.drop_last(), times.drop_last());
    }
}

/// The circuit breaker: starting from a closed circuit and no failures, a
/// provider stays available through fewer than `threshold` consecutive
/// failures; the failure that brings the run to `threshold` opens its
/// circuit, so that it is passed over until `open_duration_ns` after that
/// failure and may be tried again from then on.
pub proof fn lemma_circuit_opens_at_threshold(
    h: HealthStoreView,
    provider: Seq<char>,
    messages: Seq<String>,
    times: Seq<u128>,
    t: u128,
)
    requires
        h.entry(provider).consecutive_failures == 0,
        h.entry(provider).open_until is None,
        messages.len() == times.len(),
        1 <= messages.len() <= h.threshold,
    ensures
        failed_in_turn(h, provider, messages, times).penalty(provider) == messages.len(),
        messages.len() < h.threshold ==> failed_in_turn(h, provider, messages, times).available(
            provider,
            t,
        ),
        messages.len() == h.threshold ==> (failed_in_turn(h, provider, messages, times).available(
            provider,
            t,
        ) <==> t >= add_time(times.last(), h.open_duration_ns)),
{
    lemma_run_of_failures(h, provider, messages, times);
}

/// A failure counts against the provider and is remembered as its last
/// error; while the run stays below the threshold, it leaves the provider's
/// availability as it was.
pub proof fn lemma_failure_counts(h: HealthStoreView, provider: Seq<char>, message: String, now: u128, t: u128)
    ensures
        h.failed(provider, message, now).penalty(provider) == inc32(h.penalty(provider)),
        h.failed(provider, message, now).entry(provider).failures == inc64(h.entry(provider).failures),
        h.failed(provider, message, now).entry(provider).last_error == Some(message),
        inc32(h.penalty(provider)) < h.threshold ==> h.failed(provider, message, now).available(provider, t)
            == h.available(provider, t),
{
}

/// A success ends the provider's run of failures and closes its circuit:
/// afterwards it may be tried at every time, has no penalty and no last
/// error, and its successes are counted.
pub proof fn lemma_success_closes_circuit(h: HealthStoreView, provider: Seq<char>, latency_ms: u128, t: u128)
    ensures
        h.succeeded(provider, latency_ms).available(provider, t),
        h.succeeded(provider, latency_ms).penalty(provider) == 0,
        h.succeeded(provider, latency_ms).entry(provider).last_error is None,
        h.succeeded(provider, latency_ms).entry(provider).last_latency_ms == Some(latency_ms),
        h.succeeded(provider, latency_ms).entry(provider).successes == inc64(h.entry(provider).successes),
{
}

/// What happens to one provider leaves every other provider's entry as it was.
pub proof fn lemma_other_providers_untouched(
    h: HealthStoreView,
    provider: Seq<char>,
    other: Seq<char>,
    message: String,
    latency_ms: u128,
    now: u128,
)
    requires
        provider != other,
    ensures
        h.failed(provider, message, now).entry(other) == h.entry(other),
        h.succeeded(provider, latency_ms).entry(other) == h.entry(other),
        h.checked(provider, now).entry(other) == h.entry(other),
{
}

/// An availability check changes no provider's availability at that time,
/// nor any penalty.
pub proof fn lemma_check_keeps_availability(h: HealthStoreView, provider: Seq<char>, other: Seq<char>, now: u128)
    ensures
        h.checked(provider, now).available(other, now) == h.available(other, now),
        h.checked(provider, now).penalty(other) == h.penalty(other),
{
}


/// Something that happens to one provider's entry in the store.
pub enum HealthEvent {
    /// A failure with this message at this time.
    Failed(String, u128),
    /// An availability check at this time.
    Checked(u128),
    /// A success with this latency.
    Succeeded(u128),
}

/// The store after `events` happened to `provider`, in order.
pub open spec fn after_events(h: HealthStoreView, provider: Seq<char>, events: Seq<HealthEvent>) -> HealthStoreView
    decreases events.len(),
{
    if events.len() == 0 {
        h
    } else {
        let prev = after_events(h, provider, events.drop_last());
        match events.last() {
            HealthEvent::Failed(message, t) => prev.failed(provider, message, t),
            HealthEvent::Checked(t) => prev.checked(provider, t),
            HealthEvent::Succeeded(latency) => prev.succeeded(provider, latency),
        }
    }
}

/// The number of failures among `events` since the last success.
pub open spec fn failures_since_success(events: Seq<HealthEvent>) -> nat
    decreases events.len(),
{
    if events.len() == 0 {
        0
    } else {
        match events.last() {
            HealthEvent::Failed(_, _) => failures_since_success(events.drop_last()) + 1,
            HealthEvent::Checked(_) => failures_since_success(events.drop_last()),
            HealthEvent::Succeeded(_) => 0,
        }
    }
}

/// The time of the last failure among `events` (zero if there is none).
pub open spec fn last_failure_time(events: Seq<HealthEvent>) -> u128
    decreases events.len(),
{
    if events.len() == 0 {
        0
    } else {
        match events.last() {
            HealthEvent::Failed(_, t) => t,
            _ => last_failure_time(events.drop_last()),
        }
    }
}

/// Whether `e` is an availability check at `t` or later.
pub open spec fn check_at_or_after(e: HealthEvent, t: int) -> bool {
    e matches HealthEvent::Checked(c) && c >= t
}

/// Whether some availability check among `events` took place at `t` or later.
pub open spec fn checked_since(events: Seq<HealthEvent>, t: int) -> bool {
    exists|i: int| 0 <= i < events.len() && check_at_or_after(#[trigger] events[i], t)
}

/// A count of events as the store keeps it: the count itself, or the
/// largest `u32` where the count does not fit.
pub open spec fn saturated_count(n: nat) -> u32 {
    if n <= u32::MAX {
        n as u32
    } else {
        u32::MAX
    }
}

/// Whether every failure and every check among `events` took place at `t`
/// or earlier.
pub open spec fn events_no_later_than(events: Seq<HealthEvent>, t: u128) -> bool {
    forall|i: int|
        0 <= i < events.len() ==> match #[trigger] events[i] {
            HealthEvent::Failed(_, at) => at <= t,
            HealthEvent::Checked(at) => at <= t,
            HealthEvent::Succeeded(_) => true,
        }
}

/// The time until which the circuit of a provider is open after `events`,
/// by the rule of the circuit breaker, with `threshold` and `open_duration_ns`:
/// once the failures since the last success have reached the threshold, the
/// circuit is open until `open_duration_ns` after the last of them.
pub open spec fn circuit_open_at(events: Seq<HealthEvent>, threshold: u32, open_duration_ns: u128, now: u128) -> bool {
    let k = failures_since_success(events);
    k > 0 && k >= threshold && now < add_time(last_failure_time(events), open_duration_ns)
}

/// The run of failures after `events`, from no failures: the number of
/// failures since the last success, as the store counts it.
proof fn lemma_events_run(h: HealthStoreView, provider: Seq<char>, events: Seq<HealthEvent>)
    requires
        h.entry(provider).consecutive_failures == 0,
    ensures
        after_events(h, provider, events).threshold == h.threshold,
        after_events(h, provider, events).open_duration_ns == h.open_duration_ns,
        after_events(h, provider, events).entry(provider).consecutive_failures == saturated_count(
            failures_since_success(events),
        ),
    decreases events.len(),
{
    if events.len() > 0 {
        lemma_events_run(h, provider, events.drop_last());
    }
}

/// What the entry of `provider` is after `events`, from a closed circuit and
/// no failures: the circuit is closed while the run is below the threshold;
/// otherwise it is open until `open_duration_ns` after the last failure,
/// unless a check at that time or later has closed it.
proof fn lemma_events_entry(h: HealthStoreView, provider: Seq<char>, events: Seq<HealthEvent>)
    requires
        h.entry(provider).consecutive_failures == 0,
        h.entry(provider).open_until is None,
    ensures
        ({
            let k = failures_since_success(events);
            let until = add_time(last_failure_time(events), h.open_duration_ns);
            let e = after_events(h, provider, events).entry(provider);
            if k > 0 && k >= h.threshold {
                e.open_until == Some(until) || (e.open_until is None && checked_since(events, until as int))
            } else {
                e.open_until is None
            }
        }),
    decreases events.len(),
{
    lemma_events_run(h, provider, events);
    if events.len() > 0 {
        let prev = events.drop_last();
        lemma_events_entry(h, provider, prev);
        lemma_events_run(h, provider, prev);
        let d = h.open_duration_ns;
        let until = add_time(last_failure_time(prev), d);
        assert(events[events.len() - 1] == events.last());
        match events.last() {
            HealthEvent::Checked(t) => {
                if checked_since(prev, until as int) {
                    let i = choose|i: int|
                        0 <= i < prev.len() && check_at_or_after(#[trigger] prev[i], until as int);
                    assert(events[i] == prev[i]);
                }
            },
            HealthEvent::Failed(_, t) => {
                let k = failures_since_success(events);
                let run = saturated_count(k);
                assert(run >= h.threshold <==> k >= h.threshold);
            },
            HealthEvent::Succeeded(_) => {},
        }
    }
}

/// The penalty law: for any events that happen to a provider from no
/// failures, its penalty is the number of failures since the last success
/// (as much of it as a `u32` holds).
pub proof fn lemma_penalty_law(h: HealthStoreView, provider: Seq<char>, events: Seq<HealthEvent>)
    requires
        h.entry(provider).consecutive_failures == 0,
    ensures
        after_events(h, provider, events).penalty(provider) == saturated_count(failures_since_success(events)),
{
    lemma_events_run(h, provider, events);
}

/// The circuit breaker, for any events that happen to one provider from a
/// closed circuit with no failures, checks in between included: at a time
/// `now` no earlier than any check, it may be tried unless the failures
/// since the last success have reached the threshold and `now` comes before
/// `open_duration_ns` after the last of them.
pub proof fn lemma_circuit_breaker(h: HealthStoreView, provider: Seq<char>, events: Seq<HealthEvent>, now: u128)
    requires
        h.entry(provider).consecutive_failures == 0,
        h.entry(provider).open_until is None,
        forall|i: int| 0 <= i < events.len() ==> ((#[trigger] events[i]) matches HealthEvent::Checked(t) ==> t <= now),
    ensures
        after_events(h, provider, events).available(provider, now) <==> !circuit_open_at(
            events,
            h.threshold,
            h.open_duration_ns,
            now,
        ),
{
    lemma_events_entry(h, provider, events);
    lemma_events_run(h, provider, events);
    let until = add_time(last_failure_time(events), h.open_duration_ns);
    let k = failures_since_success(events);
    let e = after_events(h, provider, events).entry(provider);
    if k > 0 && k >= h.threshold {
        if e.open_until is None {
            let i = choose|i: int|
                0 <= i < events.len() && check_at_or_after(#[trigger] events[i], until as int);
            assert(events[i] matches HealthEvent::Checked(c) && c <= now);
        }
    }
}

} // verus!
