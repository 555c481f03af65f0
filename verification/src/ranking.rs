//! The order in which providers are tried.
//!
//! Every provider gets a key, and providers are sorted by key, smallest
//! first. For a search the key is: first a large penalty when the provider's
//! circuit is open; then whether the request wants the richer answers that
//! Tavily gives; then the provider's place in the configured order; then its
//! run of consecutive failures; last its name. Extraction and crawling use
//! only the open-circuit penalty, the run of failures and the name.

use vstd::prelude::*;
use crate::config::GatewayConfig;
use crate::health::{HealthStore, HealthStoreView, lemma_check_keeps_availability};
use crate::clock::later_time;
use crate::models::{SearchDepth, SearchRequest, ExtractRequest, CrawlRequest};
use crate::text::{chars_of, views};

verus! {

/// The key by which a provider is ranked.
pub struct RankKey {
    pub open_penalty: int,
    pub rich_penalty: int,
    pub static_order: int,
    pub health_penalty: int,
    pub name: Seq<char>,
}

/// `a` comes no later than `b` in the order of texts that `str` has
/// (lexicographic by character).
pub open spec fn text_le(a: Seq<char>, b: Seq<char>) -> bool
    decreases a.len(),
{
    if a.len() == 0 {
        true
    } else if b.len() == 0 {
        false
    } else if a[0] < b[0] {
        true
    } else if a[0] > b[0] {
        false
    } else {
        text_le(a.drop_first(), b.drop_first())
    }
}

/// `a` ranks no later than `b`: keys are compared part by part, in order.
pub open spec fn key_le(a: RankKey, b: RankKey) -> bool {
    if a.open_penalty != b.open_penalty {
        a.open_penalty < b.open_penalty
    } else if a.rich_penalty != b.rich_penalty {
        a.rich_penalty < b.rich_penalty
    } else if a.static_order != b.static_order {
        a.static_order < b.static_order
    } else if a.health_penalty != b.health_penalty {
        a.health_penalty < b.health_penalty
    } else {
        text_le(a.name, b.name)
    }
}

/// Whether a search asks for what Tavily answers better than the others: an
/// answer (asked for unless turned off), raw content, images, an advanced
/// depth or a topic. Only Tavily is preferred for it.
pub open spec fn prefers_rich(request: SearchRequest, name: Seq<char>) -> bool {
    name == "tavily"@ && (match request.include_answer {
        Some(b) => b,
        None => true,
    } || request.include_raw_content == Some(true) || request.include_images == Some(true)
        || request.search_depth == Some(SearchDepth::Advanced) || request.topic is Some)
}

/// The first place at or after `i` where `name` stands in `order`, or -1.
pub open spec fn place_from(order: Seq<Seq<char>>, name: Seq<char>, i: int) -> int
    decreases order.len() - i,
{
    if i < 0 || i >= order.len() {
        -1
    } else if order[i] == name {
        i
    } else {
        place_from(order, name, i + 1)
    }
}

/// The place of `name` in the configured order; providers that are not in
/// it come after all that are.
pub open spec fn static_rank(order: Seq<Seq<char>>, name: Seq<char>) -> int {
    let p = place_from(order, name, 0);
    if p >= 0 {
        p
    } else {
        (usize::MAX / 2) as int
    }
}

pub open spec fn open_penalty_of(h: HealthStoreView, name: Seq<char>, now: u128) -> int {
    if h.available(name, now) {
        0
    } else {
        1000
    }
}

/// The key of a search provider.
pub open spec fn search_key(
    config: GatewayConfig,
    h: HealthStoreView,
    request: SearchRequest,
    now: u128,
    name: Seq<char>,
) -> RankKey {
    RankKey {
        open_penalty: open_penalty_of(h, name, now),
        rich_penalty: if prefers_rich(request, name) {
            0
        } else {
            1
        },
        static_order: static_rank(views(config.search_provider_order@), name),
        health_penalty: h.penalty(name) as int,
        name,
    }
}

/// The key of a provider for extraction and crawling.
pub open spec fn capability_key(h: HealthStoreView, now: u128, name: Seq<char>) -> RankKey {
    RankKey {
        open_penalty: open_penalty_of(h, name, now),
        rich_penalty: 0,
        static_order: 0,
        health_penalty: h.penalty(name) as int,
        name,
    }
}

/// The store after an availability check of each of `names` at `now`, in order.
pub open spec fn checked_all(h: HealthStoreView, names: Seq<Seq<char>>, now: u128) -> HealthStoreView
    decreases names.len(),
{
    if names.len() == 0 {
        h
    } else {
        checked_all(h, names.drop_last(), now).checked(names.last(), now)
    }
}

/// Whether `ranked` is sorted by the key that `key` gives to each name.
pub open spec fn sorted_by(ranked: Seq<String>, key: spec_fn(Seq<char>) -> RankKey) -> bool {
    forall|i: int, j: int| 0 <= i < j < ranked.len() ==> key_le(key(ranked[i]@), key(ranked[j]@))
}

pub proof fn lemma_text_le_total(a: Seq<char>, b: Seq<char>)
    ensures
        text_le(a, b) || text_le(b, a),
    decreases a.len(),
{
    if a.len() > 0 && b.len() > 0 && a[0] == b[0] {
        lemma_text_le_total(a.drop_first(), b.drop_first());
    }
}

pub proof fn lemma_text_le_trans(a: Seq<char>, b: Seq<char>, c: Seq<char>)
    requires
        text_le(a, b),
        text_le(b, c),
    ensures
        text_le(a, c),
    decreases a.len(),
{
    if a.len() > 0 && b.len() > 0 && c.len() > 0 && a[0] == b[0] && b[0] == c[0] {
        lemma_text_le_trans(a.drop_first(), b.drop_first(), c.drop_first());
    }
}

pub proof fn lemma_key_le_total(a: RankKey, b: RankKey)
    ensures
        key_le(a, b) || key_le(b, a),
{
    lemma_text_le_total(a.name, b.name);
}

pub proof fn lemma_key_le_trans(a: RankKey, b: RankKey, c: RankKey)
    requires
        key_le(a, b),
        key_le(b, c),
    ensures
        key_le(a, c),
{
    if a.open_penalty == b.open_penalty && b.open_penalty == c.open_penalty && a.rich_penalty
        == b.rich_penalty && b.rich_penalty == c.rich_penalty && a.static_order == b.static_order
        && b.static_order == c.static_order && a.health_penalty == b.health_penalty
        && b.health_penalty == c.health_penalty {
        lemma_text_le_trans(a.name, b.name, c.name);
    }
}

/// Availability checks of any providers at `now` change no provider's
/// availability at that time, nor any penalty.
pub proof fn lemma_checked_all_keeps_standing(h: HealthStoreView, names: Seq<Seq<char>>, q: Seq<char>, now: u128)
    ensures
        checked_all(h, names, now).available(q, now) == h.available(q, now),
        checked_all(h, names, now).penalty(q) == h.penalty(q),
    decreases names.len(),
{
    if names.len() > 0 {
        lemma_checked_all_keeps_standing(h, names.drop_last(), q, now);
        lemma_check_keeps_availability(checked_all(h, names.drop_last(), now), names.last(), q, now);
    }
}

/// A key in executable form.
struct ExecKey {
    open_penalty: u32,
    rich_penalty: u8,
    static_order: usize,
    health_penalty: u32,
    chars: Vec<char>,
}

impl ExecKey {
    spec fn key(&self) -> RankKey {
        RankKey {
            open_penalty: self.open_penalty as int,
            rich_penalty: self.rich_penalty as int,
            static_order: self.static_order as int,
            health_penalty: self.health_penalty as int,
            name: self.chars@,
        }
    }
}

fn text_le_exec(a: &Vec<char>, b: &Vec<char>) -> (res: bool)
    ensures
        res == text_le(a@, b@),
{
    let mut i: usize = 0;
    assert(a@.subrange(0, a.len() as int) =~= a@);
    assert(b@.subrange(0, b.len() as int) =~= b@);
    while i < a.len() && i < b.len() && a[i] == b[i]
        invariant
            i <= a.len(),
            i <= b.len(),
            text_le(a@, b@) == text_le(a@.subrange(i as int, a.len() as int), b@.subrange(i as int, b.len() as int)),
        decreases a.len() - i,
    {
        proof {
            let sa = a@.subrange(i as int, a.len() as int);
            let sb = b@.subrange(i as int, b.len() as int);
            assert(sa.drop_first() =~= a@.subrange(i + 1, a.len() as int));
            assert(sb.drop_first() =~= b@.subrange(i + 1, b.len() as int));
            assert(sa[0] == sb[0]);
        }
        i = i + 1;
    }
    let ghost sa = a@.subrange(i as int, a.len() as int);
    let ghost sb = b@.subrange(i as int, b.len() as int);
    if i == a.len() {
        assert(sa.len() == 0);
        true
    } else if i == b.len() {
        assert(sb.len() == 0);
        false
    } else {
        assert(sa[0] == a@[i as int] && sb[0] == b@[i as int]);
        a[i] < b[i]
    }
}

fn key_le_exec(a: &ExecKey, b: &ExecKey) -> (res: bool)
    ensures
        res == key_le(a.key(), b.key()),
{
    if a.open_penalty != b.open_penalty {
        a.open_penalty < b.open_penalty
    } else if a.rich_penalty != b.rich_penalty {
        a.rich_penalty < b.rich_penalty
    } else if a.static_order != b.static_order {
        a.static_order < b.static_order
    } else if a.health_penalty != b.health_penalty {
        a.health_penalty < b.health_penalty
    } else {
        text_le_exec(&a.chars, &b.chars)
    }
}

/// Sorts `names` by the keys `keys` gives them, keeping the earlier of two
/// names with equal keys first.
fn sort_by_keys(names: Vec<String>, keys: Vec<ExecKey>, key: Ghost<spec_fn(Seq<char>) -> RankKey>) -> (res: Vec<String>)
    requires
        names.len() == keys.len(),
        forall|i: int| 0 <= i < names.len() ==> (#[trigger] keys@[i]).key() == key@(names@[i]@),
    ensures
        res@.to_multiset() == names@.to_multiset(),
        sorted_by(res@, key@),
{
    broadcast use vstd::seq_lib::to_multiset_insert;

    let mut out: Vec<String> = Vec::new();
    let mut out_keys: Vec<ExecKey> = Vec::new();
    let mut names = names;
    let mut keys = keys;
    let ghost orig = names@;
    proof {
        broadcast use vstd::seq_lib::group_to_multiset_ensures;
        assert(orig.take(orig.len() as int) =~= orig);
        assert(orig.skip(orig.len() as int) =~= Seq::<String>::empty());
        assert(out@ =~= Seq::<String>::empty());
    }
    // Walk the input from the back by popping, so that elements can be moved.
    // To keep the earlier of two equal names first, each element is inserted
    // before every element that is not strictly smaller.
    while names.len() > 0
        invariant
            names.len() == keys.len(),
            names.len() <= orig.len(),
            names@ == orig.take(names.len() as int),
            forall|i: int| 0 <= i < names.len() ==> (#[trigger] keys@[i]).key() == key@(names@[i]@),
            out.len() == out_keys.len(),
            forall|i: int| 0 <= i < out.len() ==> (#[trigger] out_keys@[i]).key() == key@(out@[i]@),
            out@.to_multiset() == orig.skip(names.len() as int).to_multiset(),
            sorted_by(out@, key@),
        decreases names.len(),
    {
        let ghost before_names = names@;
        let x = names.pop().unwrap();
        let kx = keys.pop().unwrap();
        proof {
            assert(before_names.len() > 0);
            assert(names@ == before_names.subrange(0, before_names.len() - 1));
            assert(before_names == orig.take(before_names.len() as int));
            assert(names@ =~= orig.take(names.len() as int));
            assert(orig.skip(names.len() as int) =~= seq![x].add(orig.skip(names.len() + 1)));
            assert(x == before_names[names.len() as int]);
        }
        let mut p: usize = 0;
        while p < out.len() && !key_le_exec(&kx, &out_keys[p])
            invariant
                p <= out.len(),
                out.len() == out_keys.len(),
                forall|i: int| 0 <= i < out.len() ==> (#[trigger] out_keys@[i]).key() == key@(out@[i]@),
                forall|i: int| 0 <= i < p ==> !key_le(kx.key(), #[trigger] key@(out@[i]@)),
            decreases out.len() - p,
        {
            p = p + 1;
        }
        proof {
            let k = kx.key();
            assert forall|i: int| 0 <= i < p implies key_le(#[trigger] key@(out@[i]@), k) by {
                lemma_key_le_total(k, key@(out@[i]@));
            }
            if p < out.len() {
                assert(key_le(k, key@(out@[p as int]@)));
                assert forall|j: int| p <= j < out.len() implies key_le(k, #[trigger] key@(out@[j]@)) by {
                    if j > p {
                        lemma_key_le_trans(k, key@(out@[p as int]@), key@(out@[j]@));
                    }
                }
            }
        }
        let ghost old_out = out@;
        out.insert(p, x);
        out_keys.insert(p, kx);
        proof {
            let k = kx.key();
            assert(out@ == old_out.insert(p as int, x));
            assert forall|i: int, j: int| 0 <= i < j < out@.len() implies key_le(
                key@(out@[i]@),
                key@(out@[j]@),
            ) by {
                if j < p {
                } else if i < p && j == p {
                } else if i < p && j > p {
                    lemma_key_le_trans(key@(out@[i]@), k, key@(out@[j]@));
                } else if i == p {
                } else {
                }
            }
            vstd::seq_lib::to_multiset_insert(old_out, p as int, x);
            assert(out@.to_multiset() == old_out.to_multiset().insert(x));
            assert(orig.skip(names.len() as int).to_multiset() == seq![x].add(orig.skip(names.len() + 1)).to_multiset());
            vstd::seq_lib::lemma_multiset_commutative(seq![x], orig.skip(names.len() + 1));
            assert(seq![x].to_multiset() =~= vstd::multiset::Multiset::singleton(x)) by {
                broadcast use vstd::seq_lib::group_to_multiset_ensures;
                assert(seq![x] =~= Seq::<String>::empty().push(x));
            }
            broadcast use vstd::seq_lib::group_to_multiset_ensures;
            assert(seq![x].add(orig.skip(names.len() + 1)).to_multiset() =~= orig.skip(names.len() + 1).to_multiset().insert(x));
        }
    }
    assert(orig.skip(0) =~= orig);
    out
}


/// Whether a search asks for the richer answers that Tavily gives, when
/// `provider_name` is Tavily.
pub fn prefer_rich_search_provider(request: &SearchRequest, provider_name: &String) -> (res: bool)
    ensures
        res == prefers_rich(*request, provider_name@),
{
    let tavily = "tavily".to_owned();
    if *provider_name != tavily {
        return false;
    }
    let answer = match request.include_answer {
        Some(b) => b,
        None => true,
    };
    let raw = match request.include_raw_content {
        Some(b) => b,
        None => false,
    };
    let images = match request.include_images {
        Some(b) => b,
        None => false,
    };
    let advanced = match request.search_depth {
        Some(SearchDepth::Advanced) => true,
        _ => false,
    };
    answer || raw || images || advanced || request.topic.is_some()
}

/// The place of `provider_name` in the configured search order.
pub fn static_search_rank(config: &GatewayConfig, provider_name: &String) -> (r: usize)
    ensures
        r as int == static_rank(views(config.search_provider_order@), provider_name@),
{
    let order = &config.search_provider_order;
    let ghost o = views(order@);
    let mut i: usize = 0;
    while i < order.len()
        invariant
            i <= order.len(),
            o == views(order@),
            o == views(config.search_provider_order@),
            place_from(o, provider_name@, 0) == place_from(o, provider_name@, i as int),
        decreases order.len() - i,
    {
        assert(o[i as int] == order@[i as int]@);
        if order[i] == *provider_name {
            assert(place_from(o, provider_name@, i as int) == i);
            return i;
        }
        i = i + 1;
    }
    usize::MAX / 2
}

fn search_key_of(
    config: &GatewayConfig,
    health: &HealthStore,
    request: &SearchRequest,
    now: u128,
    name: &String,
) -> (k: ExecKey)
    ensures
        k.key() == search_key(*config, health@, *request, now, name@),
{
    ExecKey {
        open_penalty: if health.available_at(name.as_str(), now) {
            0
        } else {
            1000
        },
        rich_penalty: if prefer_rich_search_provider(request, name) {
            0
        } else {
            1
        },
        static_order: static_search_rank(config, name),
        health_penalty: health.penalty(name.as_str()),
        chars: chars_of(name.as_str()),
    }
}

fn capability_key_of(health: &HealthStore, now: u128, name: &String) -> (k: ExecKey)
    ensures
        k.key() == capability_key(health@, now, name@),
{
    ExecKey {
        open_penalty: if health.available_at(name.as_str(), now) {
            0
        } else {
            1000
        },
        rich_penalty: 0,
        static_order: 0,
        health_penalty: health.penalty(name.as_str()),
        chars: chars_of(name.as_str()),
    }
}

/// The latest time of a health store whose latest time was `clock`, after
/// `count` availability checks at `now`.
pub open spec fn clock_after_checks(clock: u128, count: nat, now: u128) -> u128 {
    if count == 0 {
        clock
    } else {
        later_time(clock, now)
    }
}

/// Checks the availability of each provider at `now`, in order, as ranking
/// does: a circuit whose time has come is closed.
fn check_all(health: &mut HealthStore, providers: &Vec<String>, now: u128)
    ensures
        final(health)@ == checked_all(old(health)@, views(providers@), now),
        final(health).clock() == clock_after_checks(old(health).clock(), providers@.len(), now),
{
    let mut i: usize = 0;
    while i < providers.len()
        invariant
            i <= providers.len(),
            health@ == checked_all(old(health)@, views(providers@.take(i as int)), now),
            health.clock() == clock_after_checks(old(health).clock(), i as nat, now),
        decreases providers.len() - i,
    {
        assert(views(providers@.take(i + 1)).drop_last() =~= views(providers@.take(i as int)));
        health.is_available_at(providers[i].as_str(), now);
        i = i + 1;
    }
    assert(providers@.take(providers.len() as int) =~= providers@);
}

/// Search providers in the order in which they are tried, at time `now`.
pub fn rank_search_candidates_at(
    config: &GatewayConfig,
    health: &mut HealthStore,
    request: &SearchRequest,
    providers: Vec<String>,
    now: u128,
) -> (ranked: Vec<String>)
    ensures
        ranked@.to_multiset() == providers@.to_multiset(),
        sorted_by(ranked@, |n: Seq<char>| search_key(*config, old(health)@, *request, now, n)),
        final(health)@ == checked_all(old(health)@, views(providers@), now),
        final(health).clock() == clock_after_checks(old(health).clock(), providers@.len(), now),
{
    check_all(health, &providers, now);
    let ghost key = |n: Seq<char>| search_key(*config, old(health)@, *request, now, n);
    let mut keys: Vec<ExecKey> = Vec::new();
    let mut i: usize = 0;
    while i < providers.len()
        invariant
            i <= providers.len(),
            keys.len() == i,
            health@ == checked_all(old(health)@, views(providers@), now),
            forall|n: Seq<char>| #[trigger] key(n) == search_key(*config, old(health)@, *request, now, n),
            forall|j: int| 0 <= j < i ==> (#[trigger] keys@[j]).key() == key(providers@[j]@),
        decreases providers.len() - i,
    {
        let k = search_key_of(config, health, request, now, &providers[i]);
        proof {
            let nm = providers@[i as int]@;
            lemma_checked_all_keeps_standing(old(health)@, views(providers@), nm, now);
            assert(health@.available(nm, now) == old(health)@.available(nm, now));
            assert(health@.penalty(nm) == old(health)@.penalty(nm));
            assert(k.key() == key(nm));
        }
        let ghost prev = keys@;
        keys.push(k);
        assert(forall|j: int| 0 <= j < i ==> keys@[j] == prev[j]);
        i = i + 1;
    }
    sort_by_keys(providers, keys, Ghost(key))
}

/// Search providers in the order in which they are tried now.
pub fn rank_search_candidates(
    config: &GatewayConfig,
    health: &mut HealthStore,
    request: &SearchRequest,
    providers: Vec<String>,
) -> (ranked: Vec<String>)
    ensures
        ranked@.to_multiset() == providers@.to_multiset(),
        exists|now: u128|
            #![trigger checked_all(old(health)@, views(providers@), now)]
            now >= old(health).clock() && final(health).clock() == clock_after_checks(
                old(health).clock(),
                providers@.len(),
                now,
            ) && sorted_by(ranked@, |n: Seq<char>| search_key(*config, old(health)@, *request, now, n))
                && final(health)@ == checked_all(old(health)@, views(providers@), now),
{
    let now = health.now_ns();
    rank_search_candidates_at(config, health, request, providers, now)
}

/// Providers ranked by open circuit, run of failures and name, at `now`.
fn rank_capability_only(health: &mut HealthStore, providers: Vec<String>, now: u128) -> (ranked: Vec<String>)
    ensures
        ranked@.to_multiset() == providers@.to_multiset(),
        sorted_by(ranked@, |n: Seq<char>| capability_key(old(health)@, now, n)),
        final(health)@ == checked_all(old(health)@, views(providers@), now),
        final(health).clock() == clock_after_checks(old(health).clock(), providers@.len(), now),
{
    check_all(health, &providers, now);
    let ghost key = |n: Seq<char>| capability_key(old(health)@, now, n);
    let mut keys: Vec<ExecKey> = Vec::new();
    let mut i: usize = 0;
    while i < providers.len()
        invariant
            i <= providers.len(),
            keys.len() == i,
            health@ == checked_all(old(health)@, views(providers@), now),
            forall|n: Seq<char>| #[trigger] key(n) == capability_key(old(health)@, now, n),
            forall|j: int| 0 <= j < i ==> (#[trigger] keys@[j]).key() == key(providers@[j]@),
        decreases providers.len() - i,
    {
        let k = capability_key_of(health, now, &providers[i]);
        proof {
            lemma_checked_all_keeps_standing(old(health)@, views(providers@), providers@[i as int]@, now);
            assert(k.key() == key(providers@[i as int]@));
        }
        let ghost prev = keys@;
        keys.push(k);
        assert(forall|j: int| 0 <= j < i ==> keys@[j] == prev[j]);
        i = i + 1;
    }
    sort_by_keys(providers, keys, Ghost(key))
}

/// Extraction providers in the order in which they are tried, at `now`.
pub fn rank_extract_candidates_at(
    health: &mut HealthStore,
    providers: Vec<String>,
    _request: &ExtractRequest,
    now: u128,
) -> (ranked: Vec<String>)
    ensures
        ranked@.to_multiset() == providers@.to_multiset(),
        sorted_by(ranked@, |n: Seq<char>| capability_key(old(health)@, now, n)),
        final(health)@ == checked_all(old(health)@, views(providers@), now),
        final(health).clock() == clock_after_checks(old(health).clock(), providers@.len(), now),
{
    rank_capability_only(health, providers, now)
}

/// Crawl providers in the order in which they are tried, at `now`.
pub fn rank_crawl_candidates_at(
    health: &mut HealthStore,
    providers: Vec<String>,
    _request: &CrawlRequest,
    now: u128,
) -> (ranked: Vec<String>)
    ensures
        ranked@.to_multiset() == providers@.to_multiset(),
        sorted_by(ranked@, |n: Seq<char>| capability_key(old(health)@, now, n)),
        final(health)@ == checked_all(old(health)@, views(providers@), now),
        final(health).clock() == clock_after_checks(old(health).clock(), providers@.len(), now),
{
    rank_capability_only(health, providers, now)
}

/// Extraction providers in the order in which they are tried now.
pub fn rank_extract_candidates(
    health: &mut HealthStore,
    providers: Vec<String>,
    request: &ExtractRequest,
) -> (ranked: Vec<String>)
    ensures
        ranked@.to_multiset() == providers@.to_multiset(),
        exists|now: u128|
            #![trigger checked_all(old(health)@, views(providers@), now)]
            now >= old(health).clock() && final(health).clock() == clock_after_checks(
                old(health).clock(),
                providers@.len(),
                now,
            ) && sorted_by(ranked@, |n: Seq<char>| capability_key(old(health)@, now, n))
                && final(health)@ == checked_all(old(health)@, views(providers@), now),
{
    let now = health.now_ns();
    rank_extract_candidates_at(health, providers, request, now)
}

/// Crawl providers in the order in which they are tried now.
pub fn rank_crawl_candidates(
    health: &mut HealthStore,
    providers: Vec<String>,
    request: &CrawlRequest,
) -> (ranked: Vec<String>)
    ensures
        ranked@.to_multiset() == providers@.to_multiset(),
        exists|now: u128|
            #![trigger checked_all(old(health)@, views(providers@), now)]
            now >= old(health).clock() && final(health).clock() == clock_after_checks(
                old(health).clock(),
                providers@.len(),
                now,
            ) && sorted_by(ranked@, |n: Seq<char>| capability_key(old(health)@, now, n))
                && final(health)@ == checked_all(old(health)@, views(providers@), now),
{
    let now = health.now_ns();
    rank_crawl_candidates_at(health, providers, request, now)
}


/// Providers whose circuit is open are ranked after every search provider
/// that may be tried: in a search ranking, none that may be tried at `now`
/// comes after one that may not.
pub proof fn lemma_search_open_circuits_rank_last(
    config: GatewayConfig,
    h: HealthStoreView,
    request: SearchRequest,
    now: u128,
    ranked: Seq<String>,
    i: int,
    j: int,
)
    requires
        sorted_by(ranked, |n: Seq<char>| search_key(config, h, request, now, n)),
        0 <= i < j < ranked.len(),
        h.available(ranked[j]@, now),
    ensures
        h.available(ranked[i]@, now),
{
    let key = |n: Seq<char>| search_key(config, h, request, now, n);
    assert(key_le(key(ranked[i]@), key(ranked[j]@)));
}

/// When a search asks for the richer answers that Tavily gives, Tavily is
/// ranked before every other provider that, like it, may be tried.
pub proof fn lemma_rich_search_prefers_tavily(
    config: GatewayConfig,
    h: HealthStoreView,
    request: SearchRequest,
    now: u128,
    ranked: Seq<String>,
    i: int,
    j: int,
)
    requires
        sorted_by(ranked, |n: Seq<char>| search_key(config, h, request, now, n)),
        0 <= i < ranked.len(),
        0 <= j < ranked.len(),
        ranked[i]@ == "tavily"@,
        ranked[j]@ != "tavily"@,
        prefers_rich(request, "tavily"@),
        h.available(ranked[i]@, now),
        h.available(ranked[j]@, now),
    ensures
        i < j,
{
    let key = |n: Seq<char>| search_key(config, h, request, now, n);
    if j < i {
        assert(key_le(key(ranked[j]@), key(ranked[i]@)));
    }
}

/// When a search does not call for Tavily's richer answers, two search
/// providers that may both be tried are ranked in the configured order.
pub proof fn lemma_search_follows_configured_order(
    config: GatewayConfig,
    h: HealthStoreView,
    request: SearchRequest,
    now: u128,
    ranked: Seq<String>,
    i: int,
    j: int,
)
    requires
        sorted_by(ranked, |n: Seq<char>| search_key(config, h, request, now, n)),
        0 <= i < ranked.len(),
        0 <= j < ranked.len(),
        !prefers_rich(request, ranked[i]@),
        !prefers_rich(request, ranked[j]@),
        h.available(ranked[i]@, now),
        h.available(ranked[j]@, now),
        static_rank(views(config.search_provider_order@), ranked[i]@) < static_rank(
            views(config.search_provider_order@),
            ranked[j]@,
        ),
    ensures
        i < j,
{
    let key = |n: Seq<char>| search_key(config, h, request, now, n);
    if j < i {
        assert(key_le(key(ranked[j]@), key(ranked[i]@)));
    }
}

/// For extraction and crawling, providers whose circuit is open come after
/// every provider that may be tried, and among those that may be tried, one
/// with a shorter run of failures comes first.
pub proof fn lemma_capability_ranking(h: HealthStoreView, now: u128, ranked: Seq<String>, i: int, j: int)
    requires
        sorted_by(ranked, |n: Seq<char>| capability_key(h, now, n)),
        0 <= i < ranked.len(),
        0 <= j < ranked.len(),
    ensures
        i < j && h.available(ranked[j]@, now) ==> h.available(ranked[i]@, now),
        h.available(ranked[i]@, now) && h.available(ranked[j]@, now) && h.penalty(ranked[i]@) < h.penalty(
            ranked[j]@,
        ) ==> i < j,
{
    let key = |n: Seq<char>| capability_key(h, now, n);
    if i < j {
        assert(key_le(key(ranked[i]@), key(ranked[j]@)));
    }
    if j < i {
        assert(key_le(key(ranked[j]@), key(ranked[i]@)));
    }
}

} // verus!
