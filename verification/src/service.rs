//! The gateway service: a request is checked, a search may be answered
//! from the cache, the providers are chosen and ranked, tried in turn with
//! fallback, and the outcome is recorded in the health store.
//!
//! The service holds a handle of type `P` for each provider. The work of a
//! provider, one request to it, is done by a function that the caller
//! passes in; everything around it is decided here.

use vstd::prelude::*;
use crate::cache::{TimedCache, TimedCacheView};
use crate::clock::{instant_now, millis_since};
use crate::config::AppConfig;
use crate::errors::{GatewayError, GatewayErrorView};
use crate::fallback::{attempt_of, lemma_ran_by_weakens, ran_by, times_in_order, with_provider_fallback};
use crate::health::{HealthStore, HealthStoreView};
use crate::models::{
    CrawlRequest, CrawlResponse, ExtractRequest, ExtractResponse, SearchRequest, SearchResponse,
    SearchResponseView,
};
use crate::ranking::{RankKey, capability_key, checked_all, clock_after_checks, search_key, sorted_by};
use crate::registry::{Operation, ProviderRegistry, built_entries, capable_names, enabled_names};
use crate::status::{StatusResponse, reports_registry, status_report};
use crate::strategy::{
    no_provider_error, select_crawl_candidates, select_extract_candidates, select_search_candidates,
    unknown_provider_error,
};
use crate::text::{concat_str, views};

verus! {

/// The gateway: its configuration, its providers, their health, and the
/// cache of search responses when caching is on.
#[verifier::reject_recursive_types(P)]
pub struct GatewayService<P> {
    config: AppConfig,
    registry: ProviderRegistry<P>,
    health: HealthStore,
    search_cache: Option<TimedCache<SearchResponse>>,
}

/// Whether `r` may be the outcome of trying the provider named `name` with
/// `request`: what `call` may give for that provider's handle, or an
/// unknown-provider error when no provider has that name.
pub open spec fn provider_outcome<P, R, T, F: Fn(&P, &R) -> Result<T, GatewayError>>(
    registry: ProviderRegistry<P>,
    call: F,
    request: R,
    name: String,
    r: Result<T, GatewayError>,
) -> bool {
    let i = registry.place(name@);
    if i >= 0 {
        call_ensures(call, (&registry.entries()[i].provider, &request), r)
    } else {
        r matches Err(e) && e@ == unknown_provider_error(name@)
    }
}

/// [`provider_outcome`] as a relation between provider names and outcomes.
pub open spec fn provider_attempt<P, R, T, F: Fn(&P, &R) -> Result<T, GatewayError>>(
    registry: ProviderRegistry<P>,
    call: F,
    request: R,
) -> spec_fn(String, Result<T, GatewayError>) -> bool {
    |n: String, x: Result<T, GatewayError>| provider_outcome(registry, call, request, n, x)
}

/// Whether choosing the providers for `op` fails: the request names a
/// provider that is not registered, or none that is registered supports
/// `op`.
pub open spec fn selection_fails<P>(registry: ProviderRegistry<P>, op: Operation, provider: Option<String>) -> bool {
    match provider {
        Some(name) => registry.place(name@) < 0,
        None => capable_names(registry.entries(), op).len() == 0,
    }
}

/// The error of a failed choice of providers.
pub open spec fn selection_error<P>(registry: ProviderRegistry<P>, op: Operation, provider: Option<String>) -> GatewayErrorView {
    match provider {
        Some(name) => unknown_provider_error(name@),
        None => no_provider_error(op),
    }
}

/// Whether `cands` is the choice of providers for `op`: the one the request
/// names, or every provider that supports `op`, sorted by the key that
/// `key` gives at time `now`.
pub open spec fn selected<P>(
    registry: ProviderRegistry<P>,
    op: Operation,
    provider: Option<String>,
    cands: Seq<String>,
    key: spec_fn(u128, Seq<char>) -> RankKey,
    now: u128,
) -> bool {
    match provider {
        Some(name) => cands == seq![name],
        None => {
            &&& cands.to_multiset() == capable_names(registry.entries(), op).to_multiset()
            &&& sorted_by(cands, |n: Seq<char>| key(now, n))
        },
    }
}

/// The store after the choice of providers for `op` at time `now`: a
/// named provider is taken without a check; otherwise every provider that
/// supports `op` is checked, as ranking does.
pub open spec fn selection_health<P>(
    registry: ProviderRegistry<P>,
    op: Operation,
    provider: Option<String>,
    h0: HealthStoreView,
    now: u128,
) -> HealthStoreView {
    match provider {
        Some(_) => h0,
        None => checked_all(h0, views(capable_names(registry.entries(), op)), now),
    }
}

/// The latest time of the store after the choice of providers for `op` at
/// time `now`, from the latest time `t0`.
pub open spec fn selection_clock<P>(
    registry: ProviderRegistry<P>,
    op: Operation,
    provider: Option<String>,
    t0: u128,
    now: u128,
) -> u128 {
    match provider {
        Some(_) => t0,
        None => clock_after_checks(t0, capable_names(registry.entries(), op).len(), now),
    }
}

/// One way a routed request may have gone: the providers `cands` were
/// chosen at time `now`, and the run of fallback across them, each tried by
/// `call`, went as [`ran_by`] says for `checks`, `fails` and `outs`, from
/// the store after the choice to `h_end`; the choice was made no earlier
/// than the store's latest time `t0`, and the times of the run go forward
/// from the store's latest time after the choice to its latest time
/// `t_end` at the end.
pub open spec fn routed_via<P, R, T, F: Fn(&P, &R) -> Result<T, GatewayError>>(
    registry: ProviderRegistry<P>,
    op: Operation,
    provider: Option<String>,
    key: spec_fn(u128, Seq<char>) -> RankKey,
    call: F,
    request: R,
    h0: HealthStoreView,
    h_end: HealthStoreView,
    t0: u128,
    t_end: u128,
    inner: Result<(T, Vec<String>), GatewayError>,
    cands: Seq<String>,
    now: u128,
    checks: Seq<u128>,
    fails: Seq<u128>,
    outs: Seq<Result<T, GatewayError>>,
) -> bool {
    &&& selected(registry, op, provider, cands, key, now)
    &&& now >= t0
    &&& times_in_order(selection_clock(registry, op, provider, t0, now), checks, fails, t_end)
    &&& ran_by(
        provider_attempt(registry, call, request),
        selection_health(registry, op, provider, h0, now),
        cands,
        checks,
        fails,
        outs,
        h_end,
        inner,
    )
}

/// What routing a request for `op` to the providers gives, starting from
/// the store `h0` with latest time `t0` and leaving `h_end` with latest time
/// `t_end`: the error of a failed choice, with
/// the store as it was; or else the outcome of a run of fallback across the
/// chosen providers, each tried by `call`.
pub open spec fn routed<P, R, T, F: Fn(&P, &R) -> Result<T, GatewayError>>(
    registry: ProviderRegistry<P>,
    op: Operation,
    provider: Option<String>,
    key: spec_fn(u128, Seq<char>) -> RankKey,
    call: F,
    request: R,
    h0: HealthStoreView,
    h_end: HealthStoreView,
    t0: u128,
    t_end: u128,
    inner: Result<(T, Vec<String>), GatewayError>,
) -> bool {
    if selection_fails(registry, op, provider) {
        inner matches Err(e) && e@ == selection_error(registry, op, provider) && h_end == h0 && t_end == t0
    } else {
        exists|
            cands: Seq<String>,
            now: u128,
            checks: Seq<u128>,
            fails: Seq<u128>,
            outs: Seq<Result<T, GatewayError>>,
        |
            #[trigger] routed_via(
                registry,
                op,
                provider,
                key,
                call,
                request,
                h0,
                h_end,
                t0,
                t_end,
                inner,
                cands,
                now,
                checks,
                fails,
                outs,
            )
    }
}

/// The key of a search provider, by time and name.
pub open spec fn search_keys(config: AppConfig, h: HealthStoreView, request: SearchRequest) -> spec_fn(
    u128,
    Seq<char>,
) -> RankKey {
    |t: u128, n: Seq<char>| search_key(config.gateway, h, request, t, n)
}

/// The key of an extraction or crawl provider, by time and name.
pub open spec fn capability_keys(h: HealthStoreView) -> spec_fn(u128, Seq<char>) -> RankKey {
    |t: u128, n: Seq<char>| capability_key(h, t, n)
}

/// The live cached response under `key` at `now`, if any.
pub open spec fn cached_answer(cache: Option<TimedCacheView<SearchResponse>>, key: Seq<char>, now: u128) -> Option<
    SearchResponse,
> {
    match cache {
        Some(c) => if c.live(key, now) {
            Some(c.entries[key].value)
        } else {
            None
        },
        None => None,
    }
}

/// The cache after a search that found no live response under `key`: an
/// entry under `key`, expired, is dropped.
pub open spec fn cache_after_miss(cache: Option<TimedCacheView<SearchResponse>>, key: Seq<char>) -> Option<
    TimedCacheView<SearchResponse>,
> {
    match cache {
        Some(c) => Some(c.dropped(key)),
        None => None,
    }
}

/// Whether `after` is `before` with a response whose value is `resp`
/// stored under `key` at time `at`; with caching off both are none.
pub open spec fn stores_response(
    before: Option<TimedCacheView<SearchResponse>>,
    after: Option<TimedCacheView<SearchResponse>>,
    key: Seq<char>,
    resp: SearchResponseView,
    at: u128,
) -> bool {
    match before {
        Some(c0) => after matches Some(c1) && exists|v: SearchResponse|
            #[trigger] c0.stored(key, v, at) == c1 && v@ == resp,
        None => after is None,
    }
}

/// A search repeated while the response that an earlier search stored
/// under its key is live is answered with that response, and one repeated
/// after it expired finds nothing: a successful search stores its response
/// under its key at the cache's new time (see [`GatewayService::search`]),
/// a later search reads the cache at a time no earlier than the cache's
/// time; if at most the cache's lifetime has passed since the response was
/// stored, the later search is answered with it, and otherwise the entry
/// is not live.
pub proof fn lemma_repeated_search_is_cached(
    before: TimedCacheView<SearchResponse>,
    after: Option<TimedCacheView<SearchResponse>>,
    key: Seq<char>,
    resp: SearchResponseView,
    at: u128,
    now: u128,
)
    requires
        stores_response(Some(before), after, key, resp, at),
        now >= at,
    ensures
        after matches Some(c) && c.ttl_ns == before.ttl_ns,
        now - at <= before.ttl_ns ==> (cached_answer(after, key, now) matches Some(v) && v@ == resp),
        now - at > before.ttl_ns ==> cached_answer(after, key, now) is None,
{
}

/// Tries `candidates` in turn with fallback, each by `call` on the handle
/// of the provider of that name.
fn run_with_providers<P, R, T, F: Fn(&P, &R) -> Result<T, GatewayError>>(
    registry: &ProviderRegistry<P>,
    health: &mut HealthStore,
    candidates: Vec<String>,
    request: &R,
    call: &F,
) -> (r: Result<(T, Vec<String>), GatewayError>)
    requires
        forall|p: &P, q: &R| call_requires(*call, (p, q)),
    ensures
        exists|checks: Seq<u128>, fails: Seq<u128>, outs: Seq<Result<T, GatewayError>>|
            #[trigger] ran_by(
                provider_attempt(*registry, *call, *request),
                old(health)@,
                candidates@,
                checks,
                fails,
                outs,
                final(health)@,
                r,
            ) && times_in_order(old(health).clock(), checks, fails, final(health).clock()),
{
    let op = |name: &String| -> (x: Result<T, GatewayError>)
        requires
            forall|p: &P, q: &R| call_requires(*call, (p, q)),
        ensures
            provider_outcome(*registry, *call, *request, *name, x),
        {
            match registry.get(name.as_str()) {
                Some(p) => call(p, request),
                None => Err(GatewayError::validation(concat_str("unknown provider: ", name.as_str()).as_str())),
            }
        };
    let ghost cands = candidates@;
    let ghost h0 = health@;
    let ghost clock0 = health.clock();
    let r = with_provider_fallback(health, candidates, op);
    proof {
        let (checks, fails, outs) = choose|checks: Seq<u128>, fails: Seq<u128>, outs: Seq<Result<T, GatewayError>>|
            #[trigger] ran_by(attempt_of(op), h0, cands, checks, fails, outs, health@, r)
                && times_in_order(clock0, checks, fails, health.clock());
        assert forall|n: String, x: Result<T, GatewayError>| #[trigger] attempt_of(op)(n, x) implies provider_attempt(
            *registry,
            *call,
            *request,
        )(n, x) by {}
        lemma_ran_by_weakens(
            attempt_of(op),
            provider_attempt(*registry, *call, *request),
            h0,
            cands,
            checks,
            fails,
            outs,
            health@,
            r,
        );
    }
    r
}

impl<P> GatewayService<P> {
    /// The configuration the service was made with.
    pub closed spec fn config(self) -> AppConfig {
        self.config
    }

    /// The registered providers.
    pub closed spec fn registry(self) -> ProviderRegistry<P> {
        self.registry
    }

    /// The health of the providers.
    pub closed spec fn health(self) -> HealthStoreView {
        self.health@
    }

    /// The latest time that the health store has seen.
    pub closed spec fn health_clock(self) -> u128 {
        self.health.clock()
    }

    /// The latest time that the cache of search responses has seen (zero
    /// when caching is off).
    pub closed spec fn cache_time(self) -> u128 {
        match self.search_cache {
            Some(c) => c.clock(),
            None => 0,
        }
    }

    /// The cache of search responses, when caching is on.
    pub closed spec fn cache(self) -> Option<TimedCacheView<SearchResponse>> {
        match self.search_cache {
            Some(c) => Some(c@),
            None => None,
        }
    }

    /// The service for `config`: the providers it enables, each made by
    /// `build` from its name; a health store whose circuits open after the
    /// configured number of consecutive failures for the configured time;
    /// and an empty cache of the configured lifetime, if caching is on.
    pub fn from_config<B: Fn(&String) -> Result<P, GatewayError>>(config: AppConfig, build: B) -> (r: Result<
        Self,
        GatewayError,
    >)
        requires
            forall|n: &String| call_requires(build, (n,)),
        ensures
            match r {
                Ok(s) => {
                    &&& s.config() == config
                    &&& built_entries(s.registry().entries(), enabled_names(config), build)
                    &&& s.health().threshold == config.gateway.circuit_failure_threshold
                    &&& s.health().open_duration_ns == config.gateway.circuit_open_seconds * 1_000_000_000
                    &&& s.health().entries == Map::<Seq<char>, crate::health::HealthEntry>::empty()
                    &&& if config.gateway.cache_enabled {
                        s.cache() matches Some(c) && c.ttl_ns == config.gateway.cache_ttl_seconds * 1_000_000_000
                            && c.entries == Map::<Seq<char>, crate::cache::CacheEntry<SearchResponse>>::empty()
                    } else {
                        s.cache() is None
                    }
                },
                Err(e) => exists|n: String|
                    #![trigger call_ensures(build, (&n,), Err(e))]
                    enabled_names(config).contains(n@) && call_ensures(build, (&n,), Err(e)),
            },
    {
        let registry = match ProviderRegistry::from_config(&config, build) {
            Ok(reg) => reg,
            Err(e) => return Err(e),
        };
        let health = HealthStore::new(
            config.gateway.circuit_failure_threshold,
            config.gateway.circuit_open_ns(),
        );
        let search_cache = if config.gateway.cache_enabled {
            Some(TimedCache::new(config.gateway.cache_ttl()))
        } else {
            None
        };
        Ok(GatewayService { config, registry, health, search_cache })
    }

    /// A search. A request that fails its check is refused before anything
    /// else. When caching is on and `cache_key` holds a live response, that
    /// response is returned as it was stored. Otherwise an expired entry
    /// under `cache_key` is dropped, the providers are chosen and tried with
    /// fallback, each by `call` (see [`routed`]); the success of the one that
    /// answered is recorded with the time the run took, the response carries
    /// the chain of providers tried and that time, and it is stored in the
    /// cache under `cache_key`.
    pub fn search<F: Fn(&P, &SearchRequest) -> Result<SearchResponse, GatewayError>>(
        &mut self,
        request: SearchRequest,
        cache_key: String,
        call: F,
    ) -> (r: Result<SearchResponse, GatewayError>)
        requires
            forall|p: &P, q: &SearchRequest| call_requires(call, (p, q)),
        ensures
            final(self).config() == old(self).config(),
            final(self).registry() == old(self).registry(),
            request.rejection() matches Some(e) ==> {
                &&& r matches Err(x) && x@ == e
                &&& final(self).health() == old(self).health()
                &&& final(self).health_clock() == old(self).health_clock()
                &&& final(self).cache() == old(self).cache()
                &&& final(self).cache_time() == old(self).cache_time()
            },
            request.rejection() is None ==> exists|now: u128|
                #![trigger cached_answer(old(self).cache(), cache_key@, now)]
                {
                    &&& now >= old(self).cache_time()
                    &&& cached_answer(old(self).cache(), cache_key@, now) matches Some(v) ==> {
                        &&& r matches Ok(resp) && resp@ == v@
                        &&& final(self).health() == old(self).health()
                        &&& final(self).health_clock() == old(self).health_clock()
                        &&& final(self).cache() == old(self).cache()
                        &&& final(self).cache_time() == old(self).cache_time()
                    }
                    &&& cached_answer(old(self).cache(), cache_key@, now) is None ==> exists|
                        inner: Result<(SearchResponse, Vec<String>), GatewayError>,
                        h_end: HealthStoreView,
                    |
                        #![trigger routed(old(self).registry(), Operation::Search, request.provider, search_keys(old(self).config(), old(self).health(), request), call, request, old(self).health(), h_end, old(self).health_clock(), final(self).health_clock(), inner)]
                        {
                            &&& routed(
                                old(self).registry(),
                                Operation::Search,
                                request.provider,
                                search_keys(old(self).config(), old(self).health(), request),
                                call,
                                request,
                                old(self).health(),
                                h_end,
                                old(self).health_clock(),
                                final(self).health_clock(),
                                inner,
                            )
                            &&& match inner {
                                Ok((v, chain)) => r matches Ok(resp) && {
                                    &&& resp@ == SearchResponseView {
                                        fallback_chain: views(chain@),
                                        latency_ms: resp.latency_ms,
                                        ..v@
                                    }
                                    &&& final(self).health() == h_end.succeeded(v.provider_used@, resp.latency_ms)
                                    &&& stores_response(
                                        cache_after_miss(old(self).cache(), cache_key@),
                                        final(self).cache(),
                                        cache_key@,
                                        resp@,
                                        final(self).cache_time(),
                                    )
                                    &&& final(self).cache_time() >= old(self).cache_time()
                                },
                                Err(e) => {
                                    &&& r matches Err(x) && x == e
                                    &&& final(self).health() == h_end
                                    &&& final(self).cache() == cache_after_miss(old(self).cache(), cache_key@)
                                    &&& final(self).cache_time() == old(self).cache_time()
                                },
                            }
                        }
                },
    {
        match request.validate() {
            Ok(()) => {},
            Err(e) => return Err(e),
        }
        let ghost c0 = self.cache();
        let ghost time0 = self.cache_time();
        let ghost mut seen: u128 = 0;
        let hit = match &mut self.search_cache {
            Some(cache) => {
                let now = cache.now_ns();
                proof {
                    seen = now;
                }
                cache.get_at(cache_key.as_str(), now)
            },
            None => None,
        };
        assert(self.cache_time() == time0 && seen >= time0);
        if let Some(resp) = hit {
            assert(cached_answer(c0, cache_key@, seen) is Some);
            return Ok(resp);
        }
        assert(cached_answer(c0, cache_key@, seen) is None);
        assert(self.cache() == cache_after_miss(c0, cache_key@));
        assert(self.cache_time() == time0 && seen >= time0);
        let ghost c1 = self.cache();
        let ghost h0 = self.health@;
        let (inner, elapsed) = self.route_search(&request, &call);
        let ghost inner_g = inner;
        let ghost h_end = self.health@;
        proof {
            assert(routed(
                old(self).registry(),
                Operation::Search,
                request.provider,
                search_keys(old(self).config(), old(self).health(), request),
                call,
                request,
                old(self).health(),
                h_end,
                old(self).health_clock(),
                self.health_clock(),
                inner_g,
            ));
        }
        let ghost t_end = self.health_clock();
        match inner {
            Ok((v, chain)) => {
                let ghost vg = v;
                let ghost chain_g = chain;
                let mut response = v;
                self.health.record_success(response.provider_used.as_str(), elapsed);
                assert(self.health_clock() == t_end);
                response.latency_ms = elapsed;
                response.fallback_chain = chain;
                let ghost key_view = cache_key@;
                let ghost mut t_g: u128 = 0;
                let ghost mut copy_g: SearchResponse = vstd::pervasive::arbitrary();
                match &mut self.search_cache {
                    Some(cache) => {
                        let ghost before = cache@;
                        let ghost before_clock = cache.clock();
                        let copy = response.clone();
                        cache.insert(cache_key, copy);
                        proof {
                            t_g = choose|t: u128|
                                #![trigger before.stored(key_view, copy, t)]
                                t >= before_clock && before.stored(key_view, copy, t) == cache@ && cache.clock() == t;
                            copy_g = copy;
                        }
                    },
                    None => {},
                }
                proof {
                    if c1 is Some {
                        assert(c1->Some_0.stored(key_view, copy_g, t_g) == self.cache()->Some_0);
                        assert(copy_g@ == response@);
                    }
                }
                proof {
                    assert(response@ == SearchResponseView {
                        fallback_chain: views(chain_g@),
                        latency_ms: response.latency_ms,
                        ..vg@
                    });
                    assert(stores_response(c1, self.cache(), key_view, response@, self.cache_time()));
                    assert(self.health_clock() == t_end);
                }
                Ok(response)
            },
            Err(e) => Err(e),
        }
    }

    /// Chooses the providers for a search and tries them with fallback;
    /// also gives the time that the run of fallback took.
    fn route_search<F: Fn(&P, &SearchRequest) -> Result<SearchResponse, GatewayError>>(
        &mut self,
        request: &SearchRequest,
        call: &F,
    ) -> (res: (Result<(SearchResponse, Vec<String>), GatewayError>, u128))
        requires
            forall|p: &P, q: &SearchRequest| call_requires(*call, (p, q)),
        ensures
            final(self).config() == old(self).config(),
            final(self).registry() == old(self).registry(),
            final(self).cache() == old(self).cache(),
            final(self).cache_time() == old(self).cache_time(),
            routed(
                old(self).registry(),
                Operation::Search,
                request.provider,
                search_keys(old(self).config(), old(self).health(), *request),
                *call,
                *request,
                old(self).health(),
                final(self).health(),
                old(self).health_clock(),
                final(self).health_clock(),
                res.0,
            ),
    {
        let ghost h0 = self.health@;
        let ghost key = search_keys(self.config, h0, *request);
        let ghost caps = capable_names(self.registry.entries(), Operation::Search);
        let ghost clock0 = self.health.clock();
        let selection = select_search_candidates(&self.config.gateway, &self.registry, &mut self.health, request);
        let ghost mut when: u128 = clock0;
        proof {
            if request.provider is None {
                when = choose|now: u128|
                    #![trigger checked_all(h0, views(caps), now)]
                    now >= clock0 && self.health.clock() == clock_after_checks(clock0, caps.len(), now)
                        && self.health@ == checked_all(h0, views(caps), now)
                        && crate::strategy::ranked_selection(
                        caps,
                        |n: Seq<char>| search_key(self.config.gateway, h0, *request, now, n),
                        Operation::Search,
                        selection,
                    );
                if caps.len() == 0 {
                    assert(views(caps).len() == 0);
                }
            }
            assert(self.health@ == selection_health(self.registry, Operation::Search, request.provider, h0, when));
        }
        let candidates = match selection {
            Ok(c) => c,
            Err(e) => return (Err(e), 0),
        };
        let ghost cands = candidates@;
        let ghost h_sel = self.health@;
        let ghost clock_sel = self.health.clock();
        let started = instant_now();
        let inner = run_with_providers(&self.registry, &mut self.health, candidates, request, call);
        let elapsed = millis_since(&started);
        proof {
            let (checks, fails, outs) = choose|checks: Seq<u128>, fails: Seq<u128>, outs: Seq<Result<SearchResponse, GatewayError>>|
                #[trigger] ran_by(provider_attempt(self.registry, *call, *request), h_sel, cands, checks, fails, outs, self.health@, inner)
                    && times_in_order(clock_sel, checks, fails, self.health.clock());
            assert(selected(self.registry, Operation::Search, request.provider, cands, key, when));
            assert(routed_via(
                self.registry,
                Operation::Search,
                request.provider,
                key,
                *call,
                *request,
                h0,
                self.health@,
                clock0,
                self.health.clock(),
                inner,
                cands,
                when,
                checks,
                fails,
                outs,
            ));
        }
        (inner, elapsed)
    }

    /// Chooses the providers for an extraction and tries them with fallback;
    /// also gives the time that the run of fallback took.
    fn route_extract<F: Fn(&P, &ExtractRequest) -> Result<ExtractResponse, GatewayError>>(
        &mut self,
        request: &ExtractRequest,
        call: &F,
    ) -> (res: (Result<(ExtractResponse, Vec<String>), GatewayError>, u128))
        requires
            forall|p: &P, q: &ExtractRequest| call_requires(*call, (p, q)),
        ensures
            final(self).config() == old(self).config(),
            final(self).registry() == old(self).registry(),
            final(self).cache() == old(self).cache(),
            final(self).cache_time() == old(self).cache_time(),
            routed(
                old(self).registry(),
                Operation::Extract,
                request.provider,
                capability_keys(old(self).health()),
                *call,
                *request,
                old(self).health(),
                final(self).health(),
                old(self).health_clock(),
                final(self).health_clock(),
                res.0,
            ),
    {
        let ghost h0 = self.health@;
        let ghost key = capability_keys(h0);
        let ghost caps = capable_names(self.registry.entries(), Operation::Extract);
        let ghost clock0 = self.health.clock();
        let selection = select_extract_candidates(&self.registry, &mut self.health, request);
        let ghost mut when: u128 = clock0;
        proof {
            if request.provider is None {
                when = choose|now: u128|
                    #![trigger checked_all(h0, views(caps), now)]
                    now >= clock0 && self.health.clock() == clock_after_checks(clock0, caps.len(), now)
                        && self.health@ == checked_all(h0, views(caps), now)
                        && crate::strategy::ranked_selection(
                        caps,
                        |n: Seq<char>| capability_key(h0, now, n),
                        Operation::Extract,
                        selection,
                    );
                if caps.len() == 0 {
                    assert(views(caps).len() == 0);
                }
            }
            assert(self.health@ == selection_health(self.registry, Operation::Extract, request.provider, h0, when));
        }
        let candidates = match selection {
            Ok(c) => c,
            Err(e) => return (Err(e), 0),
        };
        let ghost cands = candidates@;
        let ghost h_sel = self.health@;
        let ghost clock_sel = self.health.clock();
        let started = instant_now();
        let inner = run_with_providers(&self.registry, &mut self.health, candidates, request, call);
        let elapsed = millis_since(&started);
        proof {
            let (checks, fails, outs) = choose|checks: Seq<u128>, fails: Seq<u128>, outs: Seq<Result<ExtractResponse, GatewayError>>|
                #[trigger] ran_by(provider_attempt(self.registry, *call, *request), h_sel, cands, checks, fails, outs, self.health@, inner)
                    && times_in_order(clock_sel, checks, fails, self.health.clock());
            assert(selected(self.registry, Operation::Extract, request.provider, cands, key, when));
            assert(routed_via(
                self.registry,
                Operation::Extract,
                request.provider,
                key,
                *call,
                *request,
                h0,
                self.health@,
                clock0,
                self.health.clock(),
                inner,
                cands,
                when,
                checks,
                fails,
                outs,
            ));
        }
        (inner, elapsed)
    }

    /// An extraction. A request that fails its check is refused before anything
    /// else. Otherwise the providers are chosen and tried with fallback,
    /// each by `call` (see [`routed`]); the success of the one that answered
    /// is recorded with the time the run took, and the response carries the
    /// chain of providers tried and that time.
    pub fn extract<F: Fn(&P, &ExtractRequest) -> Result<ExtractResponse, GatewayError>>(&mut self, request: ExtractRequest, call: F) -> (r: Result<
        ExtractResponse,
        GatewayError,
    >)
        requires
            forall|p: &P, q: &ExtractRequest| call_requires(call, (p, q)),
        ensures
            final(self).config() == old(self).config(),
            final(self).registry() == old(self).registry(),
            final(self).cache() == old(self).cache(),
            final(self).cache_time() == old(self).cache_time(),
            request.rejection() matches Some(e) ==> r matches Err(x) && x@ == e && final(self).health()
                == old(self).health() && final(self).health_clock() == old(self).health_clock(),
            request.rejection() is None ==> exists|
                inner: Result<(ExtractResponse, Vec<String>), GatewayError>,
                h_end: HealthStoreView,
            |
                #![trigger routed(old(self).registry(), Operation::Extract, request.provider, capability_keys(old(self).health()), call, request, old(self).health(), h_end, old(self).health_clock(), final(self).health_clock(), inner)]
                {
                    &&& routed(
                        old(self).registry(),
                        Operation::Extract,
                        request.provider,
                        capability_keys(old(self).health()),
                        call,
                        request,
                        old(self).health(),
                        h_end,
                        old(self).health_clock(),
                        final(self).health_clock(),
                        inner,
                    )
                    &&& match inner {
                        Ok((v, chain)) => r matches Ok(resp) && {
                            &&& resp == ExtractResponse { fallback_chain: chain, latency_ms: resp.latency_ms, ..v }
                            &&& final(self).health() == h_end.succeeded(v.provider_used@, resp.latency_ms)
                        },
                        Err(e) => r matches Err(x) && x == e && final(self).health() == h_end,
                    }
                },
    {
        match request.validate() {
            Ok(()) => {},
            Err(e) => return Err(e),
        }
        let (inner, elapsed) = self.route_extract(&request, &call);
        let ghost inner_g = inner;
        let ghost h_end = self.health@;
        proof {
            assert(routed(
                old(self).registry(),
                Operation::Extract,
                request.provider,
                capability_keys(old(self).health()),
                call,
                request,
                old(self).health(),
                h_end,
                old(self).health_clock(),
                self.health_clock(),
                inner_g,
            ));
        }
        let ghost t_end = self.health_clock();
        match inner {
            Ok((v, chain)) => {
                let ghost vg = v;
                let ghost chain_g = chain;
                let mut response = v;
                self.health.record_success(response.provider_used.as_str(), elapsed);
                assert(self.health_clock() == t_end);
                response.latency_ms = elapsed;
                response.fallback_chain = chain;
                assert(response == ExtractResponse { fallback_chain: chain_g, latency_ms: response.latency_ms, ..vg });
                Ok(response)
            },
            Err(e) => Err(e),
        }
    }

    /// Chooses the providers for a crawl and tries them with fallback;
    /// also gives the time that the run of fallback took.
    fn route_crawl<F: Fn(&P, &CrawlRequest) -> Result<CrawlResponse, GatewayError>>(
        &mut self,
        request: &CrawlRequest,
        call: &F,
    ) -> (res: (Result<(CrawlResponse, Vec<String>), GatewayError>, u128))
        requires
            forall|p: &P, q: &CrawlRequest| call_requires(*call, (p, q)),
        ensures
            final(self).config() == old(self).config(),
            final(self).registry() == old(self).registry(),
            final(self).cache() == old(self).cache(),
            final(self).cache_time() == old(self).cache_time(),
            routed(
                old(self).registry(),
                Operation::Crawl,
                request.provider,
                capability_keys(old(self).health()),
                *call,
                *request,
                old(self).health(),
                final(self).health(),
                old(self).health_clock(),
                final(self).health_clock(),
                res.0,
            ),
    {
        let ghost h0 = self.health@;
        let ghost key = capability_keys(h0);
        let ghost caps = capable_names(self.registry.entries(), Operation::Crawl);
        let ghost clock0 = self.health.clock();
        let selection = select_crawl_candidates(&self.registry, &mut self.health, request);
        let ghost mut when: u128 = clock0;
        proof {
            if request.provider is None {
                when = choose|now: u128|
                    #![trigger checked_all(h0, views(caps), now)]
                    now >= clock0 && self.health.clock() == clock_after_checks(clock0, caps.len(), now)
                        && self.health@ == checked_all(h0, views(caps), now)
                        && crate::strategy::ranked_selection(
                        caps,
                        |n: Seq<char>| capability_key(h0, now, n),
                        Operation::Crawl,
                        selection,
                    );
                if caps.len() == 0 {
                    assert(views(caps).len() == 0);
                }
            }
            assert(self.health@ == selection_health(self.registry, Operation::Crawl, request.provider, h0, when));
        }
        let candidates = match selection {
            Ok(c) => c,
            Err(e) => return (Err(e), 0),
        };
        let ghost cands = candidates@;
        let ghost h_sel = self.health@;
        let ghost clock_sel = self.health.clock();
        let started = instant_now();
        let inner = run_with_providers(&self.registry, &mut self.health, candidates, request, call);
        let elapsed = millis_since(&started);
        proof {
            let (checks, fails, outs) = choose|checks: Seq<u128>, fails: Seq<u128>, outs: Seq<Result<CrawlResponse, GatewayError>>|
                #[trigger] ran_by(provider_attempt(self.registry, *call, *request), h_sel, cands, checks, fails, outs, self.health@, inner)
                    && times_in_order(clock_sel, checks, fails, self.health.clock());
            assert(selected(self.registry, Operation::Crawl, request.provider, cands, key, when));
            assert(routed_via(
                self.registry,
                Operation::Crawl,
                request.provider,
                key,
                *call,
                *request,
                h0,
                self.health@,
                clock0,
                self.health.clock(),
                inner,
                cands,
                when,
                checks,
                fails,
                outs,
            ));
        }
        (inner, elapsed)
    }

    /// A crawl. A request that fails its check is refused before anything
    /// else. Otherwise the providers are chosen and tried with fallback,
    /// each by `call` (see [`routed`]); the success of the one that answered
    /// is recorded with the time the run took, and the response carries the
    /// chain of providers tried and that time.
    pub fn crawl<F: Fn(&P, &CrawlRequest) -> Result<CrawlResponse, GatewayError>>(&mut self, request: CrawlRequest, call: F) -> (r: Result<
        CrawlResponse,
        GatewayError,
    >)
        requires
            forall|p: &P, q: &CrawlRequest| call_requires(call, (p, q)),
        ensures
            final(self).config() == old(self).config(),
            final(self).registry() == old(self).registry(),
            final(self).cache() == old(self).cache(),
            final(self).cache_time() == old(self).cache_time(),
            request.rejection() matches Some(e) ==> r matches Err(x) && x@ == e && final(self).health()
                == old(self).health() && final(self).health_clock() == old(self).health_clock(),
            request.rejection() is None ==> exists|
                inner: Result<(CrawlResponse, Vec<String>), GatewayError>,
                h_end: HealthStoreView,
            |
                #![trigger routed(old(self).registry(), Operation::Crawl, request.provider, capability_keys(old(self).health()), call, request, old(self).health(), h_end, old(self).health_clock(), final(self).health_clock(), inner)]
                {
                    &&& routed(
                        old(self).registry(),
                        Operation::Crawl,
                        request.provider,
                        capability_keys(old(self).health()),
                        call,
                        request,
                        old(self).health(),
                        h_end,
                        old(self).health_clock(),
                        final(self).health_clock(),
                        inner,
                    )
                    &&& match inner {
                        Ok((v, chain)) => r matches Ok(resp) && {
                            &&& resp == CrawlResponse { fallback_chain: chain, latency_ms: resp.latency_ms, ..v }
                            &&& final(self).health() == h_end.succeeded(v.provider_used@, resp.latency_ms)
                        },
                        Err(e) => r matches Err(x) && x == e && final(self).health() == h_end,
                    }
                },
    {
        match request.validate() {
            Ok(()) => {},
            Err(e) => return Err(e),
        }
        let (inner, elapsed) = self.route_crawl(&request, &call);
        let ghost inner_g = inner;
        let ghost h_end = self.health@;
        proof {
            assert(routed(
                old(self).registry(),
                Operation::Crawl,
                request.provider,
                capability_keys(old(self).health()),
                call,
                request,
                old(self).health(),
                h_end,
                old(self).health_clock(),
                self.health_clock(),
                inner_g,
            ));
        }
        let ghost t_end = self.health_clock();
        match inner {
            Ok((v, chain)) => {
                let ghost vg = v;
                let ghost chain_g = chain;
                let mut response = v;
                self.health.record_success(response.provider_used.as_str(), elapsed);
                assert(self.health_clock() == t_end);
                response.latency_ms = elapsed;
                response.fallback_chain = chain;
                assert(response == CrawlResponse { fallback_chain: chain_g, latency_ms: response.latency_ms, ..vg });
                Ok(response)
            },
            Err(e) => Err(e),
        }
    }

    /// The report of every registered provider: what it can do and its
    /// health now.
    pub fn status(&self) -> (report: StatusResponse)
        ensures
            exists|now: u128| now >= self.health_clock() && #[trigger] reports_registry(
                report,
                self.registry(),
                self.health(),
                now,
            ),
    {
        let report = status_report(&self.registry, &self.health);
        proof {
            let now = choose|now: u128|
                now >= self.health.clock() && #[trigger] reports_registry(report, self.registry, self.health@, now);
            assert(reports_registry(report, self.registry(), self.health(), now));
        }
        report
    }
}

} // verus!
