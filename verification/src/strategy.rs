//! The choice of the providers that a request is sent to: the one the
//! request names, or else every capable provider in ranked order.

use vstd::prelude::*;
use crate::config::GatewayConfig;
use crate::errors::{GatewayError, GatewayErrorView, gateway_error, validation_error};
use crate::health::HealthStore;
use crate::models::{CrawlRequest, ExtractRequest, SearchRequest};
use crate::ranking::{
    capability_key, checked_all, clock_after_checks, rank_crawl_candidates_at, rank_extract_candidates_at,
    rank_search_candidates_at, search_key, sorted_by,
};
use crate::registry::{Operation, ProviderRegistry, capable_names};
use crate::text::{concat_str, views};

verus! {

/// The error for a request that names a provider the registry does not hold.
pub open spec fn unknown_provider_error(name: Seq<char>) -> GatewayErrorView {
    validation_error("unknown provider: "@ + name)
}

/// The error for an operation that no registered provider supports.
pub open spec fn no_provider_error(op: Operation) -> GatewayErrorView {
    gateway_error(
        match op {
            Operation::Search => "no search providers are enabled"@,
            Operation::Extract => "no extract providers are enabled"@,
            Operation::Crawl => "no crawl providers are enabled"@,
        },
    )
}

/// What a selection for a request that names `name` gives.
pub open spec fn named_selection<P>(
    registry: ProviderRegistry<P>,
    name: String,
    r: Result<Vec<String>, GatewayError>,
) -> bool {
    if registry.place(name@) >= 0 {
        r matches Ok(v) && v@ == seq![name]
    } else {
        r matches Err(e) && e@ == unknown_provider_error(name@)
    }
}

/// What a ranked selection among `cands`, for operation `op`, gives when
/// `key` orders the providers.
pub open spec fn ranked_selection(
    cands: Seq<String>,
    key: spec_fn(Seq<char>) -> crate::ranking::RankKey,
    op: Operation,
    r: Result<Vec<String>, GatewayError>,
) -> bool {
    &&& cands.len() == 0 ==> (r matches Err(e) && e@ == no_provider_error(op))
    &&& cands.len() > 0 ==> (r matches Ok(v) && v@.to_multiset() == cands.to_multiset() && sorted_by(v@, key))
}

fn select_named<P>(registry: &ProviderRegistry<P>, name: &String) -> (r: Result<Vec<String>, GatewayError>)
    ensures
        named_selection(*registry, *name, r),
{
    if registry.contains(name.as_str()) {
        let mut v: Vec<String> = Vec::new();
        v.push(name.clone());
        Ok(v)
    } else {
        Err(GatewayError::validation(concat_str("unknown provider: ", name.as_str()).as_str()))
    }
}

/// The selection at time `now` of the providers for a search.
pub fn select_search_candidates_at<P>(
    config: &GatewayConfig,
    registry: &ProviderRegistry<P>,
    health: &mut HealthStore,
    request: &SearchRequest,
    now: u128,
) -> (r: Result<Vec<String>, GatewayError>)
    ensures
        match request.provider {
            Some(name) => final(health)@ == old(health)@ && final(health).clock() == old(health).clock()
                && named_selection(*registry, name, r),
            None => {
                let cands = capable_names(registry.entries(), Operation::Search);
                &&& final(health)@ == checked_all(old(health)@, views(cands), now)
                &&& final(health).clock() == clock_after_checks(old(health).clock(), cands.len(), now)
                &&& ranked_selection(
                    cands,
                    |n: Seq<char>| search_key(*config, old(health)@, *request, now, n),
                    Operation::Search,
                    r,
                )
            },
        },
{
    match &request.provider {
        Some(name) => select_named(registry, name),
        None => {
            let cands = registry.search_providers();
            let ranked = rank_search_candidates_at(config, health, request, cands, now);
            proof {
                vstd::seq_lib::to_multiset_len(ranked@);
                vstd::seq_lib::to_multiset_len(cands@);
            }
            if ranked.len() == 0 {
                Err(GatewayError::gateway("no search providers are enabled"))
            } else {
                Ok(ranked)
            }
        },
    }
}

/// The selection now of the providers for a search.
pub fn select_search_candidates<P>(
    config: &GatewayConfig,
    registry: &ProviderRegistry<P>,
    health: &mut HealthStore,
    request: &SearchRequest,
) -> (r: Result<Vec<String>, GatewayError>)
    ensures
        match request.provider {
            Some(name) => final(health)@ == old(health)@ && final(health).clock() == old(health).clock()
                && named_selection(*registry, name, r),
            None => {
                let cands = capable_names(registry.entries(), Operation::Search);
                exists|now: u128|
                    #![trigger checked_all(old(health)@, views(cands), now)]
                    now >= old(health).clock() && final(health).clock() == clock_after_checks(
                        old(health).clock(),
                        cands.len(),
                        now,
                    ) && final(health)@ == checked_all(old(health)@, views(cands), now) && ranked_selection(
                        cands,
                        |n: Seq<char>| search_key(*config, old(health)@, *request, now, n),
                        Operation::Search,
                        r,
                    )
            },
        },
{
    let now = health.now_ns();
    select_search_candidates_at(config, registry, health, request, now)
}

/// The selection at time `now` of the providers for an extraction.
pub fn select_extract_candidates_at<P>(
    registry: &ProviderRegistry<P>,
    health: &mut HealthStore,
    request: &ExtractRequest,
    now: u128,
) -> (r: Result<Vec<String>, GatewayError>)
    ensures
        match request.provider {
            Some(name) => final(health)@ == old(health)@ && final(health).clock() == old(health).clock()
                && named_selection(*registry, name, r),
            None => {
                let cands = capable_names(registry.entries(), Operation::Extract);
                &&& final(health)@ == checked_all(old(health)@, views(cands), now)
                &&& final(health).clock() == clock_after_checks(old(health).clock(), cands.len(), now)
                &&& ranked_selection(
                    cands,
                    |n: Seq<char>| capability_key(old(health)@, now, n),
                    Operation::Extract,
                    r,
                )
            },
        },
{
    match &request.provider {
        Some(name) => select_named(registry, name),
        None => {
            let cands = registry.extract_providers();
            let ranked = rank_extract_candidates_at(health, cands, request, now);
            proof {
                vstd::seq_lib::to_multiset_len(ranked@);
                vstd::seq_lib::to_multiset_len(cands@);
            }
            if ranked.len() == 0 {
                Err(GatewayError::gateway("no extract providers are enabled"))
            } else {
                Ok(ranked)
            }
        },
    }
}

/// The selection now of the providers for an extraction.
pub fn select_extract_candidates<P>(
    registry: &ProviderRegistry<P>,
    health: &mut HealthStore,
    request: &ExtractRequest,
) -> (r: Result<Vec<String>, GatewayError>)
    ensures
        match request.provider {
            Some(name) => final(health)@ == old(health)@ && final(health).clock() == old(health).clock()
                && named_selection(*registry, name, r),
            None => {
                let cands = capable_names(registry.entries(), Operation::Extract);
                exists|now: u128|
                    #![trigger checked_all(old(health)@, views(cands), now)]
                    now >= old(health).clock() && final(health).clock() == clock_after_checks(
                        old(health).clock(),
                        cands.len(),
                        now,
                    ) && final(health)@ == checked_all(old(health)@, views(cands), now) && ranked_selection(
                        cands,
                        |n: Seq<char>| capability_key(old(health)@, now, n),
                        Operation::Extract,
                        r,
                    )
            },
        },
{
    let now = health.now_ns();
    select_extract_candidates_at(registry, health, request, now)
}

/// The selection at time `now` of the providers for a crawl.
pub fn select_crawl_candidates_at<P>(
    registry: &ProviderRegistry<P>,
    health: &mut HealthStore,
    request: &CrawlRequest,
    now: u128,
) -> (r: Result<Vec<String>, GatewayError>)
    ensures
        match request.provider {
            Some(name) => final(health)@ == old(health)@ && final(health).clock() == old(health).clock()
                && named_selection(*registry, name, r),
            None => {
                let cands = capable_names(registry.entries(), Operation::Crawl);
                &&& final(health)@ == checked_all(old(health)@, views(cands), now)
                &&& final(health).clock() == clock_after_checks(old(health).clock(), cands.len(), now)
                &&& ranked_selection(
                    cands,
                    |n: Seq<char>| capability_key(old(health)@, now, n),
                    Operation::Crawl,
                    r,
                )
            },
        },
{
    match &request.provider {
        Some(name) => select_named(registry, name),
        None => {
            let cands = registry.crawl_providers();
            let ranked = rank_crawl_candidates_at(health, cands, request, now);
            proof {
                vstd::seq_lib::to_multiset_len(ranked@);
                vstd::seq_lib::to_multiset_len(cands@);
            }
            if ranked.len() == 0 {
                Err(GatewayError::gateway("no crawl providers are enabled"))
            } else {
                Ok(ranked)
            }
        },
    }
}

/// The selection now of the providers for a crawl.
pub fn select_crawl_candidates<P>(
    registry: &ProviderRegistry<P>,
    health: &mut HealthStore,
    request: &CrawlRequest,
) -> (r: Result<Vec<String>, GatewayError>)
    ensures
        match request.provider {
            Some(name) => final(health)@ == old(health)@ && final(health).clock() == old(health).clock()
                && named_selection(*registry, name, r),
            None => {
                let cands = capable_names(registry.entries(), Operation::Crawl);
                exists|now: u128|
                    #![trigger checked_all(old(health)@, views(cands), now)]
                    now >= old(health).clock() && final(health).clock() == clock_after_checks(
                        old(health).clock(),
                        cands.len(),
                        now,
                    ) && final(health)@ == checked_all(old(health)@, views(cands), now) && ranked_selection(
                        cands,
                        |n: Seq<char>| capability_key(old(health)@, now, n),
                        Operation::Crawl,
                        r,
                    )
            },
        },
{
    let now = health.now_ns();
    select_crawl_candidates_at(registry, health, request, now)
}

} // verus!
