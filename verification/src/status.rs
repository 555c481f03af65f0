//! The report of every registered provider: what it can do and its health.

use vstd::prelude::*;
use crate::health::{HealthSnapshot, HealthStore, HealthStoreView};
use crate::registry::ProviderRegistry;

verus! {

/// One provider in the report.
#[derive(Debug, Clone)]
pub struct ProviderStatus {
    pub provider: String,
    pub search: bool,
    pub extract: bool,
    pub crawl: bool,
    pub enabled: bool,
    pub health: HealthSnapshot,
}

/// The report of all registered providers.
#[derive(Debug, Clone)]
pub struct StatusResponse {
    pub providers: Vec<ProviderStatus>,
}

/// Whether `st` reports the registered provider `i` of `registry` at `now`.
pub open spec fn reports_provider<P>(
    st: ProviderStatus,
    registry: ProviderRegistry<P>,
    h: HealthStoreView,
    i: int,
    now: u128,
) -> bool {
    let e = registry.entries()[i];
    &&& st.provider == e.name
    &&& st.search == e.capabilities.search
    &&& st.extract == e.capabilities.extract
    &&& st.crawl == e.capabilities.crawl
    &&& st.enabled
    &&& h.reports(st.health, e.name@, now)
}

/// Whether `report` lists every registered provider of `registry`, in
/// registry order, as the store `h` reports it at `now`.
pub open spec fn reports_registry<P>(
    report: StatusResponse,
    registry: ProviderRegistry<P>,
    h: HealthStoreView,
    now: u128,
) -> bool {
    &&& report.providers.len() == registry.entries().len()
    &&& forall|i: int|
        0 <= i < report.providers.len() ==> reports_provider(
            #[trigger] report.providers@[i],
            registry,
            h,
            i,
            now,
        )
}

/// The report at time `now`: every registered provider, in registry order,
/// with its capabilities and its health.
pub fn status_report_at<P>(registry: &ProviderRegistry<P>, health: &HealthStore, now: u128) -> (report: StatusResponse)
    ensures
        reports_registry(report, *registry, health@, now),
{
    let list = registry.providers_with_capabilities();
    let mut providers: Vec<ProviderStatus> = Vec::new();
    let mut i: usize = 0;
    while i < list.len()
        invariant
            i <= list.len(),
            list.len() == registry.entries().len(),
            forall|j: int|
                0 <= j < list.len() ==> (#[trigger] list@[j]).0 == registry.entries()[j].name
                    && list@[j].1 == registry.entries()[j].capabilities,
            providers.len() == i,
            forall|j: int|
                0 <= j < i ==> reports_provider(#[trigger] providers@[j], *registry, health@, j, now),
        decreases list.len() - i,
    {
        let name = &list[i].0;
        let caps = list[i].1;
        let snap = health.snapshot_at(name, now);
        providers.push(
            ProviderStatus {
                provider: name.clone(),
                search: caps.search,
                extract: caps.extract,
                crawl: caps.crawl,
                enabled: true,
                health: snap,
            },
        );
        i = i + 1;
    }
    StatusResponse { providers }
}

/// The report now, at a reading of the clock no earlier than any time that
/// the health store has seen.
pub fn status_report<P>(registry: &ProviderRegistry<P>, health: &HealthStore) -> (report: StatusResponse)
    ensures
        exists|now: u128| now >= health.clock() && #[trigger] reports_registry(report, *registry, health@, now),
{
    let now = health.now_ns();
    status_report_at(registry, health, now)
}

} // verus!
