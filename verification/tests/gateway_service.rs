use std::cell::Cell;

use search_gateway::config::AppConfig;
use search_gateway::errors::GatewayError;
use search_gateway::fallback::with_provider_fallback;
use search_gateway::health::HealthStore;
use search_gateway::models::{CrawlRequest, CrawlResponse, ExtractRequest, ExtractResponse, SearchRequest, SearchResponse};
use search_gateway::service::GatewayService;

fn search_request(query: &str) -> SearchRequest {
    SearchRequest {
        query: query.to_string(),
        provider: None,
        topic: None,
        max_results: None,
        search_depth: None,
        include_answer: None,
        include_raw_content: None,
        include_images: None,
        days: None,
        site_filter: None,
        exclude_domains: None,
        country: None,
        language: None,
        timeout_ms: None,
    }
}

fn response(name: &str) -> SearchResponse {
    SearchResponse {
        provider_used: name.to_string(),
        fallback_chain: Vec::new(),
        latency_ms: 0,
        warnings: Vec::new(),
        request_id: None,
        answer: Some(format!("answer from {name}")),
        follow_up_questions: None,
        results: Vec::new(),
        images: Vec::new(),
    }
}

fn service(config: AppConfig) -> GatewayService<String> {
    GatewayService::from_config(config, |name: &String| Ok(name.clone())).expect("service")
}

#[test]
fn service_fallback_uses_second_provider_after_retryable_error() {
    let mut health = HealthStore::new(3, 30_000_000_000);
    let first_fails_once = Cell::new(true);
    let request = search_request("test");
    let (response, chain) = with_provider_fallback(
        &mut health,
        vec!["first".to_string(), "second".to_string()],
        |name: &String| {
            if name == "first" && first_fails_once.get() {
                first_fails_once.set(false);
                return Err(GatewayError::provider("first", "timeout", "temporary upstream timeout", true));
            }
            let _ = &request;
            Ok(response(name))
        },
    )
    .expect("fallback should succeed");

    assert_eq!(response.provider_used, "second");
    assert_eq!(chain, vec!["first".to_string(), "second".to_string()]);
}

#[test]
fn a_search_falls_back_and_records_the_chain() {
    let mut svc = service(AppConfig::default());
    let r = svc
        .search(search_request("rust"), "k1".to_string(), |p: &String, _q: &SearchRequest| {
            if p == "tavily" {
                Err(GatewayError::provider("tavily", "search_http_error", "busy", true))
            } else {
                Ok(response(p))
            }
        })
        .expect("ddg answers");
    assert_eq!(r.provider_used, "ddg");
    assert_eq!(r.fallback_chain, vec!["tavily".to_string(), "ddg".to_string()]);
    let report = svc.status();
    assert_eq!(report.providers.len(), 2);
    assert_eq!(report.providers[0].provider, "tavily");
    assert_eq!(report.providers[0].health.consecutive_failures, 1);
    assert_eq!(report.providers[0].health.last_error.as_deref(), Some("busy"));
    assert_eq!(report.providers[1].health.successes, 1);
    assert!(report.providers[1].health.last_latency_ms.is_some());
}

#[test]
fn a_repeated_search_is_answered_from_the_cache() {
    let mut svc = service(AppConfig::default());
    let calls = Cell::new(0);
    let call = |p: &String, _q: &SearchRequest| {
        calls.set(calls.get() + 1);
        Ok(response(p))
    };
    let first = svc.search(search_request("rust"), "key".to_string(), &call).expect("first");
    let second = svc.search(search_request("rust"), "key".to_string(), &call).expect("second");
    assert_eq!(calls.get(), 1);
    assert_eq!(first.provider_used, "tavily");
    assert_eq!(second.provider_used, first.provider_used);
    assert_eq!(second.fallback_chain, first.fallback_chain);
    assert_eq!(second.latency_ms, first.latency_ms);
    assert_eq!(second.answer, first.answer);
    let third = svc.search(search_request("rust"), "other".to_string(), &call).expect("third");
    assert_eq!(calls.get(), 2);
    assert_eq!(third.provider_used, "tavily");
}

#[test]
fn without_caching_every_search_reaches_a_provider() {
    let mut config = AppConfig::default();
    config.gateway.cache_enabled = false;
    let mut svc = service(config);
    let calls = Cell::new(0);
    let call = |p: &String, _q: &SearchRequest| {
        calls.set(calls.get() + 1);
        Ok(response(p))
    };
    svc.search(search_request("rust"), "key".to_string(), &call).expect("first");
    svc.search(search_request("rust"), "key".to_string(), &call).expect("second");
    assert_eq!(calls.get(), 2);
}

#[test]
fn a_blank_query_is_refused_before_any_provider() {
    let mut svc = service(AppConfig::default());
    let calls = Cell::new(0);
    let e = svc
        .search(search_request("   "), "k".to_string(), |p: &String, _q: &SearchRequest| {
            calls.set(calls.get() + 1);
            Ok(response(p))
        })
        .expect_err("refused");
    assert_eq!(calls.get(), 0);
    assert_eq!(e.code, "validation_error");
    assert_eq!(e.message, "query must not be empty");
    let mut r = search_request("q");
    r.max_results = Some(0);
    let e = svc
        .search(r, "k".to_string(), |p: &String, _q: &SearchRequest| Ok(response(p)))
        .expect_err("refused");
    assert_eq!(e.message, "max_results must be greater than 0");
}

#[test]
fn a_named_provider_is_used_alone_or_refused() {
    let mut svc = service(AppConfig::default());
    let mut r = search_request("q");
    r.provider = Some("ddg".to_string());
    let resp = svc
        .search(r, "a".to_string(), |p: &String, _q: &SearchRequest| Ok(response(p)))
        .expect("ddg");
    assert_eq!(resp.fallback_chain, vec!["ddg".to_string()]);
    let mut r = search_request("q");
    r.provider = Some("nope".to_string());
    let e = svc
        .search(r, "b".to_string(), |p: &String, _q: &SearchRequest| Ok(response(p)))
        .expect_err("unknown");
    assert_eq!(e.code, "validation_error");
    assert_eq!(e.message, "unknown provider: nope");
}

#[test]
fn operations_without_a_capable_provider_fail() {
    let mut config = AppConfig::default();
    config.tavily.enabled = false;
    let mut svc = service(config);
    let e = svc
        .extract(
            ExtractRequest { urls: vec!["https://a/".to_string()], provider: None, include_images: None, timeout_ms: None },
            |_p: &String, _q: &ExtractRequest| -> Result<ExtractResponse, GatewayError> {
                Err(GatewayError::gateway("unused"))
            },
        )
        .expect_err("no extract provider");
    assert_eq!(e.message, "no extract providers are enabled");
    let e = svc
        .crawl(
            CrawlRequest { url: "https://a/".to_string(), provider: None, limit: None, max_depth: None, instructions: None, timeout_ms: None },
            |_p: &String, _q: &CrawlRequest| -> Result<CrawlResponse, GatewayError> {
                Err(GatewayError::gateway("unused"))
            },
        )
        .expect_err("no crawl provider");
    assert_eq!(e.message, "no crawl providers are enabled");
    let mut config = AppConfig::default();
    config.tavily.enabled = false;
    config.ddg.enabled = false;
    let mut svc = service(config);
    let e = svc
        .search(search_request("q"), "k".to_string(), |p: &String, _q: &SearchRequest| Ok(response(p)))
        .expect_err("no search provider");
    assert_eq!(e.message, "no search providers are enabled");
    assert!(svc.status().providers.is_empty());
}

#[test]
fn extraction_records_chain_and_latency() {
    let mut svc = service(AppConfig::default());
    let r = svc
        .extract(
            ExtractRequest { urls: vec!["https://a/".to_string()], provider: None, include_images: None, timeout_ms: None },
            |p: &String, _q: &ExtractRequest| {
                Ok(ExtractResponse {
                    provider_used: p.clone(),
                    fallback_chain: Vec::new(),
                    latency_ms: 0,
                    warnings: Vec::new(),
                    documents: Vec::new(),
                })
            },
        )
        .expect("tavily extracts");
    assert_eq!(r.provider_used, "tavily");
    assert_eq!(r.fallback_chain, vec!["tavily".to_string()]);
    let e = svc
        .extract(
            ExtractRequest { urls: Vec::new(), provider: None, include_images: None, timeout_ms: None },
            |p: &String, _q: &ExtractRequest| -> Result<ExtractResponse, GatewayError> {
                Err(GatewayError::gateway(p))
            },
        )
        .expect_err("no urls");
    assert_eq!(e.message, "urls must not be empty");
    let e = svc
        .crawl(
            CrawlRequest { url: " ".to_string(), provider: None, limit: None, max_depth: None, instructions: None, timeout_ms: None },
            |p: &String, _q: &CrawlRequest| -> Result<CrawlResponse, GatewayError> {
                Err(GatewayError::gateway(p))
            },
        )
        .expect_err("blank url");
    assert_eq!(e.message, "url must not be empty");
}

#[test]
fn a_provider_that_cannot_be_built_stops_the_service() {
    let r: Result<GatewayService<String>, GatewayError> = GatewayService::from_config(AppConfig::default(), |name: &String| {
        if name == "ddg" {
            Err(GatewayError::config("failed to build HTTP client: nope"))
        } else {
            Ok(name.clone())
        }
    });
    let e = r.err().expect("ddg cannot be built");
    assert_eq!(e.code, "config_error");
}

#[test]
fn status_reports_each_provider_with_its_capabilities() {
    let svc = service(AppConfig::default());
    let report = svc.status();
    assert_eq!(report.providers.len(), 2);
    assert_eq!(report.providers[0].provider, "tavily");
    assert!(report.providers[0].search && report.providers[0].extract && report.providers[0].crawl);
    assert_eq!(report.providers[1].provider, "ddg");
    assert!(report.providers[1].search && !report.providers[1].extract && !report.providers[1].crawl);
    assert!(report.providers[1].enabled);
    assert!(!report.providers[1].health.circuit_open);
}
