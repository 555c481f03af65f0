use search_gateway::config::GatewayConfig;
use search_gateway::health::HealthStore;
use search_gateway::models::{SearchDepth, SearchRequest, SearchTopic, ExtractRequest};
use search_gateway::ranking::{
    prefer_rich_search_provider, rank_extract_candidates_at, rank_search_candidates,
    rank_search_candidates_at, static_search_rank,
};

fn request() -> SearchRequest {
    SearchRequest {
        query: "test".to_string(),
        provider: None,
        topic: None,
        max_results: None,
        search_depth: None,
        include_answer: None,
        include_raw_content: None,
        include_images: None,
        days: None,
        site_filter: None,
        exclude_domains: None,
        country: None,
        language: None,
        timeout_ms: None,
    }
}

fn names(v: &[&str]) -> Vec<String> {
    v.iter().map(|s| s.to_string()).collect()
}

#[test]
fn default_search_prefers_tavily_for_rich_results() {
    let mut health = HealthStore::new(3, 30_000_000_000);
    let ranked = rank_search_candidates(&GatewayConfig::default(), &mut health, &request(), names(&["ddg", "tavily"]));
    assert_eq!(ranked, vec!["tavily", "ddg"]);
}

#[test]
fn config_order_still_applies_when_rich_search_preference_is_not_needed() {
    let mut health = HealthStore::new(3, 30_000_000_000);
    let mut config = GatewayConfig::default();
    config.search_provider_order = vec!["ddg".to_string(), "tavily".to_string()];
    let mut request = request();
    request.include_answer = Some(false);
    let ranked = rank_search_candidates(&config, &mut health, &request, names(&["tavily", "ddg"]));
    assert_eq!(ranked, vec!["ddg", "tavily"]);
}

#[test]
fn topic_queries_prefer_tavily_even_if_include_answer_is_disabled() {
    let mut health = HealthStore::new(3, 30_000_000_000);
    let mut request = request();
    request.include_answer = Some(false);
    request.topic = Some(SearchTopic::News);
    let ranked = rank_search_candidates(&GatewayConfig::default(), &mut health, &request, names(&["ddg", "tavily"]));
    assert_eq!(ranked, vec!["tavily", "ddg"]);
}

#[test]
fn open_circuits_rank_last() {
    let mut health = HealthStore::new(1, 30_000);
    health.record_failure_at("tavily", "down".to_string(), 100);
    let ranked = rank_search_candidates_at(
        &GatewayConfig::default(),
        &mut health,
        &request(),
        names(&["tavily", "ddg"]),
        200,
    );
    assert_eq!(ranked, vec!["ddg", "tavily"]);
    let ranked = rank_search_candidates_at(
        &GatewayConfig::default(),
        &mut health,
        &request(),
        names(&["tavily", "ddg"]),
        30_100,
    );
    assert_eq!(ranked, vec!["tavily", "ddg"]);
}

#[test]
fn rich_preference_follows_each_option() {
    let tavily = "tavily".to_string();
    let mut r = request();
    r.include_answer = Some(false);
    assert!(!prefer_rich_search_provider(&r, &tavily));
    r.include_raw_content = Some(true);
    assert!(prefer_rich_search_provider(&r, &tavily));
    r.include_raw_content = None;
    r.include_images = Some(true);
    assert!(prefer_rich_search_provider(&r, &tavily));
    r.include_images = Some(false);
    r.search_depth = Some(SearchDepth::Advanced);
    assert!(prefer_rich_search_provider(&r, &tavily));
    r.search_depth = Some(SearchDepth::Basic);
    assert!(!prefer_rich_search_provider(&r, &tavily));
    assert!(!prefer_rich_search_provider(&request(), &"ddg".to_string()));
    assert!(prefer_rich_search_provider(&request(), &tavily));
}

#[test]
fn unlisted_providers_come_after_listed_ones() {
    let config = GatewayConfig::default();
    assert_eq!(static_search_rank(&config, &"tavily".to_string()), 0);
    assert_eq!(static_search_rank(&config, &"ddg".to_string()), 1);
    assert_eq!(static_search_rank(&config, &"other".to_string()), usize::MAX / 2);
}

#[test]
fn extraction_ranks_by_failures_then_name() {
    let mut health = HealthStore::new(5, 30_000_000_000);
    health.record_failure_at("a", "e".to_string(), 0);
    let req = ExtractRequest { urls: vec!["https://x/".to_string()], provider: None, include_images: None, timeout_ms: None };
    let ranked = rank_extract_candidates_at(&mut health, names(&["c", "a", "b"]), &req, 10);
    assert_eq!(ranked, vec!["b", "c", "a"]);
}
