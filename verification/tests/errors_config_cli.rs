use search_gateway::cli::{Cli, Commands, Invocation};
use search_gateway::config::{
    resolve_config_path, AppConfig, ConfigSettings, DuckDuckGoSettings, GatewayConfig, GatewaySettings, TavilySettings,
};
use search_gateway::errors::{ErrorStage, GatewayError, ProviderFailure};
use search_gateway::models::{OutputMode, SearchDepth, SearchTopic, ToolEnvelope};
use search_gateway::registry::{Operation, ProviderCapabilities, ProviderRegistry};
use search_gateway::strategy::select_search_candidates;
use search_gateway::health::HealthStore;

#[test]
fn error_constructors_set_code_stage_and_retry() {
    let e = GatewayError::validation("bad");
    assert_eq!((e.code.as_str(), e.stage, e.retryable), ("validation_error", ErrorStage::Validation, false));
    assert_eq!(GatewayError::config("c").code, "config_error");
    assert_eq!(GatewayError::gateway("g").stage, ErrorStage::Gateway);
    assert_eq!(GatewayError::transport("t").code, "transport_error");
    assert_eq!(GatewayError::serialization("s").stage, ErrorStage::Serialization);
    let p = GatewayError::provider("ddg", "x_error", "boom", true);
    assert_eq!(p.provider.as_deref(), Some("ddg"));
    assert_eq!(p.stage, ErrorStage::Provider);
    assert!(p.retryable);
    assert!(!p.fallback_attempted);
    assert_eq!(p.display_text(), "x_error: boom");
}

#[test]
fn failure_records_name_the_gateway_when_no_provider_is_known() {
    let f: ProviderFailure = GatewayError::gateway("none").as_provider_failure();
    assert_eq!(f.provider, "gateway");
    assert_eq!(f.code, "gateway_error");
    let f = GatewayError::provider("tavily", "c", "m", true).as_provider_failure();
    assert_eq!(f.provider, "tavily");
    assert!(f.retryable);
}

#[test]
fn fallback_context_is_attached_only_when_there_is_some() {
    let e = GatewayError::gateway("x").with_fallback_context(Vec::new(), Vec::new());
    assert!(!e.fallback_attempted);
    assert_eq!(e.attempted_providers, None);
    assert!(e.fallback_failures.is_none());
    let f = GatewayError::provider("a", "c", "m", true).as_provider_failure();
    let e = GatewayError::gateway("x").with_fallback_context(vec!["a".to_string()], vec![f]);
    assert!(!e.fallback_attempted);
    assert_eq!(e.attempted_providers, Some(vec!["a".to_string()]));
    let e = GatewayError::gateway("x").with_fallback_attempted(true);
    assert!(e.fallback_attempted);
}

#[test]
fn error_reports_list_the_attempts() {
    let fa = GatewayError::provider("tavily", "c1", "m1", true).as_provider_failure();
    let fb = GatewayError::provider("ddg", "c2", "m2", true).as_provider_failure();
    let e = GatewayError::provider("ddg", "c2", "m2", true)
        .with_fallback_context(vec!["tavily".to_string(), "ddg".to_string()], vec![fa, fb]);
    assert_eq!(
        e.report_lines(),
        vec![
            "c2: m2".to_string(),
            "attempted providers: tavily -> ddg".to_string(),
            "tavily [c1]: m1".to_string(),
            "ddg [c2]: m2".to_string(),
        ]
    );
    assert_eq!(GatewayError::validation("v").report_lines(), vec!["validation_error: v".to_string()]);
}

#[test]
fn envelopes_carry_data_or_error() {
    let ok = ToolEnvelope::success(5u32);
    assert!(ok.ok && ok.data == Some(5) && ok.error.is_none());
    let bad: ToolEnvelope<u32> = ToolEnvelope::failure(GatewayError::gateway("x"));
    assert!(!bad.ok && bad.data.is_none());
    assert_eq!(bad.error.map(|e| e.message), Some("x".to_string()));
}

#[test]
fn configuration_defaults_and_lookup_order() {
    let c = AppConfig::default();
    assert_eq!(c.gateway.default_timeout_ms, 20_000);
    assert_eq!(c.gateway.cache_ttl(), 120_000_000_000);
    assert_eq!(c.gateway.circuit_open_ns(), 30_000_000_000);
    assert_eq!(c.gateway.circuit_failure_threshold, 3);
    assert_eq!(c.gateway.search_provider_order, vec!["tavily".to_string(), "ddg".to_string()]);
    assert_eq!(c.tavily.base_url, "https://tavily.ivanli.cc");
    assert_eq!(c.tavily.api_key_env, "TAVILY_HIKARI_TOKEN");
    assert_eq!(c.ddg.safe_search, "moderate");
    assert_eq!(c.ddg.region, "wt-wt");
    assert_eq!(resolve_config_path(Some("a.toml".to_string()), Some("b.toml".to_string())), "a.toml");
    assert_eq!(resolve_config_path(None, Some("b.toml".to_string())), "b.toml");
    assert_eq!(resolve_config_path(None, None), "search-mcp-gateway.toml");
    assert_eq!(c.tavily.resolve_api_key(Some("env".to_string())).as_deref(), Some("env"));
    let mut t = c.tavily.clone();
    t.api_key = Some("file".to_string());
    assert_eq!(t.resolve_api_key(Some("env".to_string())).as_deref(), Some("file"));
    let g = GatewayConfig::default();
    assert!(g.cache_enabled);
}

#[test]
fn enum_texts() {
    assert_eq!(SearchTopic::General.as_str(), "general");
    assert_eq!(SearchTopic::News.as_str(), "news");
    assert_eq!(SearchDepth::Basic.as_str(), "basic");
    assert_eq!(SearchDepth::Advanced.as_str(), "advanced");
}

#[test]
fn search_commands_become_requests() {
    let cli = Cli {
        config: None,
        json: true,
        command: Commands::Search {
            query: "q".to_string(),
            provider: None,
            topic: None,
            max_results: Some(3),
            search_depth: None,
            include_answer: false,
            include_raw_content: true,
            include_images: false,
            days: None,
            site_filter: Vec::new(),
            exclude_domain: vec!["x.example".to_string()],
            country: None,
            language: None,
            timeout_ms: None,
        },
    };
    assert!(matches!(cli.output_mode(), OutputMode::Json));
    match cli.command.into_invocation() {
        Invocation::Search(r) => {
            assert_eq!(r.include_answer, Some(false));
            assert_eq!(r.include_raw_content, Some(true));
            assert_eq!(r.site_filter, None);
            assert_eq!(r.exclude_domains, Some(vec!["x.example".to_string()]));
            assert_eq!(r.max_results, Some(3));
        }
        other => panic!("{:?}", other),
    }
    assert!(matches!(Commands::Status.into_invocation(), Invocation::Status));
}

#[test]
fn registry_keeps_one_provider_per_name() {
    let mut reg: ProviderRegistry<u8> = ProviderRegistry::new();
    reg.register("tavily".to_string(), ProviderCapabilities::tavily(), 1);
    reg.register("ddg".to_string(), ProviderCapabilities::duckduckgo(), 2);
    reg.register("tavily".to_string(), ProviderCapabilities::tavily(), 3);
    assert_eq!(reg.names(), vec!["tavily".to_string(), "ddg".to_string()]);
    assert_eq!(reg.get("tavily"), Some(&3));
    assert_eq!(reg.get("nope"), None);
    assert_eq!(reg.names_for(Operation::Extract), vec!["tavily".to_string()]);
    assert_eq!(reg.search_providers().len(), 2);
    assert!(reg.crawl_providers().len() == 1 && reg.extract_providers().len() == 1);
    let caps = reg.providers_with_capabilities();
    assert_eq!(caps[1].0, "ddg");
    assert!(!caps[1].1.extract);
}

#[test]
fn selection_rejects_unknown_names() {
    let mut reg: ProviderRegistry<u8> = ProviderRegistry::new();
    reg.register("ddg".to_string(), ProviderCapabilities::duckduckgo(), 2);
    let mut health = HealthStore::new(3, 30_000_000_000);
    let mut req = search_gateway::models::SearchRequest {
        query: "q".to_string(),
        provider: Some("tavily".to_string()),
        topic: None,
        max_results: None,
        search_depth: None,
        include_answer: None,
        include_raw_content: None,
        include_images: None,
        days: None,
        site_filter: None,
        exclude_domains: None,
        country: None,
        language: None,
        timeout_ms: None,
    };
    let e = select_search_candidates(&GatewayConfig::default(), &reg, &mut health, &req).expect_err("unknown");
    assert_eq!(e.message, "unknown provider: tavily");
    req.provider = None;
    let v = select_search_candidates(&GatewayConfig::default(), &reg, &mut health, &req).expect("ddg");
    assert_eq!(v, vec!["ddg".to_string()]);
}

#[test]
fn unsupported_operations_are_not_retried() {
    let e = search_gateway::registry::unsupported_operation("ddg", Operation::Extract);
    assert_eq!(e.code, "unsupported_operation");
    assert_eq!(e.message, "provider does not support extract");
    assert_eq!(e.provider.as_deref(), Some("ddg"));
    assert!(!e.retryable);
}

#[test]
fn duckduckgo_asks_for_five_results_unless_told_otherwise() {
    assert_eq!(search_gateway::ddg::ddg_max_results(None), 5);
    assert_eq!(search_gateway::ddg::ddg_max_results(Some(9)), 9);
}

fn no_settings() -> ConfigSettings {
    ConfigSettings {
        gateway: GatewaySettings {
            default_timeout_ms: None,
            cache_enabled: None,
            cache_ttl_seconds: None,
            circuit_failure_threshold: None,
            circuit_open_seconds: None,
            search_provider_order: None,
        },
        tavily: TavilySettings {
            enabled: None,
            base_url: None,
            api_key_env: None,
            api_key: None,
            search_path: None,
            extract_path: None,
            crawl_path: None,
        },
        ddg: DuckDuckGoSettings {
            enabled: None,
            base_url: None,
            lite_url: None,
            region: None,
            safe_search: None,
            user_agent: None,
        },
    }
}

#[test]
fn a_file_that_sets_nothing_gives_the_built_in_configuration() {
    let c = AppConfig::from_settings(no_settings());
    assert_eq!(c.gateway.default_timeout_ms, 20_000);
    assert!(c.gateway.cache_enabled);
    assert_eq!(c.gateway.cache_ttl_seconds, 120);
    assert_eq!(c.gateway.circuit_failure_threshold, 3);
    assert_eq!(c.gateway.circuit_open_seconds, 30);
    assert_eq!(c.gateway.search_provider_order, vec!["tavily".to_string(), "ddg".to_string()]);
    assert!(c.tavily.enabled);
    assert_eq!(c.tavily.base_url, "https://tavily.ivanli.cc");
    assert_eq!(c.tavily.api_key_env, "TAVILY_HIKARI_TOKEN");
    assert_eq!(c.tavily.api_key, None);
    assert_eq!(c.tavily.search_path, "/api/tavily/search");
    assert_eq!(c.ddg.region, "wt-wt");
    assert_eq!(c.ddg.safe_search, "moderate");
}

#[test]
fn values_a_file_sets_replace_the_built_in_ones() {
    let mut s = no_settings();
    s.gateway.cache_enabled = Some(false);
    s.gateway.circuit_failure_threshold = Some(5);
    s.gateway.search_provider_order = Some(vec!["ddg".to_string()]);
    s.tavily.api_key = Some("k".to_string());
    s.tavily.base_url = Some("http://localhost:1".to_string());
    s.ddg.enabled = Some(false);
    s.ddg.region = Some("de-de".to_string());
    let c = AppConfig::from_settings(s);
    assert!(!c.gateway.cache_enabled);
    assert_eq!(c.gateway.circuit_failure_threshold, 5);
    assert_eq!(c.gateway.cache_ttl_seconds, 120);
    assert_eq!(c.gateway.search_provider_order, vec!["ddg".to_string()]);
    assert_eq!(c.tavily.api_key.as_deref(), Some("k"));
    assert_eq!(c.tavily.base_url, "http://localhost:1");
    assert_eq!(c.tavily.extract_path, "/api/tavily/extract");
    assert!(!c.ddg.enabled);
    assert_eq!(c.ddg.region, "de-de");
    assert_eq!(c.ddg.lite_url, "https://lite.duckduckgo.com/lite/");
}
