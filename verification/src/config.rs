//! The gateway's configuration, its built-in defaults, and the rules by
//! which the configuration file and the Tavily token are found.

use vstd::prelude::*;
use crate::text::views;

verus! {

/// Request flow, caching, circuit breaking and provider order.
#[derive(Debug, Clone)]
pub struct GatewayConfig {
    pub default_timeout_ms: u64,
    pub cache_enabled: bool,
    pub cache_ttl_seconds: u64,
    pub circuit_failure_threshold: u32,
    pub circuit_open_seconds: u64,
    pub search_provider_order: Vec<String>,
}

/// The built-in Tavily-compatible provider.
#[derive(Debug, Clone)]
pub struct TavilyConfig {
    pub enabled: bool,
    pub base_url: String,
    pub api_key_env: String,
    pub api_key: Option<String>,
    pub search_path: String,
    pub extract_path: String,
    pub crawl_path: String,
}

/// The built-in DuckDuckGo provider.
#[derive(Debug, Clone)]
pub struct DuckDuckGoConfig {
    pub enabled: bool,
    pub base_url: String,
    pub lite_url: String,
    pub region: String,
    pub safe_search: String,
    pub user_agent: String,
}

/// The whole configuration.
#[derive(Debug, Clone)]
pub struct AppConfig {
    pub gateway: GatewayConfig,
    pub tavily: TavilyConfig,
    pub ddg: DuckDuckGoConfig,
}

pub open spec fn default_provider_order_text() -> Seq<Seq<char>> {
    seq!["tavily"@, "ddg"@]
}

pub open spec fn default_user_agent_text() -> Seq<char> {
    "Mozilla/5.0 (Windows NT 10.0; Win64; x64) AppleWebKit/537.36 (KHTML, like Gecko) Chrome/123.0.0.0 Safari/537.36"@
}

impl GatewayConfig {
    /// Whether this is the built-in gateway configuration.
    pub open spec fn is_default(self) -> bool {
        &&& self.default_timeout_ms == 20_000
        &&& self.cache_enabled
        &&& self.cache_ttl_seconds == 120
        &&& self.circuit_failure_threshold == 3
        &&& self.circuit_open_seconds == 30
        &&& views(self.search_provider_order@) == default_provider_order_text()
    }

    /// How long a cached search lives, in nanoseconds.
    pub fn cache_ttl(&self) -> (ns: u128)
        ensures
            ns == self.cache_ttl_seconds * 1_000_000_000,
    {
        self.cache_ttl_seconds as u128 * 1_000_000_000
    }

    /// How long an opened circuit stays open, in nanoseconds.
    pub fn circuit_open_ns(&self) -> (ns: u128)
        ensures
            ns == self.circuit_open_seconds * 1_000_000_000,
    {
        self.circuit_open_seconds as u128 * 1_000_000_000
    }
}

impl TavilyConfig {
    /// Whether this is the built-in Tavily configuration.
    pub open spec fn is_default(self) -> bool {
        &&& self.enabled
        &&& self.base_url@ == "https://tavily.ivanli.cc"@
        &&& self.api_key_env@ == "TAVILY_HIKARI_TOKEN"@
        &&& self.api_key is None
        &&& self.search_path@ == "/api/tavily/search"@
        &&& self.extract_path@ == "/api/tavily/extract"@
        &&& self.crawl_path@ == "/api/tavily/crawl"@
    }

    /// The token to send: the one written in the configuration wins over
    /// `env_value`, the value of the variable that `api_key_env` names.
    pub fn resolve_api_key(&self, env_value: Option<String>) -> (key: Option<String>)
        ensures
            key == (match self.api_key {
                Some(k) => Some(k),
                None => env_value,
            }),
    {
        match &self.api_key {
            Some(k) => Some(k.clone()),
            None => env_value,
        }
    }
}

impl DuckDuckGoConfig {
    /// Whether this is the built-in DuckDuckGo configuration.
    pub open spec fn is_default(self) -> bool {
        &&& self.enabled
        &&& self.base_url@ == "https://html.duckduckgo.com/html/"@
        &&& self.lite_url@ == "https://lite.duckduckgo.com/lite/"@
        &&& self.region@ == "wt-wt"@
        &&& self.safe_search@ == "moderate"@
        &&& self.user_agent@ == default_user_agent_text()
    }
}

fn default_timeout_ms() -> (v: u64)
    ensures
        v == 20_000,
{
    20_000
}

fn default_cache_enabled() -> (v: bool)
    ensures
        v,
{
    true
}

fn default_cache_ttl_seconds() -> (v: u64)
    ensures
        v == 120,
{
    120
}

fn default_failure_threshold() -> (v: u32)
    ensures
        v == 3,
{
    3
}

fn default_circuit_open_seconds() -> (v: u64)
    ensures
        v == 30,
{
    30
}

fn default_provider_order() -> (v: Vec<String>)
    ensures
        views(v@) == default_provider_order_text(),
{
    let mut v: Vec<String> = Vec::new();
    v.push("tavily".to_owned());
    v.push("ddg".to_owned());
    assert(views(v@) =~= default_provider_order_text());
    v
}

fn default_true() -> (v: bool)
    ensures
        v,
{
    true
}

fn default_tavily_base_url() -> (v: String)
    ensures
        v@ == "https://tavily.ivanli.cc"@,
{
    "https://tavily.ivanli.cc".to_owned()
}

fn default_tavily_api_key_env() -> (v: String)
    ensures
        v@ == "TAVILY_HIKARI_TOKEN"@,
{
    "TAVILY_HIKARI_TOKEN".to_owned()
}

fn default_tavily_search_path() -> (v: String)
    ensures
        v@ == "/api/tavily/search"@,
{
    "/api/tavily/search".to_owned()
}

fn default_tavily_extract_path() -> (v: String)
    ensures
        v@ == "/api/tavily/extract"@,
{
    "/api/tavily/extract".to_owned()
}

fn default_tavily_crawl_path() -> (v: String)
    ensures
        v@ == "/api/tavily/crawl"@,
{
    "/api/tavily/crawl".to_owned()
}

fn default_ddg_base_url() -> (v: String)
    ensures
        v@ == "https://html.duckduckgo.com/html/"@,
{
    "https://html.duckduckgo.com/html/".to_owned()
}

fn default_ddg_lite_url() -> (v: String)
    ensures
        v@ == "https://lite.duckduckgo.com/lite/"@,
{
    "https://lite.duckduckgo.com/lite/".to_owned()
}

fn default_ddg_region() -> (v: String)
    ensures
        v@ == "wt-wt"@,
{
    "wt-wt".to_owned()
}

fn default_ddg_safe_search() -> (v: String)
    ensures
        v@ == "moderate"@,
{
    "moderate".to_owned()
}

fn default_user_agent() -> (v: String)
    ensures
        v@ == default_user_agent_text(),
{
    "Mozilla/5.0 (Windows NT 10.0; Win64; x64) AppleWebKit/537.36 (KHTML, like Gecko) Chrome/123.0.0.0 Safari/537.36".to_owned()
}

impl Default for GatewayConfig {
    fn default() -> (c: Self)
        ensures
            c.is_default(),
    {
        GatewayConfig {
            default_timeout_ms: default_timeout_ms(),
            cache_enabled: default_cache_enabled(),
            cache_ttl_seconds: default_cache_ttl_seconds(),
            circuit_failure_threshold: default_failure_threshold(),
            circuit_open_seconds: default_circuit_open_seconds(),
            search_provider_order: default_provider_order(),
        }
    }
}

impl Default for TavilyConfig {
    fn default() -> (c: Self)
        ensures
            c.is_default(),
    {
        TavilyConfig {
            enabled: default_true(),
            base_url: default_tavily_base_url(),
            api_key_env: default_tavily_api_key_env(),
            api_key: None,
            search_path: default_tavily_search_path(),
            extract_path: default_tavily_extract_path(),
            crawl_path: default_tavily_crawl_path(),
        }
    }
}

impl Default for DuckDuckGoConfig {
    fn default() -> (c: Self)
        ensures
            c.is_default(),
    {
        DuckDuckGoConfig {
            enabled: default_true(),
            base_url: default_ddg_base_url(),
            lite_url: default_ddg_lite_url(),
            region: default_ddg_region(),
            safe_search: default_ddg_safe_search(),
            user_agent: default_user_agent(),
        }
    }
}

impl Default for AppConfig {
    fn default() -> (c: Self)
        ensures
            c.gateway.is_default(),
            c.tavily.is_default(),
            c.ddg.is_default(),
    {
        AppConfig {
            gateway: GatewayConfig::default(),
            tavily: TavilyConfig::default(),
            ddg: DuckDuckGoConfig::default(),
        }
    }
}

/// The gateway settings that a configuration file gives; a key that it
/// leaves out is none.
#[derive(Debug, Clone)]
pub struct GatewaySettings {
    pub default_timeout_ms: Option<u64>,
    pub cache_enabled: Option<bool>,
    pub cache_ttl_seconds: Option<u64>,
    pub circuit_failure_threshold: Option<u32>,
    pub circuit_open_seconds: Option<u64>,
    pub search_provider_order: Option<Vec<String>>,
}

/// The Tavily settings that a configuration file gives.
#[derive(Debug, Clone)]
pub struct TavilySettings {
    pub enabled: Option<bool>,
    pub base_url: Option<String>,
    pub api_key_env: Option<String>,
    pub api_key: Option<String>,
    pub search_path: Option<String>,
    pub extract_path: Option<String>,
    pub crawl_path: Option<String>,
}

/// The DuckDuckGo settings that a configuration file gives.
#[derive(Debug, Clone)]
pub struct DuckDuckGoSettings {
    pub enabled: Option<bool>,
    pub base_url: Option<String>,
    pub lite_url: Option<String>,
    pub region: Option<String>,
    pub safe_search: Option<String>,
    pub user_agent: Option<String>,
}

/// Everything that a configuration file gives.
#[derive(Debug, Clone)]
pub struct ConfigSettings {
    pub gateway: GatewaySettings,
    pub tavily: TavilySettings,
    pub ddg: DuckDuckGoSettings,
}

/// The text that a setting gives, or `fallback` where it gives none.
pub open spec fn text_or(given: Option<String>, fallback: Seq<char>) -> Seq<char> {
    match given {
        Some(v) => v@,
        None => fallback,
    }
}

/// The value that a setting gives, or `fallback` where it gives none.
pub open spec fn value_or<T>(given: Option<T>, fallback: T) -> T {
    match given {
        Some(v) => v,
        None => fallback,
    }
}

impl AppConfig {
    /// Whether this configuration takes each value from `s` and every value
    /// that `s` leaves out from the built-in configuration (where no Tavily
    /// token is built in).
    pub open spec fn settled_from(self, s: ConfigSettings) -> bool {
        &&& self.gateway.default_timeout_ms == value_or(s.gateway.default_timeout_ms, 20_000u64)
        &&& self.gateway.cache_enabled == value_or(s.gateway.cache_enabled, true)
        &&& self.gateway.cache_ttl_seconds == value_or(s.gateway.cache_ttl_seconds, 120u64)
        &&& self.gateway.circuit_failure_threshold == value_or(s.gateway.circuit_failure_threshold, 3u32)
        &&& self.gateway.circuit_open_seconds == value_or(s.gateway.circuit_open_seconds, 30u64)
        &&& views(self.gateway.search_provider_order@) == match s.gateway.search_provider_order {
            Some(v) => views(v@),
            None => default_provider_order_text(),
        }
        &&& self.tavily.enabled == value_or(s.tavily.enabled, true)
        &&& self.tavily.base_url@ == text_or(s.tavily.base_url, "https://tavily.ivanli.cc"@)
        &&& self.tavily.api_key_env@ == text_or(s.tavily.api_key_env, "TAVILY_HIKARI_TOKEN"@)
        &&& self.tavily.api_key == s.tavily.api_key
        &&& self.tavily.search_path@ == text_or(s.tavily.search_path, "/api/tavily/search"@)
        &&& self.tavily.extract_path@ == text_or(s.tavily.extract_path, "/api/tavily/extract"@)
        &&& self.tavily.crawl_path@ == text_or(s.tavily.crawl_path, "/api/tavily/crawl"@)
        &&& self.ddg.enabled == value_or(s.ddg.enabled, true)
        &&& self.ddg.base_url@ == text_or(s.ddg.base_url, "https://html.duckduckgo.com/html/"@)
        &&& self.ddg.lite_url@ == text_or(s.ddg.lite_url, "https://lite.duckduckgo.com/lite/"@)
        &&& self.ddg.region@ == text_or(s.ddg.region, "wt-wt"@)
        &&& self.ddg.safe_search@ == text_or(s.ddg.safe_search, "moderate"@)
        &&& self.ddg.user_agent@ == text_or(s.ddg.user_agent, default_user_agent_text())
    }

    /// The configuration that a configuration file gives: each value it
    /// sets, and the built-in one for each value it leaves out.
    pub fn from_settings(s: ConfigSettings) -> (c: AppConfig)
        ensures
            c.settled_from(s),
    {
        let g = s.gateway;
        let t = s.tavily;
        let d = s.ddg;
        let gateway = GatewayConfig {
            default_timeout_ms: match g.default_timeout_ms {
                Some(v) => v,
                None => default_timeout_ms(),
            },
            cache_enabled: match g.cache_enabled {
                Some(v) => v,
                None => default_cache_enabled(),
            },
            cache_ttl_seconds: match g.cache_ttl_seconds {
                Some(v) => v,
                None => default_cache_ttl_seconds(),
            },
            circuit_failure_threshold: match g.circuit_failure_threshold {
                Some(v) => v,
                None => default_failure_threshold(),
            },
            circuit_open_seconds: match g.circuit_open_seconds {
                Some(v) => v,
                None => default_circuit_open_seconds(),
            },
            search_provider_order: match g.search_provider_order {
                Some(v) => v,
                None => default_provider_order(),
            },
        };
        let tavily = TavilyConfig {
            enabled: match t.enabled {
                Some(v) => v,
                None => default_true(),
            },
            base_url: match t.base_url {
                Some(v) => v,
                None => default_tavily_base_url(),
            },
            api_key_env: match t.api_key_env {
                Some(v) => v,
                None => default_tavily_api_key_env(),
            },
            api_key: t.api_key,
            search_path: match t.search_path {
                Some(v) => v,
                None => default_tavily_search_path(),
            },
            extract_path: match t.extract_path {
                Some(v) => v,
                None => default_tavily_extract_path(),
            },
            crawl_path: match t.crawl_path {
                Some(v) => v,
                None => default_tavily_crawl_path(),
            },
        };
        let ddg = DuckDuckGoConfig {
            enabled: match d.enabled {
                Some(v) => v,
                None => default_true(),
            },
            base_url: match d.base_url {
                Some(v) => v,
                None => default_ddg_base_url(),
            },
            lite_url: match d.lite_url {
                Some(v) => v,
                None => default_ddg_lite_url(),
            },
            region: match d.region {
                Some(v) => v,
                None => default_ddg_region(),
            },
            safe_search: match d.safe_search {
                Some(v) => v,
                None => default_ddg_safe_search(),
            },
            user_agent: match d.user_agent {
                Some(v) => v,
                None => default_user_agent(),
            },
        };
        AppConfig { gateway, tavily, ddg }
    }
}

/// A configuration file that sets nothing gives the built-in configuration.
pub proof fn lemma_empty_settings_give_defaults(c: AppConfig, s: ConfigSettings)
    requires
        c.settled_from(s),
        s.gateway.default_timeout_ms is None,
        s.gateway.cache_enabled is None,
        s.gateway.cache_ttl_seconds is None,
        s.gateway.circuit_failure_threshold is None,
        s.gateway.circuit_open_seconds is None,
        s.gateway.search_provider_order is None,
        s.tavily.enabled is None,
        s.tavily.base_url is None,
        s.tavily.api_key_env is None,
        s.tavily.api_key is None,
        s.tavily.search_path is None,
        s.tavily.extract_path is None,
        s.tavily.crawl_path is None,
        s.ddg.enabled is None,
        s.ddg.base_url is None,
        s.ddg.lite_url is None,
        s.ddg.region is None,
        s.ddg.safe_search is None,
        s.ddg.user_agent is None,
    ensures
        c.gateway.is_default(),
        c.tavily.is_default(),
        c.ddg.is_default(),
{
}

/// The configuration file to read: the path given on the command line, or
/// else the one in the `SEARCH_MCP_GATEWAY_CONFIG` variable (`from_env`),
/// or else `search-mcp-gateway.toml` in the working directory.
pub fn resolve_config_path(explicit: Option<String>, from_env: Option<String>) -> (path: String)
    ensures
        path@ == (match explicit {
            Some(p) => p@,
            None => match from_env {
                Some(p) => p@,
                None => "search-mcp-gateway.toml"@,
            },
        }),
{
    match explicit {
        Some(p) => p,
        None => match from_env {
            Some(p) => p,
            None => "search-mcp-gateway.toml".to_owned(),
        },
    }
}

} // verus!
