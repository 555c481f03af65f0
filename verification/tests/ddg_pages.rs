use search_gateway::ddg::{
    build_result, ddg_search, decode_ddg_target, is_result_link, parse_generic_anchor_results,
    parse_html_results, parse_results, safe_search_kp, search_strategies, strategy_reply,
    DdgHit, DdgRequestMethod, DdgResponseLayout, DdgSearchStrategy,
};
use search_gateway::config::DuckDuckGoConfig;
use search_gateway::errors::GatewayError;
use search_gateway::http::HttpReply;

#[test]
fn filters_non_result_links() {
    assert!(is_result_link(
        "/l/?uddg=https%3A%2F%2Fexample.com",
        "https://example.com"
    ));
    assert!(!is_result_link(
        "https://duckduckgo.com/settings",
        "https://duckduckgo.com/settings"
    ));
}

#[test]
fn parses_html_result_cards() {
    let html = r#"
        <div class="result">
          <div class="result__title">
            <a href="/l/?uddg=https%3A%2F%2Fexample.com%2Farticle">Example Article</a>
          </div>
          <a class="result__snippet">Example snippet</a>
        </div>
        "#;

    let results = parse_html_results(html, 5).expect("html parser should succeed");
    assert_eq!(results.len(), 1);
    assert_eq!(results[0].title, "Example Article");
    assert_eq!(results[0].url, "https://example.com/article");
    assert_eq!(results[0].snippet, "Example snippet");
}

#[test]
fn generic_parser_extracts_direct_links() {
    let html = r#"
        <html><body>
          <a href="https://example.com/one">Example One</a>
          <a href="https://duckduckgo.com/settings">Settings</a>
          <a href="/l/?uddg=https%3A%2F%2Fexample.com%2Ftwo">Example Two</a>
        </body></html>
        "#;

    let results = parse_generic_anchor_results(html, 10).expect("generic parser should work");
    assert_eq!(results.len(), 2);
    assert_eq!(results[0].url, "https://example.com/one");
    assert_eq!(results[1].url, "https://example.com/two");
}

#[test]
fn result_links_reject_scripts_mail_and_other_schemes() {
    assert!(!is_result_link("javascript:void(0)", "javascript:void(0)"));
    assert!(!is_result_link("mailto:a@example.com", "MAILTO:a@example.com"));
    assert!(!is_result_link("/relative", "/relative"));
    assert!(is_result_link("http://example.com", "HTTP://EXAMPLE.COM"));
    assert!(is_result_link("/l/?UDDG=x", "https://duckduckgo.com/page"));
}

#[test]
fn redirects_resolve_to_their_target() {
    assert_eq!(
        decode_ddg_target("/l/?uddg=https%3A%2F%2Fexample.com%2Farticle"),
        "https://example.com/article"
    );
    assert_eq!(
        decode_ddg_target("/l/?kh=1&uddg=https%3A%2F%2Fa.example%2F%3Fq%3D1&uddg=ignored"),
        "https://a.example/?q=1"
    );
    assert_eq!(decode_ddg_target("https://example.com/one"), "https://example.com/one");
    assert_eq!(decode_ddg_target("/settings"), "/settings");
}

#[test]
fn html_cards_stop_at_the_limit_and_skip_cards_without_results() {
    let html = r#"
        <div class="result"><div class="result__title"><a href="https://a.example/">  A  </a></div></div>
        <div class="result"><div class="result__title"><a href="https://b.example/">   </a></div></div>
        <div class="result"><div class="result__title"><a href="https://c.example/">C</a></div>
          <div class="result__snippet">  the c  </div></div>
        <div class="result"><div class="result__title"><a href="https://d.example/">D</a></div></div>
        "#;
    let results = parse_html_results(html, 3).expect("html parser should succeed");
    assert_eq!(results.len(), 2);
    assert_eq!(results[0].title, "A");
    assert_eq!(results[0].snippet, "");
    assert_eq!(results[1].title, "C");
    assert_eq!(results[1].snippet, "the c");
}

#[test]
fn plain_links_are_deduplicated_and_limited() {
    let html = r#"
        <a href="https://a.example/">A</a>
        <a href="https://a.example/">A again</a>
        <a href="https://b.example/">B</a>
        <a href="https://c.example/">C</a>
        "#;
    let results = parse_generic_anchor_results(html, 2).expect("generic parser should work");
    assert_eq!(results.len(), 2);
    assert_eq!(results[0].title, "A");
    assert_eq!(results[1].url, "https://b.example/");
}

#[test]
fn lite_pages_are_read_as_plain_links() {
    let html = r#"<div class="result"><div class="result__title"><a href="https://a.example/">A</a></div></div>
        <a href="https://b.example/">B</a>"#;
    let lite = parse_results(html, DdgResponseLayout::Lite, 5).expect("parse");
    assert_eq!(lite.len(), 2);
    let cards = parse_results(html, DdgResponseLayout::Html, 5).expect("parse");
    assert_eq!(cards.len(), 1);
    assert_eq!(cards[0].url, "https://a.example/");
}

#[test]
fn safe_search_codes() {
    assert_eq!(safe_search_kp("off"), "-2");
    assert_eq!(safe_search_kp("strict"), "1");
    assert_eq!(safe_search_kp("moderate"), "-1");
    assert_eq!(safe_search_kp("anything"), "-1");
}

fn endpoints() -> DuckDuckGoConfig {
    let mut c = DuckDuckGoConfig::default();
    c.base_url = "https://h/".to_string();
    c.lite_url = "https://l/".to_string();
    c
}

#[test]
fn strategies_try_html_then_lite_by_post_then_get() {
    let v = search_strategies(&endpoints(), "rust");
    let names: Vec<&str> = v.iter().map(|s| s.name.as_str()).collect();
    assert_eq!(names, vec!["html_post", "html_get", "lite_post", "lite_get"]);
    assert_eq!(v[0].url, "https://h/");
    assert_eq!(v[2].url, "https://l/");
    assert_eq!(v[0].method, DdgRequestMethod::Post);
    assert_eq!(v[1].method, DdgRequestMethod::Get);
    assert_eq!(v[3].layout, DdgResponseLayout::Lite);
}

#[test]
fn every_request_carries_query_region_and_safe_search() {
    let mut c = endpoints();
    c.region = "de-de".to_string();
    c.safe_search = "strict".to_string();
    for s in search_strategies(&c, "rust lang") {
        assert_eq!(
            s.params,
            vec![
                ("q".to_string(), "rust lang".to_string()),
                ("kl".to_string(), "de-de".to_string()),
                ("kp".to_string(), "1".to_string()),
            ]
        );
    }
    c.safe_search = "moderate".to_string();
    assert_eq!(search_strategies(&c, "x")[0].params[2].1, "-1");
}

fn ddg_config() -> DuckDuckGoConfig {
    DuckDuckGoConfig::default()
}

#[test]
fn search_stops_at_the_first_strategy_that_answers() {
    let calls = std::cell::Cell::new(0);
    let r = ddg_search(&ddg_config(), "rust", |s: &DdgSearchStrategy| {
        calls.set(calls.get() + 1);
        if s.name == "html_post" {
            Err(GatewayError::provider("ddg", "search_http_error", "blocked", true))
        } else {
            Ok(vec![DdgHit {
                title: "T".to_string(),
                url: "https://t.example/".to_string(),
                snippet: "S".to_string(),
            }])
        }
    })
    .expect("second strategy answers");
    assert_eq!(calls.get(), 2);
    assert_eq!(r.provider_used, "ddg");
    assert_eq!(r.results.len(), 1);
    assert_eq!(r.results[0].source_provider, "ddg");
    assert_eq!(r.results[0].score, None);
    assert_eq!(r.results[0].title, "T");
}

#[test]
fn search_failing_everywhere_lists_every_strategy() {
    let e = ddg_search(&ddg_config(), "rust", |s: &DdgSearchStrategy| {
        Err(GatewayError::provider("ddg", "search_http_error", &format!("{} down", s.name), false))
    })
    .expect_err("no strategy answers");
    assert_eq!(e.code, "search_transport_error");
    assert!(e.retryable);
    assert_eq!(
        e.message,
        "ddg search failed across strategies: html_post: html_post down | html_get: html_get down | lite_post: lite_post down | lite_get: lite_get down"
    );
}

#[test]
fn search_with_nothing_found_after_a_failure_is_an_error() {
    let e = ddg_search(&ddg_config(), "rust", |s: &DdgSearchStrategy| {
        if s.name == "html_post" {
            Err(GatewayError::provider("ddg", "x", "boom", true))
        } else {
            Ok(Vec::new())
        }
    })
    .expect_err("empty after a failure");
    assert_eq!(e.message, "ddg search failed across strategies: html_post: boom");
}

#[test]
fn search_with_nothing_found_at_once_is_empty() {
    let r = ddg_search(&ddg_config(), "rust", |_s: &DdgSearchStrategy| Ok(Vec::new())).expect("empty");
    assert!(r.results.is_empty());
}

#[test]
fn strategy_replies_become_errors_or_results() {
    let s = &search_strategies(&endpoints(), "q")[0];
    let e = strategy_reply(s, 5, HttpReply::SendFailed("refused".to_string())).expect_err("send");
    assert_eq!(e.code, "search_transport_error");
    assert_eq!(e.message, "ddg html_post request failed: refused");
    assert!(e.retryable);
    let e = strategy_reply(s, 5, HttpReply::ReadFailed("cut".to_string())).expect_err("read");
    assert_eq!(e.code, "search_read_error");
    assert_eq!(e.message, "failed to read ddg html_post response: cut");
    let e = strategy_reply(
        s,
        5,
        HttpReply::Received { status: 403, status_text: "403 Forbidden".to_string(), body: "no".to_string() },
    )
    .expect_err("status");
    assert_eq!(e.code, "search_http_error");
    assert_eq!(e.message, "ddg html_post returned 403 Forbidden: no");
    assert!(!e.retryable);
    let e = strategy_reply(
        s,
        5,
        HttpReply::Received { status: 429, status_text: "429 Too Many Requests".to_string(), body: String::new() },
    )
    .expect_err("status");
    assert!(e.retryable);
    let ok = strategy_reply(
        s,
        5,
        HttpReply::Received {
            status: 200,
            status_text: "200 OK".to_string(),
            body: r#"<a href="https://a.example/">A</a>"#.to_string(),
        },
    )
    .expect("page");
    assert_eq!(ok.len(), 1);
}

#[test]
fn build_result_marks_the_source() {
    let r = build_result("t".to_string(), "https://u/".to_string(), "s".to_string());
    assert_eq!(r.source_provider, "ddg");
    assert_eq!(r.content, None);
    assert_eq!(r.published_at, None);
}
