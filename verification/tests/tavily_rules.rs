use search_gateway::config::AppConfig;
use search_gateway::http::HttpReply;
use search_gateway::json::JsonValue;
use search_gateway::models::{CrawlRequest, ExtractRequest, SearchDepth, SearchRequest, SearchTopic};
use search_gateway::tavily::{
    crawl_payload, endpoint, extract_payload, map_crawl_response, map_extract_response,
    map_search_response, normalize_base_url, retry_step, search_payload, tavily_decode_error,
    tavily_reply, RetryStep, TavilySettings, INITIAL_BACKOFF_MS, MAX_RETRY_ATTEMPTS,
};
use search_gateway::errors::GatewayError;
use search_gateway::tavily::{tavily_decode, tavily_exchange, tavily_search_outcome};

fn s(t: &str) -> JsonValue {
    JsonValue::Str(t.to_string())
}

fn obj(members: Vec<(&str, JsonValue)>) -> JsonValue {
    let mut keys = Vec::new();
    let mut values = Vec::new();
    for (k, v) in members {
        keys.push(k.to_string());
        values.push(v);
    }
    JsonValue::Object(keys, values)
}

fn member<'a>(v: &'a JsonValue, key: &str) -> &'a JsonValue {
    match v {
        JsonValue::Object(keys, values) => {
            let i = keys.iter().position(|k| k == key).expect("member");
            &values[i]
        }
        _ => panic!("not an object"),
    }
}

fn request() -> SearchRequest {
    SearchRequest {
        query: "rust".to_string(),
        provider: None,
        topic: None,
        max_results: None,
        search_depth: None,
        include_answer: None,
        include_raw_content: None,
        include_images: None,
        days: None,
        site_filter: None,
        exclude_domains: None,
        country: None,
        language: None,
        timeout_ms: None,
    }
}

#[test]
fn base_addresses_lose_their_trailing_slashes() {
    assert_eq!(normalize_base_url("https://t.example//"), "https://t.example");
    assert_eq!(normalize_base_url("https://t.example"), "https://t.example");
    assert_eq!(normalize_base_url("///"), "");
    assert_eq!(endpoint("https://t.example", "/api/tavily/search"), "https://t.example/api/tavily/search");
}

#[test]
fn settings_prefer_the_configured_token() {
    let mut config = AppConfig::default();
    config.tavily.base_url = "https://x.example/".to_string();
    let s1 = TavilySettings::from_config(&config, Some("from-env".to_string()));
    assert_eq!(s1.base_url, "https://x.example");
    assert_eq!(s1.api_key.as_deref(), Some("from-env"));
    assert_eq!(s1.endpoint(&s1.search_path), "https://x.example/api/tavily/search");
    config.tavily.api_key = Some("from-file".to_string());
    let s2 = TavilySettings::from_config(&config, Some("from-env".to_string()));
    assert_eq!(s2.api_key.as_deref(), Some("from-file"));
    config.tavily.api_key = None;
    assert_eq!(TavilySettings::from_config(&config, None).api_key, None);
}

#[test]
fn search_payload_fills_defaults() {
    let p = search_payload(&request());
    assert!(matches!(member(&p, "query"), JsonValue::Str(q) if q == "rust"));
    assert!(matches!(member(&p, "topic"), JsonValue::Str(q) if q == "general"));
    assert!(matches!(member(&p, "search_depth"), JsonValue::Str(q) if q == "basic"));
    assert!(matches!(member(&p, "max_results"), JsonValue::Number(n) if n == "5"));
    assert!(matches!(member(&p, "include_answer"), JsonValue::Bool(true)));
    assert!(matches!(member(&p, "include_raw_content"), JsonValue::Bool(false)));
    assert!(matches!(member(&p, "include_images"), JsonValue::Bool(false)));
    assert!(matches!(member(&p, "days"), JsonValue::Null));
    assert!(matches!(member(&p, "include_domains"), JsonValue::Null));
    assert!(matches!(member(&p, "country"), JsonValue::Null));
}

#[test]
fn search_payload_passes_the_request_on() {
    let mut r = request();
    r.topic = Some(SearchTopic::News);
    r.search_depth = Some(SearchDepth::Advanced);
    r.max_results = Some(12);
    r.days = Some(3);
    r.site_filter = Some(vec!["a.example".to_string()]);
    r.language = Some("en".to_string());
    let p = search_payload(&r);
    assert!(matches!(member(&p, "topic"), JsonValue::Str(q) if q == "news"));
    assert!(matches!(member(&p, "search_depth"), JsonValue::Str(q) if q == "advanced"));
    assert!(matches!(member(&p, "max_results"), JsonValue::Number(n) if n == "12"));
    assert!(matches!(member(&p, "days"), JsonValue::Number(n) if n == "3"));
    match member(&p, "include_domains") {
        JsonValue::Array(items) => assert!(matches!(&items[0], JsonValue::Str(d) if d == "a.example")),
        other => panic!("{:?}", other),
    }
    assert!(matches!(member(&p, "language"), JsonValue::Str(l) if l == "en"));
}

#[test]
fn extract_and_crawl_payloads() {
    let e = extract_payload(&ExtractRequest {
        urls: vec!["https://a/".to_string()],
        provider: None,
        include_images: None,
        timeout_ms: None,
    });
    assert!(matches!(member(&e, "include_images"), JsonValue::Bool(false)));
    let c = crawl_payload(&CrawlRequest {
        url: "https://a/".to_string(),
        provider: None,
        limit: None,
        max_depth: None,
        instructions: Some("docs".to_string()),
        timeout_ms: None,
    });
    assert!(matches!(member(&c, "limit"), JsonValue::Number(n) if n == "10"));
    assert!(matches!(member(&c, "max_depth"), JsonValue::Number(n) if n == "2"));
    assert!(matches!(member(&c, "instructions"), JsonValue::Str(i) if i == "docs"));
}

#[test]
fn replies_become_bodies_or_errors() {
    let ok = tavily_reply(
        "search",
        HttpReply::Received { status: 200, status_text: "200 OK".to_string(), body: "{}".to_string() },
    );
    assert_eq!(ok.expect("body"), "{}");
    let e = tavily_reply("search", HttpReply::SendFailed("refused".to_string())).expect_err("send");
    assert_eq!(e.code, "search_transport_error");
    assert_eq!(e.message, "search request failed: refused");
    assert_eq!(e.provider.as_deref(), Some("tavily"));
    assert!(e.retryable);
    let e = tavily_reply("crawl", HttpReply::ReadFailed("cut".to_string())).expect_err("read");
    assert_eq!(e.code, "crawl_read_error");
    assert_eq!(e.message, "failed to read crawl response: cut");
    let e = tavily_reply(
        "extract",
        HttpReply::Received { status: 503, status_text: "503 Service Unavailable".to_string(), body: "later".to_string() },
    )
    .expect_err("status");
    assert_eq!(e.code, "extract_http_error");
    assert_eq!(e.message, "extract request returned 503 Service Unavailable: later");
    assert!(e.retryable);
    let e = tavily_reply(
        "search",
        HttpReply::Received { status: 401, status_text: "401 Unauthorized".to_string(), body: String::new() },
    )
    .expect_err("status");
    assert!(!e.retryable);
    let d = tavily_decode_error("search", "expected value");
    assert_eq!(d.code, "search_decode_error");
    assert_eq!(d.message, "failed to decode search response: expected value");
    assert!(!d.retryable);
}

#[test]
fn retries_back_off_and_give_up_with_a_count() {
    assert_eq!(MAX_RETRY_ATTEMPTS, 3);
    let retryable = || GatewayError::provider("tavily", "x", "busy", true);
    match retry_step(1, retryable()) {
        RetryStep::Retry(ms) => assert_eq!(ms, INITIAL_BACKOFF_MS),
        other => panic!("{:?}", other),
    }
    match retry_step(2, retryable()) {
        RetryStep::Retry(ms) => assert_eq!(ms, 400),
        other => panic!("{:?}", other),
    }
    match retry_step(3, retryable()) {
        RetryStep::GiveUp(e) => assert_eq!(e.message, "busy after 3 attempts"),
        other => panic!("{:?}", other),
    }
    match retry_step(1, GatewayError::provider("tavily", "x", "bad", false)) {
        RetryStep::GiveUp(e) => assert_eq!(e.message, "bad"),
        other => panic!("{:?}", other),
    }
    match retry_step(2, GatewayError::provider("tavily", "x", "bad", false)) {
        RetryStep::GiveUp(e) => assert_eq!(e.message, "bad after 2 attempts"),
        other => panic!("{:?}", other),
    }
}

#[test]
fn search_answers_are_mapped() {
    let v = obj(vec![
        ("answer", s("42")),
        ("request_id", s("r-1")),
        ("follow_up_questions", JsonValue::Array(vec![s("why?"), JsonValue::Null, s("how?")])),
        ("images", JsonValue::Array(vec![s("https://i/1.png"), JsonValue::Bool(true)])),
        (
            "results",
            JsonValue::Array(vec![
                obj(vec![
                    ("title", s("T")),
                    ("url", s("https://u/")),
                    ("content", s("C")),
                    ("raw_content", s("RAW")),
                    ("score", JsonValue::Number("0.75".to_string())),
                    ("published_at", s("2024-01-01")),
                ]),
                obj(vec![("score", s("high"))]),
            ]),
        ),
    ]);
    let r = map_search_response(&v, "tavily");
    assert_eq!(r.provider_used, "tavily");
    assert_eq!(r.answer.as_deref(), Some("42"));
    assert_eq!(r.request_id.as_deref(), Some("r-1"));
    assert_eq!(r.follow_up_questions, Some(vec!["why?".to_string(), "how?".to_string()]));
    assert_eq!(r.images.len(), 1);
    assert_eq!(r.images[0].url, "https://i/1.png");
    assert_eq!(r.images[0].description, None);
    assert_eq!(r.results.len(), 2);
    assert_eq!(r.results[0].snippet, "C");
    assert_eq!(r.results[0].content.as_deref(), Some("RAW"));
    assert_eq!(r.results[0].score.as_deref(), Some("0.75"));
    assert_eq!(r.results[0].published_at.as_deref(), Some("2024-01-01"));
    assert_eq!(r.results[1].title, "");
    assert_eq!(r.results[1].score, None);
    assert!(r.fallback_chain.is_empty());
    assert_eq!(r.latency_ms, 0);
    let empty = map_search_response(&JsonValue::Null, "tavily");
    assert!(empty.results.is_empty());
    assert_eq!(empty.follow_up_questions, None);
}

#[test]
fn extract_and_crawl_answers_are_mapped() {
    let v = obj(vec![(
        "results",
        JsonValue::Array(vec![obj(vec![
            ("url", s("https://a/")),
            ("title", s("A")),
            ("raw_content", s("body")),
            ("images", JsonValue::Array(vec![s("https://a/i.png")])),
        ])]),
    )]);
    let r = map_extract_response(&v, "tavily");
    assert_eq!(r.documents.len(), 1);
    assert_eq!(r.documents[0].url, "https://a/");
    assert_eq!(r.documents[0].title.as_deref(), Some("A"));
    assert_eq!(r.documents[0].content, "body");
    assert_eq!(r.documents[0].images.len(), 1);
    assert_eq!(r.documents[0].source_provider, "tavily");
    let c = obj(vec![(
        "results",
        JsonValue::Array(vec![obj(vec![("url", s("https://a/p")), ("title", s("P"))])]),
    )]);
    let r = map_crawl_response(&c, "tavily");
    assert_eq!(r.pages.len(), 1);
    assert_eq!(r.pages[0].url, "https://a/p");
    assert_eq!(r.pages[0].title.as_deref(), Some("P"));
}

#[test]
fn reply_bodies_are_read_as_json() {
    let v = tavily_decode("search", r#"{"answer": "yes", "results": [{"title": "T", "score": 0.5}], "n": null}"#)
        .expect("json");
    let r = tavily_search_outcome(Ok(v)).expect("mapped");
    assert_eq!(r.answer.as_deref(), Some("yes"));
    assert_eq!(r.results[0].title, "T");
    assert_eq!(r.results[0].score.as_deref(), Some("0.5"));
    let e = tavily_decode("crawl", "not json").expect_err("not json");
    assert_eq!(e.code, "crawl_decode_error");
    assert!(e.message.starts_with("failed to decode crawl response: "));
    assert!(!e.retryable);
    assert_eq!(e.provider.as_deref(), Some("tavily"));
    let e = tavily_exchange("search", HttpReply::SendFailed("refused".to_string())).expect_err("send");
    assert_eq!(e.code, "search_transport_error");
    let ok = tavily_exchange(
        "extract",
        HttpReply::Received { status: 200, status_text: "200 OK".to_string(), body: "[1, [true], {\"a\": \"b\"}]".to_string() },
    )
    .expect("json");
    match ok {
        JsonValue::Array(items) => {
            assert_eq!(items.len(), 3);
            assert!(matches!(&items[0], JsonValue::Number(n) if n == "1"));
            assert!(matches!(&items[1], JsonValue::Array(a) if matches!(a[0], JsonValue::Bool(true))));
            assert!(matches!(&items[2], JsonValue::Object(k, v) if k[0] == "a" && matches!(&v[0], JsonValue::Str(s) if s == "b")));
        }
        other => panic!("{:?}", other),
    }
    let e = tavily_search_outcome(Err(GatewayError::gateway("x"))).expect_err("passes the error on");
    assert_eq!(e.message, "x");
}
