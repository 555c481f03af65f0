use search_gateway::errors::{ErrorStage, GatewayError};
use search_gateway::fallback::{with_provider_fallback, FallbackRun, FallbackStep};
use search_gateway::health::HealthStore;
use search_gateway::models::SearchResponse;

fn response(name: &str) -> SearchResponse {
    SearchResponse {
        provider_used: name.to_string(),
        fallback_chain: Vec::new(),
        latency_ms: 0,
        warnings: Vec::new(),
        request_id: None,
        answer: None,
        follow_up_questions: None,
        results: Vec::new(),
        images: Vec::new(),
    }
}

#[test]
fn fallback_fallback_uses_second_provider_after_retryable_error() {
    let mut health = HealthStore::new(3, 30_000_000_000);
    let (response, chain) = with_provider_fallback(
        &mut health,
        vec!["first".to_string(), "second".to_string()],
        |name: &String| {
            if name == "first" {
                Err(GatewayError::provider("first", "timeout", "temporary upstream timeout", true))
            } else {
                Ok(response(name))
            }
        },
    )
    .expect("fallback should succeed");

    assert_eq!(response.provider_used, "second");
    assert_eq!(chain, vec!["first".to_string(), "second".to_string()]);
}

#[test]
fn fallback_error_includes_all_attempted_provider_failures() {
    let mut health = HealthStore::new(3, 30_000_000_000);
    let error = with_provider_fallback(
        &mut health,
        vec!["tavily".to_string(), "ddg".to_string()],
        |name: &String| -> Result<SearchResponse, GatewayError> {
            if name == "tavily" {
                Err(GatewayError::provider(
                    "tavily",
                    "search_transport_error",
                    "search request failed: connection reset",
                    true,
                ))
            } else {
                Err(GatewayError::provider(
                    "ddg",
                    "search_transport_error",
                    "ddg request failed: timeout",
                    true,
                ))
            }
        },
    )
    .expect_err("all providers should fail");

    assert!(error.fallback_attempted);
    assert_eq!(
        error.attempted_providers,
        Some(vec!["tavily".to_string(), "ddg".to_string()])
    );

    let failures = error
        .fallback_failures
        .expect("fallback failures should be attached");
    assert_eq!(failures.len(), 2);
    assert_eq!(failures[0].provider, "tavily");
    assert_eq!(failures[0].code, "search_transport_error");
    assert_eq!(failures[1].provider, "ddg");
    assert_eq!(failures[1].message, "ddg request failed: timeout");
}

#[test]
fn a_failure_that_cannot_be_retried_ends_the_run() {
    let mut health = HealthStore::new(3, 30_000_000_000);
    let calls = std::cell::Cell::new(0);
    let error = with_provider_fallback(
        &mut health,
        vec!["a".to_string(), "b".to_string()],
        |name: &String| -> Result<SearchResponse, GatewayError> {
            calls.set(calls.get() + 1);
            Err(GatewayError::provider(name, "bad_request", "rejected", false))
        },
    )
    .expect_err("the first failure ends the run");
    assert_eq!(calls.get(), 1);
    assert!(!error.fallback_attempted);
    assert_eq!(error.attempted_providers, Some(vec!["a".to_string()]));
    assert_eq!(error.code, "bad_request");
    assert_eq!(health.penalty("a"), 1);
    assert_eq!(health.penalty("b"), 0);
}

#[test]
fn providers_with_an_open_circuit_are_passed_over() {
    let mut health = HealthStore::new(1, 30_000_000_000);
    health.record_failure("a", "down".to_string());
    let (resp, chain) = with_provider_fallback(
        &mut health,
        vec!["a".to_string(), "b".to_string()],
        |name: &String| Ok(response(name)),
    )
    .expect("b answers");
    assert_eq!(resp.provider_used, "b");
    assert_eq!(chain, vec!["b".to_string()]);
}

#[test]
fn a_run_that_tries_nothing_says_no_provider_could_answer() {
    let mut health = HealthStore::new(1, 30_000_000_000);
    health.record_failure("a", "down".to_string());
    let error = with_provider_fallback(&mut health, vec!["a".to_string()], |name: &String| Ok(response(name)))
        .expect_err("nothing is tried");
    assert_eq!(error.code, "gateway_error");
    assert_eq!(error.message, "no providers could satisfy the request");
    assert_eq!(error.stage, ErrorStage::Gateway);
    assert_eq!(error.attempted_providers, None);
    assert_eq!(error.fallback_failures.map(|f| f.len()), None);
}

#[test]
fn a_run_steps_through_its_candidates() {
    let mut health = HealthStore::new(1, 30_000_000_000);
    health.record_failure_at("b", "down".to_string(), 0);
    let mut run = FallbackRun::new(vec!["a".to_string(), "b".to_string(), "c".to_string()]);
    match run.step_at(&mut health, 10) {
        FallbackStep::Attempt(n) => assert_eq!(n, "a"),
        other => panic!("unexpected step {:?}", other),
    }
    run.record_failure_at(&mut health, GatewayError::provider("a", "e", "m", true), 10);
    assert!(matches!(run.step_at(&mut health, 10), FallbackStep::Skipped));
    match run.step_at(&mut health, 10) {
        FallbackStep::Attempt(n) => assert_eq!(n, "c"),
        other => panic!("unexpected step {:?}", other),
    }
    run.record_failure_at(&mut health, GatewayError::provider("c", "e", "m2", true), 10);
    assert!(matches!(run.step_at(&mut health, 10), FallbackStep::Exhausted));
    let e = run.into_error();
    assert_eq!(e.message, "m2");
    assert!(e.fallback_attempted);
    assert_eq!(e.attempted_providers, Some(vec!["a".to_string(), "c".to_string()]));
}

#[test]
fn failures_of_a_run_are_recorded_in_the_callers_store() {
    let mut health = HealthStore::new(2, 30_000_000_000);
    let _ = with_provider_fallback(
        &mut health,
        vec!["a".to_string(), "b".to_string()],
        |name: &String| -> Result<SearchResponse, GatewayError> {
            Err(GatewayError::provider(name, "down", &format!("{name} is down"), true))
        },
    );
    assert_eq!(health.penalty("a"), 1);
    assert_eq!(health.penalty("b"), 1);
    let snaps = health.snapshots(&vec!["a".to_string()]);
    assert_eq!(snaps[0].last_error.as_deref(), Some("a is down"));
    assert_eq!(snaps[0].failures, 1);
}

#[test]
fn a_run_stops_at_the_first_success_and_leaves_the_rest_untried() {
    let mut health = HealthStore::new(3, 30_000_000_000);
    let calls = std::cell::RefCell::new(Vec::new());
    let (resp, chain) = with_provider_fallback(
        &mut health,
        vec!["a".to_string(), "b".to_string(), "c".to_string()],
        |name: &String| {
            calls.borrow_mut().push(name.clone());
            if name == "a" {
                Err(GatewayError::provider("a", "x", "busy", true))
            } else {
                Ok(response(name))
            }
        },
    )
    .expect("b answers");
    assert_eq!(resp.provider_used, "b");
    assert_eq!(chain, vec!["a".to_string(), "b".to_string()]);
    assert_eq!(*calls.borrow(), vec!["a".to_string(), "b".to_string()]);
    assert_eq!(health.penalty("a"), 1);
    assert_eq!(health.penalty("c"), 0);
}
