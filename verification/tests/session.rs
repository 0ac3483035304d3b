use codex_plus_core::router::{all_endpoints, RouteError, MAX_ROUTE_ATTEMPTS};
use codex_plus_core::session::{
    http_stream_headers, ChunkAction, RelayProgress, RouteSession, RouteStep, StreamRouteControl,
};

#[test]
fn empty_pool_is_unavailable() {
    assert!(matches!(RouteSession::new(Vec::new()), Err(RouteError::PoolUnavailable)));
}

#[test]
fn session_walks_the_order_then_refills() {
    let all = all_endpoints();
    let mut s = RouteSession::new(vec![all[0], all[1]]).unwrap();
    assert!(!s.needs_refill());
    let e = s.next_endpoint(Vec::new()).unwrap();
    assert_eq!(e.model, "deepseek-v4-flash-free");
    let e = s.next_endpoint(Vec::new()).unwrap();
    assert_eq!(e.model, "mimo-v2.5-free");
    assert!(s.needs_refill());
    let e = s.next_endpoint(vec![all[3]]).unwrap();
    assert_eq!(e.model, "big-pickle");
    assert_eq!(s.attempt, 3);
    assert!(s.needs_refill());
    assert!(matches!(s.next_endpoint(Vec::new()), Err(RouteError::PoolUnavailable)));
}

#[test]
fn failover_status_retries_and_records_the_error() {
    let all = all_endpoints();
    let mut s = RouteSession::new(vec![all[0]]).unwrap();
    let e = s.next_endpoint(Vec::new()).unwrap();
    assert!(!s.delivers_status(429));
    match s.on_error_status(&e, 429, "rate limited", 0) {
        RouteStep::Retry { delay_ms } => assert_eq!(delay_ms, 250),
        other => panic!("unexpected step {:?}", other),
    }
    assert_eq!(s.last_error, "opencode deepseek-v4-flash-free -> HTTP 429: rate limited");
}

#[test]
fn final_status_fails_with_the_last_error() {
    let all = all_endpoints();
    let mut s = RouteSession::new(vec![all[5]]).unwrap();
    let e = s.next_endpoint(Vec::new()).unwrap();
    assert!(s.delivers_status(405));
    match s.on_error_status(&e, 405, "nope", 0) {
        RouteStep::Fail(RouteError::AllProvidersFailed(m)) => assert_eq!(
            m,
            "All model providers failed after 1000 attempts. Last error: openrouter cohere/north-mini-code:free -> HTTP 405: nope"
        ),
        other => panic!("unexpected step {:?}", other),
    }
}

#[test]
fn last_attempt_gives_up() {
    let all = all_endpoints();
    let mut s = RouteSession::new(vec![all[8]]).unwrap();
    s.attempt = MAX_ROUTE_ATTEMPTS - 1;
    let e = s.next_endpoint(Vec::new()).unwrap();
    assert!(s.is_last_attempt());
    assert!(s.delivers_status(503));
    match s.on_network_error(&e, "connection reset", 3) {
        RouteStep::Fail(RouteError::AllProvidersFailed(m)) => assert!(m.ends_with(
            "Last error: nvidia nvidia/nemotron-3-nano-30b-a3b -> network error: connection reset"
        )),
        other => panic!("unexpected step {:?}", other),
    }
}

#[test]
fn stream_retry_before_output_is_retried() {
    let all = all_endpoints();
    let mut s = RouteSession::new(vec![all[1]]).unwrap();
    let e = s.next_endpoint(Vec::new()).unwrap();
    match s.on_stream_retry(&e, "empty upstream stream", 300) {
        RouteStep::Retry { delay_ms } => assert_eq!(delay_ms, 250 + 44),
        other => panic!("unexpected step {:?}", other),
    }
    assert_eq!(s.last_error, "opencode mimo-v2.5-free -> stream retry: empty upstream stream");
}

#[test]
fn long_error_bodies_are_truncated() {
    let all = all_endpoints();
    let mut s = RouteSession::new(vec![all[1]]).unwrap();
    let e = s.next_endpoint(Vec::new()).unwrap();
    let body = "x".repeat(300);
    let _ = s.on_error_status(&e, 500, &body, 0);
    assert!(s.last_error.ends_with(&format!("HTTP 500: {}…", "x".repeat(256))));
}

#[test]
fn relay_writes_headers_once_and_retries_only_before_output() {
    let mut p = RelayProgress::new();
    assert_eq!(p.on_chunk(true), ChunkAction::Skip);
    assert_eq!(
        p.on_stream_error("boom"),
        StreamRouteControl::RetryBeforeOutput("Stream error: boom".to_string())
    );
    assert_eq!(
        p.on_stream_end(),
        StreamRouteControl::RetryBeforeOutput("empty upstream stream".to_string())
    );
    assert_eq!(p.on_chunk(false), ChunkAction::StartOutput);
    assert_eq!(p.on_chunk(false), ChunkAction::Forward);
    assert_eq!(p.on_chunk(true), ChunkAction::Skip);
    assert_eq!(p.on_stream_error("boom"), StreamRouteControl::Completed);
    assert_eq!(p.on_stream_end(), StreamRouteControl::Completed);
}

#[test]
fn stream_headers_are_exact() {
    assert_eq!(
        http_stream_headers("200 OK", "text/event-stream; charset=utf-8"),
        "HTTP/1.1 200 OK\r\nContent-Type: text/event-stream; charset=utf-8\r\nCache-Control: no-cache\r\nAccess-Control-Allow-Origin: *\r\nAccess-Control-Allow-Methods: GET, POST, OPTIONS\r\nAccess-Control-Allow-Headers: Content-Type, Authorization\r\nConnection: close\r\n\r\n"
    );
}

#[test]
fn streamed_request_relays_only_successes() {
    let all = all_endpoints();
    let mut s = RouteSession::new(vec![all[0]]).unwrap();
    s.attempt = MAX_ROUTE_ATTEMPTS - 1;
    let _ = s.next_endpoint(Vec::new()).unwrap();
    assert!(s.relays_status(200));
    assert!(s.relays_status(399));
    assert!(!s.relays_status(400));
    assert!(!s.relays_status(405));
    // a buffered request delivers the last attempt's error; a streamed one does not relay it
    assert!(s.delivers_status(503));
    assert!(!s.relays_status(503));
}
