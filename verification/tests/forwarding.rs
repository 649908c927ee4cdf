use synapse::ingest_router::api::utils::normalize_headers;
use synapse::ingest_router::config::RelayTimeouts;
use synapse::ingest_router::errors::IngestRouterError;
use synapse::ingest_router::executor::{ParallelCollection, ParallelEvent, ParallelPhase};
use synapse::ingest_router::http::{upstream_request, upstream_uri};
use synapse::support::forwarding::{
    add_via_header, filter_hop_by_hop, forward_headers, version_str, HttpVersion,
};

fn h(name: &str, value: &str) -> (String, String) {
    (name.to_string(), value.to_string())
}

#[test]
fn hop_by_hop_headers_are_dropped_in_order() {
    let headers = vec![
        h("host", "example.com"),
        h("connection", "keep-alive"),
        h("keep-alive", "timeout=5"),
        h("x-custom", "1"),
        h("transfer-encoding", "chunked"),
        h("te", "trailers"),
        h("trailer", "x"),
        h("upgrade", "h2c"),
        h("proxy-authorization", "basic x"),
        h("proxy-authenticate", "basic"),
        h("proxy-connection", "close"),
        h("content-type", "application/json"),
    ];
    assert_eq!(
        filter_hop_by_hop(headers),
        vec![h("host", "example.com"), h("x-custom", "1"), h("content-type", "application/json")]
    );
}

#[test]
fn via_names_the_hop_and_version() {
    assert_eq!(version_str(HttpVersion::Http09), "0.9");
    assert_eq!(version_str(HttpVersion::Http10), "1.0");
    assert_eq!(version_str(HttpVersion::Http11), "1.1");
    assert_eq!(version_str(HttpVersion::Http2), "2");
    assert_eq!(version_str(HttpVersion::Http3), "3");
    let mut headers = vec![h("via", "1.0 fred")];
    add_via_header(&mut headers, HttpVersion::Http11);
    assert_eq!(headers, vec![h("via", "1.0 fred"), h("via", "1.1 synapse")]);
}

#[test]
fn forwarded_headers_filter_then_add_via() {
    let out = forward_headers(vec![h("connection", "close"), h("accept", "*/*")], HttpVersion::Http2);
    assert_eq!(out, vec![h("accept", "*/*"), h("via", "2 synapse")]);
    assert_eq!(forward_headers(vec![], HttpVersion::Http10), vec![h("via", "1.0 synapse")]);
}

#[test]
fn upstream_query_is_kept_when_the_request_has_none() {
    assert_eq!(
        upstream_uri("http://relay-us1:8090/?token=abc", Some("/api/0/relays/live/")).unwrap(),
        "http://relay-us1:8090/api/0/relays/live/?token=abc"
    );
    assert_eq!(
        upstream_uri("http://relay-us1:8090/?token=abc", Some("/api/0/relays/live/?a=b")).unwrap(),
        "http://relay-us1:8090/api/0/relays/live/?a=b"
    );
    assert!(matches!(
        upstream_uri("not a url", Some("/x")),
        Err(IngestRouterError::InternalError(_))
    ));
}

#[test]
fn upstream_request_builds_uri_and_headers() {
    let (uri, headers) = upstream_request(
        "http://relay-us1:8090",
        Some("/api/0/relays/projectconfigs/?version=3"),
        vec![h("content-type", "application/json"), h("transfer-encoding", "chunked")],
        HttpVersion::Http11,
    )
    .unwrap();
    assert_eq!(uri, "http://relay-us1:8090/api/0/relays/projectconfigs/?version=3");
    assert_eq!(headers, vec![h("content-type", "application/json"), h("via", "1.1 synapse")]);
    assert!(matches!(
        upstream_request("http://relay-us1:8090", None, vec![], HttpVersion::Http11),
        Err(IngestRouterError::InternalError(m)) if m == "Request URI missing path and query"
    ));
}

fn timeouts() -> RelayTimeouts {
    RelayTimeouts { http_timeout_secs: 15, task_initial_timeout_secs: 10, task_subsequent_timeout_secs: 2 }
}

#[test]
fn parallel_phases_follow_the_two_timeouts() {
    let t = timeouts();
    let first = ParallelPhase::start(1_000);
    assert_eq!(first, ParallelPhase::First { started_at: 1_000 });
    assert_eq!(first.deadline(&t), 11_000);
    // The first task to end, or the long deadline, starts the short wait.
    let rest = first.after(ParallelEvent::TaskEnded, 4_000).unwrap();
    assert_eq!(rest, ParallelPhase::Rest { since: 4_000 });
    assert_eq!(rest.deadline(&t), 6_000);
    assert_eq!(
        first.after(ParallelEvent::DeadlinePassed, 11_000),
        Some(ParallelPhase::Rest { since: 11_000 })
    );
    assert_eq!(first.after(ParallelEvent::NoTasksLeft, 2_000), None);
    // Later tasks keep the deadline; the deadline or the last task ends it.
    assert_eq!(rest.after(ParallelEvent::TaskEnded, 5_000), Some(rest));
    assert_eq!(rest.after(ParallelEvent::DeadlinePassed, 6_000), None);
    assert_eq!(rest.after(ParallelEvent::NoTasksLeft, 5_500), None);
}

#[test]
fn parallel_deadline_saturates() {
    let t = RelayTimeouts {
        http_timeout_secs: 1,
        task_initial_timeout_secs: u64::MAX,
        task_subsequent_timeout_secs: 1,
    };
    assert_eq!(ParallelPhase::start(5).deadline(&t), u64::MAX);
    assert_eq!(ParallelPhase::Rest { since: u64::MAX - 10 }.deadline(&t), u64::MAX);
}

#[test]
fn parallel_collection_keeps_each_answer() {
    let mut c: ParallelCollection<&str> =
        ParallelCollection::new(vec!["us1".to_string(), "us2".to_string()]);
    c.complete("us2".to_string(), Ok("answer-us2"));
    let results = c.finish();
    assert_eq!(results.len(), 2);
    assert_eq!(results[0].0, "us2");
    assert!(matches!(results[0].1, Ok("answer-us2")));
    assert_eq!(results[1].0, "us1");
    assert!(matches!(&results[1].1, Err(IngestRouterError::UpstreamTimeout(c)) if c == "us1"));
}

#[test]
fn normalized_headers_also_drop_the_body_length() {
    let headers = vec![
        h("content-length", "10"),
        h("connection", "close"),
        h("content-type", "application/json"),
        h("transfer-encoding", "chunked"),
        h("x-request-id", "abc"),
    ];
    assert_eq!(
        normalize_headers(headers),
        vec![h("content-type", "application/json"), h("x-request-id", "abc")]
    );
}
