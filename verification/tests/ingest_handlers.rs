use synapse::ingest_router::api::any_cell_handler::AnyCellHandler;
use synapse::ingest_router::api::health::HealthHandler;
use synapse::ingest_router::api::project_config::{
    ProjectConfigsHandler, ProjectConfigsMetadata, ProjectConfigsRequest, ProjectConfigsResponse,
    SERVICE_UNAVAILABLE,
};
use synapse::ingest_router::api::public_keys::{
    PublicKeysHandler, PublicKeysMetadata, PublicKeysRequest, PublicKeysResponse, RelayInfo,
};
use synapse::ingest_router::config::CellConfig;
use synapse::ingest_router::errors::IngestRouterError;
use synapse::ingest_router::executor::{
    failover_should_stop, relay_url_for_cell, FailoverCollection, ParallelCollection,
};
use synapse::ingest_router::handler::{CellOutcome, ExecutionMode};
use synapse::ingest_router::locale::{Cells, Locales};
use synapse::ingest_router::project_config::splitter::PublicKeySplitter;
use synapse::support::strmap::StrMap;

fn cell_config(id: &str, sentry_url: &str, relay_url: &str) -> CellConfig {
    CellConfig {
        name: id.to_string(),
        sentry_url: sentry_url.to_string(),
        relay_url: relay_url.to_string(),
    }
}

fn create_test_cells() -> Cells {
    let mut locales = StrMap::new();
    locales.insert(
        "us".to_string(),
        vec![
            cell_config("us1", "http://sentry-us1:8080", "http://relay-us1:8090"),
            cell_config("us2", "http://sentry-us2:8080", "http://relay-us2:8090"),
        ],
    );
    Locales::new(locales).get_cells("us").unwrap()
}

#[test]
fn test_locales() {
    let mut locales_config = StrMap::new();
    locales_config.insert(
        "us".to_string(),
        vec![
            cell_config("us1", "http://us1-sentry.example.com", "http://us1-relay.example.com"),
            cell_config("us2", "http://us2-sentry.example.com", "http://us2-relay.example.com"),
        ],
    );
    locales_config.insert(
        "de".to_string(),
        vec![cell_config("de1", "http://de-sentry.example.com", "http://de-relay.example.com")],
    );

    let locales = Locales::new(locales_config);

    let us_cells = locales.get_cells("us").unwrap();
    let cell_list = us_cells.cell_list();
    assert_eq!(cell_list.len(), 2);
    assert!(us_cells.contains_cell("us1"));
    assert!(us_cells.contains_cell("us2"));
    assert!(us_cells.get_upstream("us1").is_some());
    assert!(us_cells.get_upstream("us2").is_some());
    assert_eq!(cell_list[0], "us1");
    assert_eq!(cell_list[1], "us2");

    let de_cells = locales.get_cells("de").unwrap();
    let cell_list = de_cells.cell_list();
    assert_eq!(cell_list.len(), 1);
    assert!(de_cells.contains_cell("de1"));
    assert!(de_cells.get_upstream("de1").is_some());
    assert_eq!(cell_list[0], "de1");

    assert!(locales.get_cells("unknown").is_none());
}

#[test]
fn any_cell_handler_test_split_request_sends_to_all_cells() {
    let handler = AnyCellHandler::new("HealthCheck");
    let cells = create_test_cells();
    let cell_ids = handler.split_request(&cells);
    assert_eq!(cell_ids.len(), 2);
    assert!(cell_ids.contains(&"us1".to_string()));
    assert!(cell_ids.contains(&"us2".to_string()));
    assert_eq!(handler.name(), "HealthCheck");
    assert_eq!(handler.execution_mode(), ExecutionMode::Failover);
}

#[test]
fn any_cell_handler_test_merge_responses_one_success() {
    let handler = AnyCellHandler::new("HealthCheck");
    // us1 timed out, us2 answered 200.
    assert_eq!(handler.merge_responses(&vec![None, Some(200)]), Ok(1));
}

#[test]
fn any_cell_handler_test_merge_responses_all_failed() {
    let handler = AnyCellHandler::new("HealthCheck");
    assert_eq!(handler.merge_responses(&vec![None, None]), Err(503));
    assert_eq!(handler.merge_responses(&vec![Some(500), Some(404)]), Err(503));
}

#[test]
fn health_test_split_request_sends_to_all_cells() {
    let cells = create_test_cells();
    let cell_ids = HealthHandler.split_request(&cells);
    assert_eq!(cell_ids, vec!["us1".to_string(), "us2".to_string()]);
}

#[test]
fn health_test_merge_responses_one_success() {
    assert_eq!(HealthHandler.merge_responses(&vec![Some(502), Some(204)]), Ok(1));
    assert_eq!(HealthHandler.merge_responses(&vec![Some(200), Some(200)]), Ok(0));
}

#[test]
fn health_test_merge_responses_all_failed() {
    assert_eq!(HealthHandler.merge_responses(&vec![None, Some(199)]), Err(503));
    assert_eq!(HealthHandler.merge_responses(&vec![]), Err(503));
}

fn pk_response(entries: &[(&str, Option<&str>)]) -> PublicKeysResponse {
    let mut public_keys = StrMap::new();
    let mut relays = StrMap::new();
    for (k, v) in entries {
        public_keys.insert(k.to_string(), v.map(|s| s.to_string()));
        relays.insert(
            k.to_string(),
            v.map(|s| RelayInfo {
                public_key: s.to_string(),
                internal: false,
            }),
        );
    }
    PublicKeysResponse {
        public_keys,
        relays,
    }
}

fn pk_meta(ids: &[&str]) -> PublicKeysMetadata {
    PublicKeysMetadata {
        requested_relay_ids: ids.iter().map(|s| s.to_string()).collect(),
    }
}

#[test]
fn public_keys_split_keeps_requested_ids() {
    let cells = create_test_cells();
    let (targets, meta) = PublicKeysHandler.split_request(
        PublicKeysRequest {
            relay_ids: vec!["key1".to_string(), "key2".to_string()],
        },
        &cells,
    );
    assert_eq!(targets, vec!["us1".to_string(), "us2".to_string()]);
    assert_eq!(meta.requested_relay_ids, vec!["key1".to_string(), "key2".to_string()]);
    assert_eq!(PublicKeysHandler.execution_mode(), ExecutionMode::Parallel);
    assert_eq!(PublicKeysHandler.name(), "PublicKeysHandler");
}

#[test]
fn public_keys_merge_all_cells_succeed_with_unknown_key() {
    // The documented example: key2 is known to no cell, but every cell answered.
    let responses = vec![
        CellOutcome::Success(Some(pk_response(&[("key1", Some("abc123")), ("key2", None)]))),
        CellOutcome::Success(Some(pk_response(&[("key1", None), ("key2", None)]))),
    ];
    let (index, body) = PublicKeysHandler
        .merge_responses(responses, pk_meta(&["key1", "key2"]))
        .unwrap();
    assert_eq!(index, 0);
    assert_eq!(body.public_keys.get("key1"), Some(&Some("abc123".to_string())));
    assert_eq!(body.public_keys.get("key2"), Some(&None));
    assert_eq!(
        body.relays.get("key1"),
        Some(&Some(RelayInfo {
            public_key: "abc123".to_string(),
            internal: false
        }))
    );
}

#[test]
fn public_keys_merge_failure_with_all_keys_known_succeeds() {
    let responses = vec![
        CellOutcome::Failed,
        CellOutcome::Success(Some(pk_response(&[("key1", Some("k1"))]))),
        CellOutcome::NonSuccess(500),
    ];
    let (index, body) = PublicKeysHandler
        .merge_responses(responses, pk_meta(&["key1"]))
        .unwrap();
    assert_eq!(index, 1);
    assert_eq!(body.public_keys.get("key1"), Some(&Some("k1".to_string())));
}

#[test]
fn public_keys_merge_failure_with_missing_key_is_bad_gateway() {
    let responses = vec![
        CellOutcome::Failed,
        CellOutcome::Success(Some(pk_response(&[("key1", Some("k1"))]))),
    ];
    assert_eq!(
        PublicKeysHandler
            .merge_responses(responses, pk_meta(&["key1", "key2"]))
            .err(),
        Some(502)
    );
}

#[test]
fn public_keys_merge_unreadable_body_counts_as_failure() {
    let responses = vec![CellOutcome::Success(None)];
    assert_eq!(
        PublicKeysHandler
            .merge_responses(responses, pk_meta(&["key1"]))
            .err(),
        Some(502)
    );
    // With nothing requested, an unreadable success still answers.
    let responses = vec![CellOutcome::Success(None)];
    let (index, body) = PublicKeysHandler.merge_responses(responses, pk_meta(&[])).unwrap();
    assert_eq!(index, 0);
    assert_eq!(body.public_keys.len(), 0);
}

#[test]
fn public_keys_merge_no_success_is_bad_gateway() {
    let responses = vec![CellOutcome::Failed, CellOutcome::NonSuccess(503)];
    assert_eq!(
        PublicKeysHandler.merge_responses(responses, pk_meta(&[])).err(),
        Some(502)
    );
}

#[test]
fn public_keys_known_key_is_never_hidden() {
    // A later cell that does not know key1 must not erase it.
    let responses = vec![
        CellOutcome::Success(Some(pk_response(&[("key1", Some("abc"))]))),
        CellOutcome::Success(Some(pk_response(&[("key1", None)]))),
    ];
    let (_, body) = PublicKeysHandler
        .merge_responses(responses, pk_meta(&["key1"]))
        .unwrap();
    assert_eq!(body.public_keys.get("key1"), Some(&Some("abc".to_string())));
}

fn pc_response(configs: &[(&str, &str)], pending: &[&str], extra: &[(&str, &str)]) -> ProjectConfigsResponse {
    let mut project_configs = StrMap::new();
    for (k, v) in configs {
        project_configs.insert(k.to_string(), v.to_string());
    }
    let mut extra_fields = StrMap::new();
    for (k, v) in extra {
        extra_fields.insert(k.to_string(), v.to_string());
    }
    ProjectConfigsResponse {
        project_configs,
        pending_keys: pending.iter().map(|s| s.to_string()).collect(),
        extra_fields,
    }
}

fn pc_request(keys: &[&str], extra: &StrMap<String>) -> ProjectConfigsRequest {
    ProjectConfigsRequest { public_keys: keys.iter().map(|k| k.to_string()).collect(), extra_fields: extra.clone() }
}

#[test]
fn project_config_test_split_request_multiple_cells() {
    let mut extra = StrMap::new();
    extra.insert("global".to_string(), "true".to_string());
    let request = pc_request(&["key1", "key2", "key3"], &extra);
    let routes = vec![
        Some("us1".to_string()),
        Some("us2".to_string()),
        Some("us1".to_string()),
    ];
    let (requests, meta) = ProjectConfigsHandler.split_request(request, routes, &create_test_cells());
    assert_eq!(requests.len(), 2);
    let (us1_id, us1_body) = requests.iter().find(|(id, _)| id == "us1").unwrap();
    assert_eq!(us1_id, "us1");
    assert_eq!(us1_body.public_keys.len(), 2);
    assert!(us1_body.public_keys.contains(&"key1".to_string()));
    assert!(us1_body.public_keys.contains(&"key3".to_string()));
    assert_eq!(us1_body.extra_fields, extra);
    let (_, us2_body) = requests.iter().find(|(id, _)| id == "us2").unwrap();
    assert_eq!(us2_body.public_keys.len(), 1);
    assert!(us2_body.public_keys.contains(&"key2".to_string()));
    assert_eq!(us2_body.extra_fields, extra);
    assert!(meta.unassigned_keys.is_empty());
    assert_eq!(meta.cell_priority, vec!["us1".to_string(), "us2".to_string()]);
    assert_eq!(ProjectConfigsHandler.execution_mode(), ExecutionMode::Parallel);
}

#[test]
fn project_config_test_split_request_unknown_key_goes_to_pending() {
    let request = pc_request(&["key1", "unknown_key"], &StrMap::new());
    let routes = vec![Some("us1".to_string()), None];
    let (requests, meta) = ProjectConfigsHandler.split_request(request, routes, &create_test_cells());
    assert_eq!(requests.len(), 1);
    assert_eq!(requests[0].0, "us1");
    assert_eq!(requests[0].1.public_keys, vec!["key1".to_string()]);
    assert_eq!(meta.unassigned_keys, vec!["unknown_key".to_string()]);
}

#[test]
fn project_config_unreadable_success_makes_its_keys_pending() {
    let mut cell_to_keys = StrMap::new();
    cell_to_keys.insert("us1".to_string(), vec!["key1".to_string()]);
    cell_to_keys.insert("us2".to_string(), vec!["key2".to_string()]);
    let meta = ProjectConfigsMetadata {
        cell_to_keys,
        unassigned_keys: vec![],
        cell_priority: vec!["us1".to_string(), "us2".to_string()],
    };
    let results = vec![
        ("us1".to_string(), CellOutcome::Success(None)),
        ("us2".to_string(), CellOutcome::Success(Some(pc_response(&[("key2", "{}")], &[], &[("global", "2")])))),
    ];
    let (index, merged) = ProjectConfigsHandler.merge_responses(results, meta).unwrap();
    assert_eq!(index, Some(0));
    assert_eq!(merged.pending_keys, vec!["key1".to_string()]);
    assert!(merged.project_configs.contains_key("key2"));
    assert_eq!(merged.extra_fields.get("global"), Some(&"2".to_string()));
}

#[test]
fn project_config_test_merge_results_successful_cells() {
    let results = vec![
        (
            "us1".to_string(),
            CellOutcome::Success(Some(pc_response(&[("key1", r#"{"slug":"project1"}"#)], &[], &[("global", r#"{"version":1}"#)]))),
        ),
        (
            "us2".to_string(),
            CellOutcome::Success(Some(pc_response(&[("key2", r#"{"slug":"project2"}"#)], &[], &[("global", r#"{"version":2}"#)]))),
        ),
    ];
    let meta = ProjectConfigsMetadata {
        cell_to_keys: StrMap::new(),
        unassigned_keys: vec![],
        cell_priority: vec![],
    };
    let (index, merged) = ProjectConfigsHandler.merge_responses(results, meta).unwrap();
    assert_eq!(index, Some(0));
    assert!(merged.project_configs.contains_key("key1"));
    assert!(merged.project_configs.contains_key("key2"));
    // The other fields come from the highest-priority cell that succeeded.
    assert_eq!(merged.extra_fields.get("global"), Some(&r#"{"version":1}"#.to_string()));
}

#[test]
fn project_config_extra_fields_follow_cell_priority() {
    let results = vec![
        (
            "us2".to_string(),
            CellOutcome::Success(Some(pc_response(&[("key2", "{}")], &[], &[("global", "2")]))),
        ),
        ("us3".to_string(), CellOutcome::Success(Some(pc_response(&[], &[], &[("global", "3")])))),
        ("us1".to_string(), CellOutcome::Success(Some(pc_response(&[("key1", "{}")], &[], &[("global", "1")])))),
    ];
    let meta = ProjectConfigsMetadata {
        cell_to_keys: StrMap::new(),
        unassigned_keys: vec![],
        cell_priority: vec!["us1".to_string(), "us2".to_string()],
    };
    let (index, merged) = ProjectConfigsHandler.merge_responses(results, meta).unwrap();
    assert_eq!(index, Some(0));
    assert_eq!(merged.extra_fields.get("global"), Some(&"1".to_string()));
    assert_eq!(merged.extra_fields.len(), 1);
    // A failed first cell: the next one in priority gives the fields.
    let results = vec![
        ("us1".to_string(), CellOutcome::Failed),
        ("us2".to_string(), CellOutcome::Success(Some(pc_response(&[], &[], &[("global", "2")])))),
    ];
    let meta = ProjectConfigsMetadata {
        cell_to_keys: StrMap::new(),
        unassigned_keys: vec![],
        cell_priority: vec!["us1".to_string(), "us2".to_string()],
    };
    let (index, merged) = ProjectConfigsHandler.merge_responses(results, meta).unwrap();
    assert_eq!(index, Some(1));
    assert_eq!(merged.extra_fields.get("global"), Some(&"2".to_string()));
}

#[test]
fn project_config_test_merge_responses_with_pending() {
    let results = vec![
        (
            "us1".to_string(),
            CellOutcome::Success(Some(pc_response(&[("key1", r#"{"slug":"project1"}"#)], &[], &[]))),
        ),
        (
            "us2".to_string(),
            CellOutcome::Success(Some(pc_response(&[("key2", r#"{"slug":"project2"}"#)], &[], &[]))),
        ),
    ];
    let meta = ProjectConfigsMetadata {
        cell_to_keys: StrMap::new(),
        unassigned_keys: vec![
            "key_routing_failed".to_string(),
            "key_from_failed_cell1".to_string(),
            "key_from_failed_cell2".to_string(),
        ],
        cell_priority: vec![],
    };
    let (_, merged) = ProjectConfigsHandler.merge_responses(results, meta).unwrap();
    assert_eq!(merged.pending_keys.len(), 3);
    assert!(merged.pending_keys.contains(&"key_routing_failed".to_string()));
    assert!(merged.pending_keys.contains(&"key_from_failed_cell1".to_string()));
    assert!(merged.pending_keys.contains(&"key_from_failed_cell2".to_string()));
}

#[test]
fn project_config_failed_cell_keys_become_pending() {
    let mut cell_to_keys = StrMap::new();
    cell_to_keys.insert("us1".to_string(), vec!["key1".to_string(), "key3".to_string()]);
    cell_to_keys.insert("us2".to_string(), vec!["key2".to_string()]);
    let meta = ProjectConfigsMetadata {
        cell_to_keys,
        unassigned_keys: vec!["unrouted".to_string()],
        cell_priority: vec!["us1".to_string(), "us2".to_string()],
    };
    let results = vec![
        ("us1".to_string(), CellOutcome::Failed),
        (
            "us2".to_string(),
            CellOutcome::Success(Some(pc_response(&[("key2", "{}")], &["key4"], &[]))),
        ),
    ];
    let (index, merged) = ProjectConfigsHandler.merge_responses(results, meta).unwrap();
    // The success is merged first, then the failure.
    assert_eq!(index, Some(1));
    assert_eq!(
        merged.pending_keys,
        vec![
            "unrouted".to_string(),
            "key4".to_string(),
            "key1".to_string(),
            "key3".to_string()
        ]
    );
    assert!(merged.project_configs.contains_key("key2"));
}

#[test]
fn project_config_no_success_with_pending_keys_answers_them() {
    let mut cell_to_keys = StrMap::new();
    cell_to_keys.insert("us2".to_string(), vec!["k2".to_string()]);
    let meta = ProjectConfigsMetadata {
        cell_to_keys,
        unassigned_keys: vec!["a".to_string()],
        cell_priority: vec![],
    };
    let results = vec![
        ("us1".to_string(), CellOutcome::NonSuccess(500)),
        ("us2".to_string(), CellOutcome::Failed),
    ];
    let (index, merged) = ProjectConfigsHandler.merge_responses(results, meta).unwrap();
    assert_eq!(index, None);
    assert_eq!(merged.project_configs.len(), 0);
    assert_eq!(merged.extra_fields.len(), 0);
    assert_eq!(merged.pending_keys, vec!["a".to_string(), "k2".to_string()]);
}

#[test]
fn project_config_no_success_and_nothing_pending_is_unavailable() {
    let meta = ProjectConfigsMetadata {
        cell_to_keys: StrMap::new(),
        unassigned_keys: vec![],
        cell_priority: vec![],
    };
    let results = vec![
        ("us1".to_string(), CellOutcome::NonSuccess(500)),
        ("us2".to_string(), CellOutcome::Failed),
    ];
    assert_eq!(ProjectConfigsHandler.merge_responses(results, meta).err(), Some(503));
    assert_eq!(SERVICE_UNAVAILABLE, 503);
    let empty = ProjectConfigsResponse::default();
    assert_eq!(empty.project_configs.len(), 0);
    assert!(empty.pending_keys.is_empty());
}

#[test]
fn public_key_splitter_keeps_configured_cells() {
    let cells = create_test_cells();
    let keys = vec!["a".to_string(), "b".to_string(), "c".to_string(), "d".to_string()];
    let routes = vec![
        Some("us2".to_string()),
        Some("de1".to_string()),
        None,
        Some("us2".to_string()),
    ];
    let (split, pending) = PublicKeySplitter::new().split(keys.clone(), routes.clone(), &cells);
    assert_eq!(split.len(), 1);
    assert_eq!(split.get("us2"), Some(&vec!["a".to_string(), "d".to_string()]));
    assert_eq!(pending, vec!["b".to_string(), "c".to_string()]);

    let no_cells = Locales::new(StrMap::new());
    assert!(no_cells.get_cells("us").is_none());
}

#[test]
fn parallel_collection_reports_missing_cells_as_timeouts() {
    let mut c: ParallelCollection<u32> =
        ParallelCollection::new(vec!["us1".to_string(), "us2".to_string(), "us3".to_string()]);
    c.complete("us2".to_string(), Ok(7));
    c.complete("us1".to_string(), Err(IngestRouterError::InternalError("x".to_string())));
    let results = c.finish();
    let cells: Vec<&str> = results.iter().map(|(c, _)| c.as_str()).collect();
    assert_eq!(cells, vec!["us2", "us1", "us3"]);
    assert!(matches!(results[0].1, Ok(7)));
    assert!(matches!(&results[2].1, Err(IngestRouterError::UpstreamTimeout(c)) if c == "us3"));
}

#[test]
fn failover_stops_at_first_success() {
    assert!(failover_should_stop(Some(200)));
    assert!(!failover_should_stop(Some(500)));
    assert!(!failover_should_stop(None));

    let mut c: FailoverCollection<u32> = FailoverCollection::new();
    assert!(c.record("us1".to_string(), Ok(1), Some(502)).is_none());
    let done = c.record("us2".to_string(), Ok(2), Some(200)).unwrap();
    assert_eq!(done.len(), 1);
    assert_eq!(done[0].0, "us2");

    let mut c: FailoverCollection<u32> = FailoverCollection::new();
    assert!(c.record("us1".to_string(), Ok(1), Some(502)).is_none());
    assert!(c
        .record("us2".to_string(), Err(IngestRouterError::UpstreamTimeout("us2".to_string())), None)
        .is_none());
    let all = c.finish();
    assert_eq!(all.len(), 2);
}

#[test]
fn unknown_cell_is_internal_error() {
    let cells = create_test_cells();
    assert_eq!(relay_url_for_cell(&cells, "us1").unwrap(), "http://relay-us1:8090");
    match relay_url_for_cell(&cells, "xx") {
        Err(IngestRouterError::InternalError(m)) => assert_eq!(m, "Unknown cell: xx"),
        _ => panic!("expected an internal error"),
    }
}

#[test]
fn error_statuses_and_messages() {
    let e = IngestRouterError::ServiceUnavailable("Test unavailable".to_string());
    let (status, body) = e.into_response();
    assert_eq!(status, 503);
    assert!(body.contains("Test unavailable"));
    assert_eq!(body, "Service unavailable: Test unavailable\n");
    assert_eq!(IngestRouterError::RequestBodyError("x".to_string()).status_code(), 400);
    assert_eq!(IngestRouterError::UpstreamTimeout("u".to_string()).status_code(), 504);
    assert_eq!(
        IngestRouterError::UpstreamRequestFailed("u".to_string(), "boom".to_string()).message(),
        "Upstream request failed for u: boom"
    );
}

fn pk_response_with_relays(entries: &[(&str, &str, bool)]) -> PublicKeysResponse {
    let mut public_keys = StrMap::new();
    let mut relays = StrMap::new();
    for (k, key, internal) in entries {
        public_keys.insert(k.to_string(), Some(key.to_string()));
        relays.insert(
            k.to_string(),
            Some(RelayInfo {
                public_key: key.to_string(),
                internal: *internal,
            }),
        );
    }
    PublicKeysResponse {
        public_keys,
        relays,
    }
}

#[test]
fn public_keys_test_split_request_sends_to_all_cells() {
    let cells = create_test_cells();
    let (cell_requests, metadata) = PublicKeysHandler.split_request(
        PublicKeysRequest {
            relay_ids: vec!["key1".to_string(), "key2".to_string()],
        },
        &cells,
    );
    assert_eq!(cell_requests.len(), 2);
    assert!(cell_requests.contains(&"us1".to_string()));
    assert!(cell_requests.contains(&"us2".to_string()));
    assert_eq!(metadata.requested_relay_ids.len(), 2);
    assert!(metadata.requested_relay_ids.contains(&"key1".to_string()));
    assert!(metadata.requested_relay_ids.contains(&"key2".to_string()));
}

#[test]
fn test_merge_responses_all_success() {
    let body = || pk_response_with_relays(&[("key1", "pubkey1", false), ("key2", "pubkey2", true)]);
    let responses = vec![CellOutcome::Success(Some(body())), CellOutcome::Success(Some(body()))];
    let merged = PublicKeysHandler.merge_responses(responses, pk_meta(&["key1", "key2"]));
    assert!(merged.is_ok());
}

#[test]
fn test_merge_responses_with_failures_but_all_values() {
    let body = pk_response_with_relays(&[("key1", "pubkey1", false), ("key2", "pubkey2", true)]);
    let responses = vec![CellOutcome::Failed, CellOutcome::Success(Some(body))];
    let merged = PublicKeysHandler.merge_responses(responses, pk_meta(&["key1", "key2"]));
    assert!(merged.is_ok());
}
