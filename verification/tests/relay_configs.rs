use synapse::ingest_router::config::{
    CellConfig, HandlerAction, HttpMethod, Match, RelayProjectConfigsArgs, RelayTimeouts, Route,
};
use synapse::ingest_router::errors::IngestRouterError;
use synapse::ingest_router::locale::{Cells, Locales};
use synapse::ingest_router::relay_project_config_handler::merger::MergedResults;
use synapse::ingest_router::relay_project_config_handler::protocol::{
    ProjectConfigsRequest, ProjectConfigsResponse,
};
use synapse::ingest_router::relay_project_config_handler::splitter::PublicKeyRouter;
use synapse::ingest_router::relay_project_config_handler::task_executor::{
    ResultCollector, TaskCompletion, UpstreamOutcome, UpstreamTaskResult,
};
use synapse::ingest_router::relay_project_config_handler::RelayProjectConfigsHandler;
use synapse::ingest_router::router::Router;
use synapse::support::strmap::StrMap;

/// A JSON value from its text.
fn j(text: &str) -> serde_json::Value {
    serde_json::from_str(text).unwrap()
}

/// The JSON body of a merged answer, as the service writes it.
fn response_json(response: ProjectConfigsResponse) -> serde_json::Value {
    let mut object = serde_json::Map::new();
    let mut configs = serde_json::Map::new();
    for (k, v) in response.project_configs.into_entries() {
        configs.insert(k, serde_json::from_str(&v).unwrap());
    }
    object.insert("configs".to_string(), serde_json::Value::Object(configs));
    if let Some(pending) = response.pending_keys {
        object.insert(
            "pending".to_string(),
            serde_json::Value::Array(pending.into_iter().map(serde_json::Value::String).collect()),
        );
    }
    for (k, v) in response.extra_fields.into_entries() {
        object.insert(k, serde_json::from_str(&v).unwrap());
    }
    serde_json::Value::Object(object)
}

fn text_map(entries: &[(&str, serde_json::Value)]) -> StrMap<String> {
    let mut m = StrMap::new();
    for (k, v) in entries {
        m.insert(k.to_string(), v.to_string());
    }
    m
}

fn header<'a>(headers: &'a [(String, String)], name: &str) -> Option<&'a str> {
    headers.iter().find(|(n, _)| n == name).map(|(_, v)| v.as_str())
}

fn cell_config(name: &str, sentry: &str, relay: &str) -> CellConfig {
    CellConfig { name: name.to_string(), sentry_url: sentry.to_string(), relay_url: relay.to_string() }
}

fn locales_of(locale: &str, cells: Vec<CellConfig>) -> StrMap<Vec<CellConfig>> {
    let mut m = StrMap::new();
    m.insert(locale.to_string(), cells);
    m
}

fn timeouts() -> RelayTimeouts {
    RelayTimeouts { http_timeout_secs: 5, task_initial_timeout_secs: 10, task_subsequent_timeout_secs: 2 }
}

#[test]
fn test_empty_response() {
    let (response, _) = MergedResults::new().into_response();
    assert_eq!(response_json(response), j(r#"{"configs": {}}"#));
}

#[test]
fn test_configs_merge() {
    let mut results = MergedResults::new();
    results.merge_project_configs(text_map(&[(
        "key1",
        j(r#"{"disabled": false, "slug": "project1"}"#),
    )]));
    results.merge_project_configs(text_map(&[(
        "key2",
        j(r#"{"disabled": false, "slug": "project2"}"#),
    )]));
    let (response, _) = results.into_response();
    let parsed = response_json(response);
    assert_eq!(parsed["configs"].as_object().unwrap().len(), 2);
    assert!(parsed["configs"].get("key1").is_some());
    assert!(parsed["configs"].get("key2").is_some());
}

#[test]
fn test_pending_handling() {
    let mut results = MergedResults::new();
    results.add_pending_keys(vec!["key1".to_string(), "key2".to_string()]);
    results.add_pending_keys(vec!["key3".to_string()]);
    let (response, _) = results.into_response();
    assert_eq!(response_json(response)["pending"].as_array().unwrap().len(), 3);
}

#[test]
fn test_empty_pending_omitted() {
    let (response, _) = MergedResults::new().into_response();
    assert!(response_json(response).get("pending").is_none());
}

#[test]
fn test_headers_forwarding() {
    let mut results = MergedResults::new();
    results.http_headers.push(("cache-control".to_string(), "max-age=300".to_string()));
    results.http_headers.push(("x-sentry-rate-limit-remaining".to_string(), "100".to_string()));
    results.http_headers.push(("connection".to_string(), "keep-alive".to_string()));
    let (_, headers) = results.into_response();
    assert_eq!(header(&headers, "cache-control"), Some("max-age=300"));
    assert_eq!(header(&headers, "x-sentry-rate-limit-remaining"), Some("100"));
    assert_eq!(header(&headers, "connection"), None);
    assert_eq!(header(&headers, "content-type"), Some("application/json"));
}

#[test]
fn test_extra_fields() {
    let mut results = MergedResults::new();
    results.extra_fields.insert(
        "global".to_string(),
        j(r#"{"measurements": {"maxCustomMeasurements": 10}}"#).to_string(),
    );
    results.extra_fields.insert("global_status".to_string(), j(r#""ready""#).to_string());
    let (response, _) = results.into_response();
    let parsed = response_json(response);
    assert_eq!(parsed["global"]["measurements"]["maxCustomMeasurements"], 10);
    assert_eq!(parsed["global_status"], "ready");
}

fn merged(configs: StrMap<String>, pending: Vec<String>, extra: StrMap<String>) -> serde_json::Value {
    let mut results = MergedResults::new();
    results.merge_project_configs(configs);
    results.add_pending_keys(pending);
    results.extra_fields = extra;
    let (response, headers) = results.into_response();
    assert_eq!(header(&headers, "content-type"), Some("application/json"));
    response_json(response)
}

#[test]
fn test_response_building_and_v3_protocol() {
    // Empty answer.
    assert_eq!(merged(StrMap::new(), vec![], StrMap::new()), j(r#"{"configs": {}}"#));

    // Several configs, every field kept.
    let configs = text_map(&[
        (
            "project1",
            j(r#"{ "disabled": false, "slug": "test-project", "organizationId": 42, "projectId": 100, "customField": "customValue" }"#),
        ),
        ("project2", j(r#"{"config": "value2"}"#)),
    ]);
    let parsed = merged(configs, vec![], StrMap::new());
    assert!(parsed["configs"].get("project1").is_some());
    assert!(parsed["configs"].get("project2").is_some());
    assert_eq!(parsed["configs"]["project1"]["disabled"], false);
    assert_eq!(parsed["configs"]["project1"]["slug"], "test-project");
    assert_eq!(parsed["configs"]["project1"]["customField"], "customValue");

    // Pending keys, in order.
    let pending = vec!["key1".to_string(), "key2".to_string(), "key3".to_string()];
    let parsed = merged(StrMap::new(), pending, StrMap::new());
    assert_eq!(parsed["pending"].as_array().unwrap().len(), 3);
    assert_eq!(parsed["pending"][0], "key1");

    // No pending keys: no pending field.
    assert!(merged(StrMap::new(), vec![], StrMap::new()).get("pending").is_none());

    // Global config and other fields.
    let extra = text_map(&[
        ("global", j(r#"{"measurements": {"maxCustomMeasurements": 10}}"#)),
        ("global_status", j(r#""ready""#)),
        ("futureFeature", j(r#"{"enabled": true}"#)),
    ]);
    let parsed = merged(StrMap::new(), vec![], extra);
    assert_eq!(parsed["global"]["measurements"]["maxCustomMeasurements"], 10);
    assert_eq!(parsed["global_status"], "ready");
    assert_eq!(parsed["futureFeature"]["enabled"], true);
}

#[test]
fn test_all_upstreams_fail_returns_error() {
    let request = ProjectConfigsRequest {
        public_keys: vec!["test-key-1".to_string(), "test-key-2".to_string()],
        extra_fields: StrMap::new(),
    };
    // No cell: nothing is sent, nothing comes back.
    let results = ResultCollector::new(vec![]).finish(&vec![]);
    match RelayProjectConfigsHandler::check_results(&results, &request) {
        Err(IngestRouterError::ServiceUnavailable(msg)) => {
            assert_eq!(msg, "All upstream cells are unavailable");
            let error = IngestRouterError::ServiceUnavailable(msg);
            assert_eq!(error.status_code(), 503);
        }
        _ => panic!("Expected ServiceUnavailable error"),
    }
}

#[test]
fn test_v3_upstream_failure_adds_keys_to_pending() {
    let handler = RelayProjectConfigsHandler::new(
        locales_of("us", vec![cell_config("us-cell-1", "http://localhost:1/", "http://localhost:1/")]),
        timeouts(),
    );
    let request = ProjectConfigsRequest {
        public_keys: vec!["test-key-1".to_string(), "test-key-2".to_string(), "test-key-3".to_string()],
        extra_fields: StrMap::new(),
    };
    let cells = handler.handle("us").unwrap();
    let splits = handler.split_keys_by_upstream(&request, &cells);
    assert_eq!(splits.len(), 1);
    let mut collector = ResultCollector::new(vec![splits[0].request.public_keys.clone()]);
    // The cell cannot be reached.
    collector.handle_task_completion(
        0,
        TaskCompletion::Finished(UpstreamTaskResult {
            cell_name: splits[0].cell_name.clone(),
            public_keys: splits[0].request.public_keys.clone(),
            result: UpstreamOutcome::RequestFailed,
        }),
        5,
    );
    let results = collector.finish(&cells.cell_list());
    assert!(RelayProjectConfigsHandler::check_results(&results, &request).is_ok());
    let (response, _) = results.into_response();
    let parsed = response_json(response);
    assert!(parsed["configs"].as_object().unwrap().is_empty());
    let pending = parsed["pending"].as_array().unwrap();
    assert_eq!(pending.len(), 3);
    assert!(pending.contains(&j(r#""test-key-1""#)));
    assert!(pending.contains(&j(r#""test-key-2""#)));
    assert!(pending.contains(&j(r#""test-key-3""#)));
}

#[test]
fn relay_project_config_handler_test_extra_fields_passthrough() {
    let handler = RelayProjectConfigsHandler::new(
        locales_of(
            "us",
            vec![
                cell_config("us-cell-1", "http://us1-sentry:8080/", "http://us1-relay:8080/"),
                cell_config("us-cell-2", "http://us2-sentry:8080/", "http://us2-relay:8080/"),
            ],
        ),
        timeouts(),
    );
    let request = ProjectConfigsRequest {
        public_keys: vec!["key1".to_string(), "key2".to_string()],
        extra_fields: text_map(&[("global", j(r#"true"#))]),
    };
    let cells = handler.handle("us").unwrap();
    let splits = handler.split_keys_by_upstream(&request, &cells);
    assert_eq!(splits.len(), 2);
    assert_eq!(splits[0].request.extra_fields.get("global"), Some(&"true".to_string()));
    assert_eq!(splits[1].request.extra_fields.get("global"), Some(&"true".to_string()));
}

#[test]
fn test_headers_from_highest_priority_cell() {
    let mut results = MergedResults::new();
    results.http_headers = vec![
        ("cache-control".to_string(), "max-age=300".to_string()),
        ("x-sentry-rate-limit-remaining".to_string(), "100".to_string()),
        ("connection".to_string(), "keep-alive".to_string()),
    ];
    let (_, headers) = results.into_response();
    assert_eq!(header(&headers, "cache-control"), Some("max-age=300"));
    assert_eq!(header(&headers, "x-sentry-rate-limit-remaining"), Some("100"));
    assert_eq!(header(&headers, "connection"), None);
    assert_eq!(header(&headers, "content-type"), Some("application/json"));
}

#[test]
fn splitter_test_extra_fields_passthrough() {
    let locales = Locales::new(locales_of("us", vec![cell_config("us1", "http://us1:8080/", "http://us1:8090/")]));
    let cells = locales.get_cells("us").unwrap();
    let request = ProjectConfigsRequest {
        public_keys: vec!["key1".to_string()],
        extra_fields: text_map(&[("global", j(r#"true"#))]),
    };
    let splits = PublicKeyRouter::new().split(&request, &cells);
    assert_eq!(splits[0].request.extra_fields, text_map(&[("global", j(r#"true"#))]));
}

fn test_cells(names: &[&str]) -> Cells {
    let configs = names
        .iter()
        .enumerate()
        .map(|(i, name)| {
            let url = format!("http://127.0.0.1:{}/", 8080 + i);
            cell_config(name, &url, &url)
        })
        .collect();
    Locales::new(locales_of("test", configs)).get_cells("test").unwrap()
}

fn answered(cell: &str, keys: &[&str], response: ProjectConfigsResponse) -> TaskCompletion {
    TaskCompletion::Finished(UpstreamTaskResult {
        cell_name: cell.to_string(),
        public_keys: keys.iter().map(|k| k.to_string()).collect(),
        result: UpstreamOutcome::Answered { headers: vec![], body: Some(response) },
    })
}

fn keys(list: &[&str]) -> Vec<String> {
    list.iter().map(|k| k.to_string()).collect()
}

#[test]
fn test_multiple_upstreams_all_succeed() {
    let cells = test_cells(&["cell1", "cell2"]);
    let mut collector = ResultCollector::new(vec![keys(&["key1"]), keys(&["key2"])]);
    collector.handle_task_completion(
        1,
        answered(
            "cell2",
            &["key2"],
            ProjectConfigsResponse {
                project_configs: text_map(&[("key2", j(r#"{"disabled": false, "slug": "project2"}"#))]),
                pending_keys: None,
                extra_fields: text_map(&[("global", j(r#"{"from": "cell2"}"#))]),
            },
        ),
        10,
    );
    collector.handle_task_completion(
        0,
        answered(
            "cell1",
            &["key1"],
            ProjectConfigsResponse {
                project_configs: text_map(&[("key1", j(r#"{"disabled": false, "slug": "project1"}"#))]),
                pending_keys: None,
                extra_fields: text_map(&[("global", j(r#"{"from": "cell1"}"#))]),
            },
        ),
        20,
    );
    let results = collector.finish(&cells.cell_list());
    assert_eq!(results.project_configs.len(), 2);
    assert!(results.project_configs.contains_key("key1"));
    assert!(results.project_configs.contains_key("key2"));
    assert_eq!(
        results.extra_fields.get("global"),
        Some(&j(r#"{"from": "cell1"}"#).to_string())
    );
    assert!(results.pending_keys.is_empty());
}

#[test]
fn test_partial_failure() {
    let cells = test_cells(&["cell1", "cell2"]);
    let mut collector = ResultCollector::new(vec![keys(&["key1"]), keys(&["key2", "key3"])]);
    collector.handle_task_completion(
        0,
        answered(
            "cell1",
            &["key1"],
            ProjectConfigsResponse {
                project_configs: text_map(&[("key1", j(r#"{"disabled": false}"#))]),
                pending_keys: None,
                extra_fields: StrMap::new(),
            },
        ),
        10,
    );
    collector.handle_task_completion(
        1,
        TaskCompletion::Finished(UpstreamTaskResult {
            cell_name: "cell2".to_string(),
            public_keys: keys(&["key2", "key3"]),
            result: UpstreamOutcome::RequestFailed,
        }),
        15,
    );
    let results = collector.finish(&cells.cell_list());
    assert_eq!(results.project_configs.len(), 1);
    assert!(results.project_configs.contains_key("key1"));
    assert_eq!(results.pending_keys.len(), 2);
    assert!(results.pending_keys.contains(&"key2".to_string()));
    assert!(results.pending_keys.contains(&"key3".to_string()));
}

#[test]
fn test_upstream_returns_pending_keys() {
    let cells = test_cells(&["cell1"]);
    let mut collector = ResultCollector::new(vec![keys(&["key1", "key2"])]);
    collector.handle_task_completion(
        0,
        answered(
            "cell1",
            &["key1", "key2"],
            ProjectConfigsResponse {
                project_configs: text_map(&[("key1", j(r#"{"disabled": false}"#))]),
                pending_keys: Some(keys(&["key2"])),
                extra_fields: StrMap::new(),
            },
        ),
        10,
    );
    let results = collector.finish(&cells.cell_list());
    assert!(results.project_configs.contains_key("key1"));
    assert_eq!(results.pending_keys.len(), 1);
    assert!(results.pending_keys.contains(&"key2".to_string()));
}

#[test]
fn test_empty_split_requests() {
    let cells = test_cells(&["cell1"]);
    let results = ResultCollector::new(vec![]).finish(&cells.cell_list());
    assert_eq!(results.project_configs.len(), 0);
    assert!(results.pending_keys.is_empty());
    assert_eq!(results.extra_fields.len(), 0);
}

fn relay_route(host: Option<&str>, path: Option<&str>, method: Option<HttpMethod>) -> Route {
    Route {
        route_match: Match {
            host: host.map(|h| h.to_string()),
            path: path.map(|p| p.to_string()),
            method,
        },
        action: HandlerAction::RelayProjectConfigs(RelayProjectConfigsArgs { locale: "us".to_string() }),
    }
}

fn test_router(routes: Vec<Route>) -> Router {
    Router::new(
        routes,
        locales_of("us", vec![cell_config("us1", "https://sentry.io/us1", "https://relay.io/us1")]),
    )
}

fn default_routes() -> Vec<Route> {
    vec![
        relay_route(Some("api.example.com"), Some("/api/test"), Some(HttpMethod::Post)),
        relay_route(None, Some("/health"), Some(HttpMethod::Get)),
    ]
}

#[test]
fn test_route_matching() {
    let router = test_router(default_routes());
    let (route, cells) = router.resolve(Some("api.example.com"), "/api/test", "POST").unwrap();
    assert_eq!(route.route_match.path.as_deref(), Some("/api/test"));
    assert_eq!(cells.locality(), "us");
    let (route, _) = router.resolve(None, "/health", "GET").unwrap();
    assert_eq!(route.route_match.path.as_deref(), Some("/health"));
}

#[test]
fn test_no_route_matched() {
    let router = test_router(default_routes());
    assert!(router.resolve(None, "/different", "GET").is_none());
}

#[test]
fn test_host_matching_with_port() {
    let router = test_router(vec![relay_route(Some("api.example.com"), None, None)]);
    let (route, _) = router.resolve(Some("api.example.com:8080"), "/test", "GET").unwrap();
    assert_eq!(route.route_match.host.as_deref(), Some("api.example.com"));
}

#[test]
fn test_method_matching() {
    let router = test_router(vec![relay_route(None, Some("/api/test"), Some(HttpMethod::Post))]);
    assert!(router.resolve(None, "/api/test", "POST").is_some());
    assert!(router.resolve(None, "/api/test", "GET").is_none());
}

#[test]
fn test_error_into_response() {
    let error = IngestRouterError::ServiceUnavailable("Test unavailable".to_string());
    let (status, body) = error.into_response();
    assert_eq!(status, 503);
    assert!(body.contains("Test unavailable"));
}
