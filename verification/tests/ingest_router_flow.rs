use synapse::ingest_router::config::{
    AdminListener, CellConfig, Config, HandlerAction, HttpMethod, Listener, Match,
    RelayProjectConfigsArgs, RelayTimeouts, Route, ValidationError,
};
use synapse::ingest_router::fanout_handler::FanOutHandler;
use synapse::ingest_router::forwarding_handler::ForwardHandler;
use synapse::ingest_router::http::{
    failure_error, split_path_and_query, upstream_identifier, upstream_uri, SendFailure,
};
use synapse::ingest_router::errors::IngestRouterError;
use synapse::ingest_router::locale::Locales;
use synapse::ingest_router::relay_project_config_handler::merger::MergedResults;
use synapse::ingest_router::relay_project_config_handler::protocol::{
    ProjectConfigsRequest, ProjectConfigsResponse,
};
use synapse::ingest_router::relay_project_config_handler::splitter::PublicKeyRouter;
use synapse::ingest_router::relay_project_config_handler::task_executor::{
    in_order_timeout_ms, CollectionState, ResultCollector, TaskCompletion, UpstreamOutcome,
    UpstreamTaskResult,
};
use synapse::ingest_router::relay_project_config_handler::RelayProjectConfigsHandler;
use synapse::ingest_router::router::Router;
use synapse::support::strmap::StrMap;

fn cell(name: &str, n: u32) -> CellConfig {
    CellConfig {
        name: name.to_string(),
        sentry_url: format!("http://10.0.0.{n}:8080"),
        relay_url: format!("http://10.0.0.{n}:8090"),
    }
}

fn base_config() -> Config {
    let mut locales = StrMap::new();
    locales.insert("us".to_string(), vec![cell("us1", 1)]);
    Config {
        listener: Listener {
            host: "0.0.0.0".to_string(),
            port: 3000,
        },
        admin_listener: AdminListener {
            host: "127.0.0.1".to_string(),
            port: 3001,
        },
        locales,
        routes: vec![Route {
            route_match: Match {
                path: Some("/api/".to_string()),
                host: None,
                method: None,
            },
            action: HandlerAction::RelayProjectConfigs(RelayProjectConfigsArgs {
                locale: "us".to_string(),
            }),
        }],
    }
}

#[test]
fn test_validation_errors() {
    assert!(base_config().validate().is_ok());

    let mut config = base_config();
    config.listener.port = 0;
    assert!(matches!(config.validate().unwrap_err(), ValidationError::InvalidPort));

    let mut config = base_config();
    config.locales.push_to("us".to_string(), cell("", 2));
    assert!(matches!(config.validate().unwrap_err(), ValidationError::EmptyUpstreamName));

    let mut config = base_config();
    config.locales.push_to("us".to_string(), cell("us1", 2));
    assert!(matches!(config.validate().unwrap_err(), ValidationError::DuplicateUpstream(_)));

    let mut config = base_config();
    config.routes[0].action = HandlerAction::RelayProjectConfigs(RelayProjectConfigsArgs {
        locale: "unknown".to_string(),
    });
    assert!(matches!(config.validate().unwrap_err(), ValidationError::UnknownLocale(_)));

    let mut config = base_config();
    config.locales.insert("invalid_locale".to_string(), Vec::new());
    assert!(matches!(config.validate().unwrap_err(), ValidationError::LocaleHasNoValidCells(_)));
}

#[test]
fn listener_defaults_and_validation() {
    let l = Listener::default();
    assert!(l.validate().is_ok());
    let a = AdminListener::default();
    assert!(a.validate().is_ok());
    let bad = Listener {
        host: "0.0.0.0".to_string(),
        port: 0,
    };
    assert_eq!(bad.validate(), Err(ValidationError::InvalidPort));
}

#[test]
fn test_is_empty() {
    let results = MergedResults::new();
    assert!(results.is_empty(true));
    assert!(!results.is_empty(false));
}

#[test]
fn merged_response_drops_connection_headers() {
    let mut results = MergedResults::new();
    results.add_pending_keys(vec![]);
    results.http_headers = vec![
        ("connection".to_string(), "keep-alive".to_string()),
        ("content-length".to_string(), "10".to_string()),
        ("x-custom".to_string(), "1".to_string()),
        ("content-type".to_string(), "text/plain".to_string()),
    ];
    let (body, headers) = results.into_response();
    assert!(body.pending_keys.is_none());
    assert_eq!(
        headers,
        vec![
            ("x-custom".to_string(), "1".to_string()),
            ("content-type".to_string(), "application/json".to_string()),
        ]
    );

    let mut results = MergedResults::new();
    results.add_pending_keys(vec!["k".to_string()]);
    let (body, _) = results.into_response();
    assert_eq!(body.pending_keys, Some(vec!["k".to_string()]));
}

fn timeouts() -> RelayTimeouts {
    RelayTimeouts {
        http_timeout_secs: 15,
        task_initial_timeout_secs: 10,
        task_subsequent_timeout_secs: 2,
    }
}

fn answer(cell: &str, configs: &[(&str, &str)], pending: Option<Vec<&str>>, extra: &[(&str, &str)]) -> UpstreamTaskResult {
    let mut project_configs = StrMap::new();
    for (k, v) in configs {
        project_configs.insert(k.to_string(), v.to_string());
    }
    let mut extra_fields = StrMap::new();
    for (k, v) in extra {
        extra_fields.insert(k.to_string(), v.to_string());
    }
    UpstreamTaskResult {
        cell_name: cell.to_string(),
        public_keys: vec![],
        result: UpstreamOutcome::Answered {
            headers: vec![("x-cell".to_string(), cell.to_string())],
            body: Some(ProjectConfigsResponse {
                project_configs,
                pending_keys: pending.map(|p| p.iter().map(|s| s.to_string()).collect()),
                extra_fields,
            }),
        },
    }
}

#[test]
fn collection_deadlines() {
    let t = timeouts();
    let mut s = CollectionState::WaitingForFirst;
    assert_eq!(s.current_deadline(1_000, &t), 11_000);
    s.transition_to_subsequent(5_000);
    assert_eq!(s, CollectionState::CollectingRemaining { first_success_at: 5_000 });
    assert_eq!(s.current_deadline(9_000, &t), 7_000);
    s.transition_to_subsequent(6_000);
    assert_eq!(s, CollectionState::CollectingRemaining { first_success_at: 5_000 });
    assert_eq!(
        CollectionState::WaitingForFirst.current_deadline(u64::MAX - 5, &t),
        u64::MAX
    );
    assert_eq!(in_order_timeout_ms(None, 0, &t), 10_000);
    assert_eq!(in_order_timeout_ms(Some(5_000), 4_000, &t), 1_000);
    assert_eq!(in_order_timeout_ms(Some(5_000), 6_000, &t), 1);
}

#[test]
fn collector_merges_and_prefers_priority_cell() {
    let t = timeouts();
    let mut c = ResultCollector::new(vec![
        vec!["a".to_string()],
        vec!["b".to_string()],
        vec!["c".to_string()],
    ]);
    // The lower-priority cell answers first and starts the second phase.
    let reset = c.handle_task_completion(
        1,
        TaskCompletion::Finished(answer("us2", &[("b", "{}")], Some(vec!["p"]), &[("global", "2")])),
        100,
    );
    assert!(reset);
    assert_eq!(c.current_deadline(500, &t), 2_100);
    let reset = c.handle_task_completion(
        0,
        TaskCompletion::Finished(answer("us1", &[("a", "{}")], None, &[("global", "1")])),
        200,
    );
    assert!(!reset);
    // The third task panicked: its keys become pending.
    c.handle_task_completion(2, TaskCompletion::Panicked, 300);
    // Joining it again after the deadline adds nothing.
    c.handle_aborted(2);
    let merged = c.finish(&vec!["us1".to_string(), "us2".to_string()]);
    assert!(merged.project_configs.contains_key("a"));
    assert!(merged.project_configs.contains_key("b"));
    assert_eq!(merged.pending_keys, vec!["p".to_string(), "c".to_string()]);
    assert_eq!(merged.extra_fields.get("global"), Some(&"1".to_string()));
    assert_eq!(merged.http_headers, vec![("x-cell".to_string(), "us1".to_string())]);
}

#[test]
fn collector_failed_request_keys_are_pending() {
    let mut c = ResultCollector::new(vec![vec!["a".to_string(), "b".to_string()], vec!["c".to_string()]]);
    let reset = c.handle_task_completion(
        0,
        TaskCompletion::Finished(UpstreamTaskResult {
            cell_name: "us1".to_string(),
            public_keys: vec!["a".to_string(), "b".to_string()],
            result: UpstreamOutcome::RequestFailed,
        }),
        10,
    );
    assert!(!reset);
    // The deadline passes: the other task is aborted.
    c.handle_aborted(1);
    let merged = c.finish(&vec!["us1".to_string()]);
    assert_eq!(merged.pending_keys, vec!["a".to_string(), "b".to_string(), "c".to_string()]);
    assert_eq!(merged.extra_fields.len(), 0);
}

#[test]
fn in_order_collection_starts_phase_on_any_answer() {
    let mut c = ResultCollector::new(vec![vec!["a".to_string()]]);
    let reset = c.handle_in_order(
        0,
        Some(UpstreamTaskResult {
            cell_name: "us1".to_string(),
            public_keys: vec!["a".to_string()],
            result: UpstreamOutcome::Answered {
                headers: vec![],
                body: None,
            },
        }),
        42,
    );
    assert!(reset);
    let merged = c.finish(&vec![]);
    assert_eq!(merged.pending_keys, vec!["a".to_string()]);
}

#[test]
fn public_key_router_round_robin() {
    let mut locales = StrMap::new();
    locales.insert("us".to_string(), vec![cell("us1", 1), cell("us2", 2)]);
    let locales = Locales::new(locales);
    let cells = locales.get_cells("us").unwrap();
    let mut extra = StrMap::new();
    extra.insert("global".to_string(), "true".to_string());
    let request = ProjectConfigsRequest {
        public_keys: vec!["k0".to_string(), "k1".to_string(), "k2".to_string()],
        extra_fields: extra,
    };
    let split = PublicKeyRouter::new().split(&request, &cells);
    assert_eq!(split.len(), 2);
    let us1 = split.iter().find(|s| s.cell_name == "us1").unwrap();
    assert_eq!(us1.request.public_keys, vec!["k0".to_string(), "k2".to_string()]);
    assert_eq!(us1.upstream.relay_url, "http://10.0.0.1:8090");
    assert_eq!(us1.request.extra_fields.get("global"), Some(&"true".to_string()));
    let us2 = split.iter().find(|s| s.cell_name == "us2").unwrap();
    assert_eq!(us2.request.public_keys, vec!["k1".to_string()]);

    let empty = Locales::new(StrMap::new());
    assert!(empty.get_cells("us").is_none());
}

#[test]
fn relay_project_configs_handler_decisions() {
    let mut locales = StrMap::new();
    locales.insert("us".to_string(), vec![cell("us1", 1)]);
    let handler = RelayProjectConfigsHandler::new(locales, timeouts());
    assert!(handler.handle("us").is_ok());
    match handler.handle("de") {
        Err(IngestRouterError::InternalError(m)) => {
            assert_eq!(m, "No targets configured for locale: de")
        }
        _ => panic!("expected an internal error"),
    }
    let request = ProjectConfigsRequest {
        public_keys: vec!["k".to_string()],
        extra_fields: StrMap::new(),
    };
    let empty = MergedResults::new();
    assert!(matches!(
        RelayProjectConfigsHandler::check_results(&empty, &request),
        Err(IngestRouterError::ServiceUnavailable(_))
    ));
    let no_keys = ProjectConfigsRequest {
        public_keys: vec![],
        extra_fields: StrMap::new(),
    };
    assert!(RelayProjectConfigsHandler::check_results(&empty, &no_keys).is_ok());
}

#[test]
fn router_matches_host_path_and_method() {
    let mut locales = StrMap::new();
    locales.insert("us".to_string(), vec![cell("us1", 1)]);
    let routes = vec![
        Route {
            route_match: Match {
                host: Some("api.example.com".to_string()),
                path: Some("/api/test".to_string()),
                method: Some(HttpMethod::Post),
            },
            action: HandlerAction::RelayProjectConfigs(RelayProjectConfigsArgs {
                locale: "us".to_string(),
            }),
        },
        Route {
            route_match: Match {
                host: None,
                path: Some("/health".to_string()),
                method: Some(HttpMethod::Get),
            },
            action: HandlerAction::RelayProjectConfigs(RelayProjectConfigsArgs {
                locale: "missing".to_string(),
            }),
        },
    ];
    let router = Router::new(routes, locales);
    // The host is compared without its port.
    let (route, cells) = router
        .resolve(Some("api.example.com:8080"), "/api/test", "POST")
        .unwrap();
    assert_eq!(route.route_match.path.as_deref(), Some("/api/test"));
    assert_eq!(cells.cell_list(), vec!["us1".to_string()]);
    assert!(router.resolve(Some("other.com"), "/api/test", "POST").is_none());
    assert!(router.resolve(Some("api.example.com"), "/api/test", "GET").is_none());
    assert!(router.resolve(None, "/api/test", "POST").is_none());
    // A matching route whose locale has no cells gives nothing.
    assert!(router.resolve(None, "/health", "GET").is_none());
}

#[test]
fn upstream_request_uri() {
    assert_eq!(
        split_path_and_query("/a/b?x=1&y=2"),
        ("/a/b".to_string(), Some("x=1&y=2".to_string()))
    );
    assert_eq!(split_path_and_query("/a"), ("/a".to_string(), None));
    assert_eq!(
        upstream_uri("http://relay-us1:8090", Some("/api/0/relays/live/?a=b")).unwrap(),
        "http://relay-us1:8090/api/0/relays/live/?a=b"
    );
    assert!(matches!(
        upstream_uri("http://relay-us1:8090", None),
        Err(IngestRouterError::InternalError(_))
    ));
    assert_eq!(upstream_identifier(Some("relay-us1"), "http://relay-us1:8090/"), "relay-us1");
    assert_eq!(upstream_identifier(None, "unix:/x"), "unix:/x");
    assert!(matches!(
        failure_error("relay-us1", SendFailure::TimedOut),
        IngestRouterError::UpstreamTimeout(u) if u == "relay-us1"
    ));
    assert!(matches!(
        failure_error("relay-us1", SendFailure::Client("refused".to_string())),
        IngestRouterError::UpstreamRequestFailed(u, m) if u == "relay-us1" && m == "refused"
    ));
}

#[test]
fn fan_out_and_forward_handlers() {
    let h = FanOutHandler::new(vec!["a".to_string()]).with_timeout(5);
    assert_eq!(h.timeout_secs(), 5);
    assert_eq!(h.name(), "fan_out");
    let f = ForwardHandler::new(vec!["b".to_string()]);
    assert_eq!(f.timeout_secs(), 30);
    assert_eq!(f.name(), "forward");
}
