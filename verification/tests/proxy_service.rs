use synapse::proxy::admin_service::AdminService;
use synapse::proxy::config::{Action, Match, Route as RouteConfig, UpstreamConfig};
use synapse::proxy::errors::ProxyError;
use synapse::proxy::proxy::{ProxyServer, ServerDecision};
use synapse::proxy::proxy_service::{ProxyDecision, ProxyService};
use synapse::proxy::resolvers::{CellQuery, Resolver, Resolvers};
use synapse::proxy::rules_engine::{
    IncomingRequest, Route as Rule, RouteAction, RuleMatch, RulesEngine,
};
use synapse::proxy::upstreams::{Upstream, Upstreams};
use synapse::proxy::utils::make_error_response;
use synapse::locator::locator::OrgToCell;
use synapse::locator::types::RouteData;
use synapse::support::strmap::StrMap;

#[test]
fn test_upstreams() {
    let valid_config = UpstreamConfig {
        name: "getsentry-us".into(),
        url: "http://1.1.1.1:80".into(),
    };

    let invalid_config = UpstreamConfig {
        name: "getsentry-de".into(),
        url: "1.1.1.1:80".into(),
    };

    let upstream = Upstream::try_from(valid_config).expect("Valid upstream should parse");
    assert_eq!(upstream.scheme, "http");
    assert_eq!(upstream.authority, "1.1.1.1:80");
    assert!(Upstream::try_from(invalid_config).is_err());
}

#[test]
fn upstream_parse_errors() {
    assert!(matches!(
        Upstream::try_from(UpstreamConfig {
            name: "x".into(),
            url: "http://[::1".into(),
        }),
        Err(ProxyError::InvalidUri(_))
    ));
    assert!(matches!(
        Upstream::try_from(UpstreamConfig {
            name: "x".into(),
            url: "/just/a/path".into(),
        }),
        Err(ProxyError::InvalidUpstream)
    ));
    let ups = Upstreams::try_new(vec![
        UpstreamConfig {
            name: "a".into(),
            url: "http://a:1".into(),
        },
        UpstreamConfig {
            name: "a".into(),
            url: "https://b:2".into(),
        },
    ])
    .unwrap();
    let a = ups.get("a").unwrap();
    assert_eq!(a.scheme, "https");
    assert_eq!(a.authority, "b:2");
    assert!(ups.get("b").is_none());
}

fn dynamic_route(path: &str, resolver: &str, default: Option<&str>) -> RouteConfig {
    let mut cell_to_upstream = StrMap::new();
    cell_to_upstream.insert("us1".to_string(), "upstream-us".to_string());
    RouteConfig {
        route_match: Match {
            host: None,
            path: Some(path.to_string()),
        },
        action: Action::Dynamic {
            resolver: resolver.to_string(),
            cell_to_upstream,
            default: default.map(|d| d.to_string()),
        },
    }
}

fn service() -> ProxyService {
    let routes = vec![
        dynamic_route("/organizations/{organization}/*", "cell_from_organization", Some("upstream-de")),
        dynamic_route("/cells/{id}", "cell_from_id", None),
        RouteConfig {
            route_match: Match {
                host: None,
                path: None,
            },
            action: Action::Static {
                to: "upstream-us".to_string(),
            },
        },
    ];
    let upstreams = vec![
        UpstreamConfig {
            name: "upstream-us".into(),
            url: "http://10.0.0.1:8000".into(),
        },
        UpstreamConfig {
            name: "upstream-de".into(),
            url: "http://10.0.0.2:8000".into(),
        },
    ];
    ProxyService::try_new(routes, upstreams).unwrap()
}

#[test]
fn proxy_routes_through_resolvers() {
    let svc = service();
    let route = svc.route(None, "/organizations/acme/issues").unwrap();
    let query = svc.cell_query(&route).unwrap().unwrap();
    assert_eq!(query, CellQuery::Organization("acme".to_string()));
    // The locator knows acme's cell.
    let name = svc.upstream_name(Some(route), Some(Ok("us1".to_string())));
    assert_eq!(name.as_deref(), Some("upstream-us"));

    // An unknown organization falls back to the route's default.
    let route = svc.route(None, "/organizations/other/issues").unwrap();
    let name = svc.upstream_name(Some(route), Some(Err(ProxyError::ResolverError)));
    assert_eq!(name.as_deref(), Some("upstream-de"));

    // A cell named directly, mapped to no upstream, and no default.
    let route = svc.route(None, "/cells/zz").unwrap();
    assert_eq!(
        svc.cell_query(&route).unwrap().unwrap(),
        CellQuery::Cell("zz".to_string())
    );
    assert_eq!(svc.upstream_name(Some(route), Some(Ok("zz".to_string()))), None);

    // The catch-all static route.
    let route = svc.route(None, "/anything").unwrap();
    assert!(svc.cell_query(&route).is_none());
    assert_eq!(svc.upstream_name(Some(route), None).as_deref(), Some("upstream-us"));
    assert_eq!(svc.upstream_name(None, None), None);
}

#[test]
fn proxy_plans_forwarding() {
    let svc = service();
    assert_eq!(
        svc.plan(Some("upstream-de"), Some("/a?b=c")),
        ProxyDecision::Forward {
            scheme: "http".to_string(),
            authority: "10.0.0.2:8000".to_string(),
            path_and_query: "/a?b=c".to_string(),
        }
    );
    assert_eq!(svc.plan(Some("nope"), Some("/a")), ProxyDecision::Respond(404));
    assert_eq!(svc.plan(None, Some("/a")), ProxyDecision::Respond(404));
    assert_eq!(svc.plan(Some("upstream-us"), None), ProxyDecision::Respond(400));
    assert_eq!(ProxyService::forward_failure_status(false), 500);
    assert_eq!(ProxyService::forward_failure_status(true), 502);
}

#[test]
fn invalid_route_stops_the_service() {
    let routes = vec![RouteConfig {
        route_match: Match {
            host: None,
            path: Some("/api/**".to_string()),
        },
        action: Action::Static {
            to: "u".to_string(),
        },
    }];
    assert!(matches!(
        ProxyService::try_new(routes, vec![]),
        Err(ProxyError::InvalidRoute(_))
    ));
}

#[test]
fn resolvers_read_parameters() {
    let r = Resolvers::try_new().unwrap();
    let mut params = StrMap::new();
    params.insert("id".to_string(), "us1".to_string());
    assert_eq!(
        r.cell_query(&Resolver::CellFromId, &params).unwrap(),
        CellQuery::Cell("us1".to_string())
    );
    assert_eq!(
        r.cell_query(&Resolver::CellFromOrganization, &params).err(),
        Some(ProxyError::ResolverError)
    );
    let mut map = StrMap::new();
    map.insert("us1".to_string(), "upstream1".to_string());
    assert_eq!(r.resolve(Ok("us1".to_string()), &map).unwrap(), "upstream1");
    assert_eq!(r.resolve(Ok("us999".to_string()), &map).err(), Some(ProxyError::ResolverError));
    assert_eq!(
        r.cell_of(CellQuery::Organization("org".to_string()), None).err(),
        Some(ProxyError::ResolverError)
    );
    assert_eq!(Resolver::from_name("cell_from_id"), Some(Resolver::CellFromId));
    assert_eq!(Resolver::from_name("other"), None);
}

#[test]
fn admin_endpoints() {
    let admin = AdminService::new();
    assert_eq!(admin.call("/health", false), (200, "ok\n".to_string()));
    assert_eq!(admin.call("/ready", true), (200, "ok\n".to_string()));
    assert_eq!(admin.call("/ready", false), (503, "Service Unavailable".to_string()));
    assert_eq!(admin.call("/other", true), (404, "Not Found".to_string()));
    assert_eq!(make_error_response(599), (599, "an error occurred".to_string()));
}

#[test]
fn rules_engine_server() {
    let rules = vec![
        Rule {
            route_match: RuleMatch {
                host: "sentry.io".to_string(),
                path_prefix_pattern: Some("/api/{id}".to_string()),
            },
            route: RouteAction::Static {
                to: "http://us".to_string(),
            },
        },
        Rule {
            route_match: RuleMatch {
                host: "sentry.io".to_string(),
                path_prefix_pattern: None,
            },
            route: RouteAction::Dynamic {
                resolver: "r".to_string(),
                default: None,
            },
        },
    ];
    let engine = RulesEngine::new(vec![]);
    assert_eq!(
        engine.find_destination(&IncomingRequest {
            host: "sentry.io",
            path: "/"
        }),
        None
    );
    let server = ProxyServer::new(rules);
    assert_eq!(
        server.handle_request(Some("sentry.io"), "/api/1", Some("/api/1?x=y")),
        ServerDecision::Forward("http://us/api/1?x=y".to_string())
    );
    assert_eq!(
        server.handle_request(Some("sentry.io"), "/other", Some("/other")),
        ServerDecision::Respond(404, "Not Found".to_string())
    );
    assert_eq!(
        server.handle_request(None, "/api/1", None),
        ServerDecision::Respond(404, "Not Found".to_string())
    );
    assert_eq!(ProxyServer::forward_failure(), (502, "Bad Gateway".to_string()));
    let headers = vec![
        ("connection".to_string(), "close".to_string()),
        ("x-a".to_string(), "1".to_string()),
        ("upgrade".to_string(), "h2c".to_string()),
    ];
    assert_eq!(
        ProxyServer::forwarded_headers(headers),
        vec![("x-a".to_string(), "1".to_string())]
    );
}

/// Resolves a dynamic route's cell to its upstream, asking the locator for
/// an organization's cell.
fn resolve_with_locator(
    resolvers: &Resolvers,
    locator: &OrgToCell,
    resolver: &Resolver,
    cell_to_upstream: &StrMap<String>,
    params: &StrMap<String>,
) -> Result<String, ProxyError> {
    let query = resolvers.cell_query(resolver, params)?;
    let lookup = match &query {
        CellQuery::Organization(org) => Some(locator.lookup(org, None).map_err(|_| ProxyError::ResolverError)),
        CellQuery::Cell(_) => None,
    };
    let cell = resolvers.cell_of(query, lookup);
    resolvers.resolve(cell, cell_to_upstream).map(|u| u.to_string())
}

fn params_of(key: &str, value: &str) -> StrMap<String> {
    let mut params = StrMap::new();
    params.insert(key.to_string(), value.to_string());
    params
}

#[test]
fn test_resolve() {
    let mut id_to_cell = StrMap::new();
    id_to_cell.insert("org_0".to_string(), "us1".to_string());
    id_to_cell.insert("org_1".to_string(), "us1".to_string());
    id_to_cell.insert("org_2".to_string(), "de".to_string());
    let mut cell_to_locality = StrMap::new();
    cell_to_locality.insert("us1".to_string(), "us".to_string());
    cell_to_locality.insert("de".to_string(), "de".to_string());
    let route_data = RouteData::from(id_to_cell, "cursor1".to_string(), cell_to_locality);
    let mut locator = OrgToCell::new(None);
    locator.start(Ok(route_data), None).unwrap();
    assert!(locator.is_ready());

    let resolvers = Resolvers::try_new().unwrap();
    let mut cell_to_upstream = StrMap::new();
    cell_to_upstream.insert("us1".to_string(), "upstream1".to_string());

    // Valid cell id
    let result = resolve_with_locator(&resolvers, &locator, &Resolver::CellFromId, &cell_to_upstream, &params_of("id", "us1"));
    assert_eq!(result.unwrap(), "upstream1");

    // Invalid cell id
    let result = resolve_with_locator(&resolvers, &locator, &Resolver::CellFromId, &cell_to_upstream, &params_of("id", "us999"));
    assert!(result.is_err());

    // Valid organization
    let result = resolve_with_locator(
        &resolvers,
        &locator,
        &Resolver::CellFromOrganization,
        &cell_to_upstream,
        &params_of("organization", "org_0"),
    );
    assert_eq!(result.unwrap(), "upstream1");

    // Invalid organization
    let result = resolve_with_locator(
        &resolvers,
        &locator,
        &Resolver::CellFromOrganization,
        &cell_to_upstream,
        &params_of("organization", "org_999"),
    );
    assert!(result.is_err());
}
