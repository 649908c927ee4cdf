use synapse::proxy::config::{Action, Match, Route as RouteConfig};
use synapse::proxy::route_actions::{Route, RouteActions, RouteMatch};
use synapse::support::strmap::StrMap;

fn static_route(host: Option<&str>, path: Option<&str>) -> RouteConfig {
    RouteConfig {
        route_match: Match {
            host: host.map(|h| h.to_string()),
            path: path.map(|p| p.to_string()),
        },
        action: Action::Static {
            to: "upstream".to_string(),
        },
    }
}

#[test]
fn test_host_only() {
    let config = static_route(Some("sentry.io"), None);
    let route = Route::try_from(config).unwrap();
    assert!(route.matches(Some("sentry.io"), "/").is_some());
    assert!(route.matches(Some("other.com"), "/").is_none());
    assert!(route.matches(None, "/").is_none());
}

#[test]
fn test_static_path() {
    let config = static_route(None, Some("/api/test/"));
    let route = Route::try_from(config).unwrap();
    assert!(route.matches(None, "/api/test").is_some(), "exact path");
    assert!(
        route.matches(None, "/api/test/").is_some(),
        "with trailing slash normalization"
    );
    assert!(
        route.matches(None, "/api/test/2").is_none(),
        "extra segment doesn't match"
    );
    assert!(
        route.matches(None, "/api/").is_none(),
        "missing segment doesn't match"
    );
}

#[test]
fn test_trailing_splat() {
    let config = static_route(None, Some("/api/test/*"));
    let route = Route::try_from(config).unwrap();
    assert!(route.matches(None, "/api/test").is_some(), "exact path");
    assert!(
        route.matches(None, "/api/test/extra").is_some(),
        "extra segment is allowed"
    );
    assert!(route.matches(None, "/api/").is_none(), "missing segment");
}

#[test]
fn test_illegal_splat_patterns() {
    let config = static_route(None, Some("/api/*/test"));
    assert!(
        Route::try_from(config).is_err(),
        "splat in the middle should be rejected"
    );

    let config = static_route(None, Some("/api/*/*"));
    assert!(
        Route::try_from(config).is_err(),
        "multiple splats should be rejected"
    );

    let config = static_route(None, Some("/api/test*/more"));
    assert!(
        Route::try_from(config).is_err(),
        "splat mixed with text should be rejected"
    );

    let config = static_route(None, Some("/api/**"));
    assert!(
        Route::try_from(config).is_err(),
        "double splat should be rejected"
    );

    let config = static_route(None, Some("/api/{*splat}"));
    assert!(
        Route::try_from(config).is_err(),
        "splat with parameter syntax should be rejected"
    );
}

#[test]
fn test_dynamic_path() {
    let config = static_route(None, Some("/api/users/{user_id}"));
    let route = Route::try_from(config.clone()).unwrap();
    let mut params = StrMap::new();
    params.insert("user_id".to_string(), "123".to_string());
    assert_eq!(
        route.matches(None, "/api/users/123"),
        Some(RouteMatch {
            params,
            action: config.action.clone(),
        })
    );
}
