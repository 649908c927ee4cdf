use synapse::ingest_router::routing::{CellConfig, CellRegistry, RoutingTable, UpstreamTarget};
use synapse::support::strmap::StrMap;
use url::Url;

fn cell(sentry: &str, relay: &str) -> CellConfig {
    CellConfig {
        sentry_url: Url::parse(sentry).unwrap(),
        relay_url: Url::parse(relay).unwrap(),
    }
}

#[test]
fn test_routing_table_creation() {
    let mut locales = StrMap::new();
    let mut us = StrMap::new();
    us.insert(
        "us1".to_string(),
        cell("http://us1-sentry.example.com", "http://us1-relay.example.com"),
    );
    us.insert(
        "us2".to_string(),
        cell("http://us2-sentry.example.com", "http://us2-relay.example.com"),
    );
    locales.insert("us".to_string(), us);
    let mut de = StrMap::new();
    de.insert(
        "de".to_string(),
        cell("http://de-sentry.example.com", "http://de-relay.example.com"),
    );
    locales.insert("de".to_string(), de);

    let routing_table = RoutingTable::new(locales);

    // Verify US locale has 2 cells
    let us_registry = routing_table.get_cell_registry("us").unwrap();
    assert_eq!(us_registry.cells().len(), 2);
    assert!(us_registry.get("us1").is_some());
    assert!(us_registry.get("us2").is_some());

    // Verify DE locale has 1 cell
    let de_registry = routing_table.get_cell_registry("de").unwrap();
    assert_eq!(de_registry.cells().len(), 1);
    assert!(de_registry.get("de").is_some());

    // Verify unknown locale returns None
    assert!(routing_table.get_cell_registry("unknown").is_none());
}

#[test]
fn test_routing_table_with_all_cells() {
    let mut locales = StrMap::new();
    let mut us = StrMap::new();
    us.insert(
        "us1".to_string(),
        cell("http://us1-sentry.example.com", "http://us1-relay.example.com"),
    );
    locales.insert("us".to_string(), us);

    let routing_table = RoutingTable::new(locales);

    let us_registry = routing_table.get_cell_registry("us").unwrap();
    assert_eq!(us_registry.cells().len(), 1);
    assert!(us_registry.get("us1").is_some());
}

#[test]
fn test_cell_registry_get() {
    let mut cells = StrMap::new();
    cells.insert(
        "test-cell".to_string(),
        cell("http://sentry.example.com", "http://relay.example.com"),
    );

    let registry = CellRegistry::from_cells(cells);

    let target = registry.get("test-cell").unwrap();
    assert_eq!(target.name, "test-cell");
    assert_eq!(target.sentry_url.as_str(), "http://sentry.example.com/");
    assert_eq!(target.relay_url.as_str(), "http://relay.example.com/");

    assert!(registry.get("nonexistent").is_none());
}

#[test]
fn test_upstream_target_urls() {
    let target = UpstreamTarget {
        name: "test".to_string(),
        sentry_url: Url::parse("http://sentry.example.com:8080").unwrap(),
        relay_url: Url::parse("http://relay.example.com:8090").unwrap(),
    };

    assert_eq!(target.sentry_url.host_str(), Some("sentry.example.com"));
    assert_eq!(target.sentry_url.port(), Some(8080));
    assert_eq!(target.relay_url.host_str(), Some("relay.example.com"));
    assert_eq!(target.relay_url.port(), Some(8090));
}
