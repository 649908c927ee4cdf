use synapse::locator::api::{listen_address, lookup_response, ApiResponse, Params};
use synapse::locator::backup_routes::{
    backup_object_key, gcs_bucket_name, metadata_key, metadata_url, should_store, Codec,
    CodecCompression,
};
use synapse::locator::client::{lookup_query, lookup_result, ClientError};
use synapse::locator::config::{Compression, Listener, LocatorDataType};
use synapse::locator::control_plane::{
    ControlPlane, ControlPlaneData, ControlPlaneError, ControlPlaneMetadata, ControlPlaneRecord,
    MappingSync, SyncStep,
};
use synapse::locator::cursor::Cursor;
use synapse::locator::locator::LocatorError;
use synapse::locator::negative_cache::NegativeCache;
use synapse::locator::org_cell_fetching::FetchConfig;
use synapse::support::strmap::StrMap;
use base64::Engine;

fn is_lower_hex(s: &str) -> bool {
    s.chars().all(|c| c.is_ascii_hexdigit() && !c.is_ascii_uppercase())
}

#[test]
fn test_compute_hmac_signature() {
    let secret = "test_secret";
    let path = "/api/test";
    let body = b"";

    let signature = ControlPlane::compute_hmac_signature(secret, path, body);

    assert_eq!(signature.len(), 64);
    assert!(signature.chars().all(|c| c.is_ascii_hexdigit()));
}

#[test]
fn hmac_signature_depends_on_path_body_and_secret() {
    let a = ControlPlane::compute_hmac_signature("s", "/p", b"");
    assert_ne!(a, ControlPlane::compute_hmac_signature("s", "/q", b""));
    assert_ne!(a, ControlPlane::compute_hmac_signature("t", "/p", b""));
    assert_ne!(a, ControlPlane::compute_hmac_signature("s", "/p", b"x"));
    assert!(is_lower_hex(&a));
}

#[test]
fn control_plane_url_and_query() {
    let cp = ControlPlane::new(
        LocatorDataType::Organization,
        "http://127.0.0.1:9000/".to_string(),
        None,
        None,
    );
    assert_eq!(cp.full_url, "http://127.0.0.1:9000/api/0/internal/org-cell-mappings/");
    let cp = ControlPlane::new(
        LocatorDataType::ProjectKey,
        "http://cp//".to_string(),
        Some(vec!["de".to_string(), "us".to_string()]),
        None,
    );
    assert_eq!(cp.full_url, "http://cp/api/0/internal/projectkey-cell-mappings/");
    assert_eq!(
        cp.query_pairs(Some("c1")),
        vec![
            ("cursor".to_string(), "c1".to_string()),
            ("locality".to_string(), "de".to_string()),
            ("locality".to_string(), "us".to_string()),
        ]
    );
    assert_eq!(cp.authorization().unwrap(), None);
}

#[test]
fn control_plane_authorization_header() {
    let cp = ControlPlane::new(
        LocatorDataType::Organization,
        "http://cp".to_string(),
        None,
        Some("secret".to_string()),
    );
    let header = cp.authorization().unwrap().unwrap();
    let expected = ControlPlane::compute_hmac_signature(
        "secret",
        "/api/0/internal/org-cell-mappings/",
        b"",
    );
    assert_eq!(header, format!("Signature synapse0:{expected}"));

    let bad = ControlPlane::new(
        LocatorDataType::Organization,
        "not a url".to_string(),
        None,
        None,
    );
    assert!(matches!(bad.authorization(), Err(ControlPlaneError::InvalidUrl(_))));
}

fn page(rows: &[(&str, Option<&str>, &str)], cursor: &str, has_more: bool) -> ControlPlaneData {
    let mut cell_to_locality = StrMap::new();
    for (_, _, cell) in rows {
        cell_to_locality.insert(cell.to_string(), cell[..2].to_string());
    }
    ControlPlaneData {
        data: rows
            .iter()
            .map(|(id, slug, cell)| ControlPlaneRecord {
                id: id.to_string(),
                slug: slug.map(|s| s.to_string()),
                cell: cell.to_string(),
            })
            .collect(),
        metadata: ControlPlaneMetadata {
            cursor: cursor.to_string(),
            has_more,
            cell_to_locality,
        },
    }
}

#[test]
fn mapping_sync_retries_and_pages() {
    let mut sync = MappingSync::new(None);
    assert_eq!(sync.next_cursor(), None);
    assert_eq!(sync.on_status(503), SyncStep::Retry { delay_ms: 500 });
    assert_eq!(sync.on_status(429), SyncStep::Retry { delay_ms: 1000 });
    assert_eq!(sync.on_status(500), SyncStep::Retry { delay_ms: 2000 });
    assert_eq!(
        sync.on_status(502),
        SyncStep::Fail(ControlPlaneError::ControlPlaneRetriesExceeded)
    );
    assert_eq!(sync.on_status(200), SyncStep::Read);
    // The retry count starts over after a success.
    assert_eq!(sync.on_status(504), SyncStep::Retry { delay_ms: 500 });
    assert_eq!(sync.on_status(200), SyncStep::Read);
    assert!(sync.on_page(page(&[("1", Some("sentry1"), "us1")], "c1", true)));
    assert_eq!(sync.next_cursor(), Some("c1"));
    assert!(!sync.on_page(page(&[("2", None, "de1")], "c2", false)));
    let data = sync.finish().unwrap();
    assert_eq!(data.last_cursor, "c2");
    assert_eq!(data.id_to_cell.len(), 3);
    assert_eq!(data.id_to_cell.get("sentry1"), Some(&"us1".to_string()));
    assert_eq!(data.id_to_cell.get("2"), Some(&"de1".to_string()));
    assert_eq!(data.cells.get("de1").unwrap().locality, "de");
}

#[test]
fn mapping_sync_non_retriable_status_fails() {
    let mut sync = MappingSync::new(Some("c0"));
    assert_eq!(sync.next_cursor(), Some("c0"));
    assert_eq!(
        sync.on_status(404),
        SyncStep::Fail(ControlPlaneError::ControlPlaneRetriesExceeded)
    );
    let sync = MappingSync::new(None);
    assert!(matches!(sync.finish(), Err(ControlPlaneError::MissingCursor)));
}

#[test]
fn rpc_requests_and_signature() {
    let fetcher = FetchConfig::new("http://cp", "test-secret");
    let all = fetcher.build_request(None);
    assert_eq!(all.url, "http://cp/api/0/synapse-rpc/get_cell_records");
    assert_eq!(all.body, br#"{"args":{}}"#.to_vec());
    let sig = fetcher.generate_signature(&all.body);
    assert!(sig.starts_with("rpc0:"));
    assert_eq!(sig.len(), 5 + 64);
    assert_eq!(all.authorization, format!("rpcsignature {sig}"));
    let since = fetcher.build_request(Some(1640995200));
    assert_eq!(since.body, br#"{"args":{"since":1640995200}}"#.to_vec());
    assert_eq!(
        fetcher.build_request(Some(0)).body,
        br#"{"args":{"since":0}}"#.to_vec()
    );
}

#[test]
fn backup_store_decisions() {
    assert_eq!(CodecCompression::from(Compression::Uncompressed), CodecCompression::Uncompressed);
    assert_eq!(CodecCompression::from(Compression::Gzip), CodecCompression::Gzip);
    assert_eq!(CodecCompression::from(Compression::Zstd1), CodecCompression::Zstd(1));
    assert_eq!(CodecCompression::from(Compression::Zstd3), CodecCompression::Zstd(3));
    assert_eq!(gcs_bucket_name("routes"), "projects/_/buckets/routes");
    assert_eq!(metadata_key(), "last_cursor");
    assert_eq!(backup_object_key(), "backup-routes.bin");
    assert_eq!(
        metadata_url("https://storage.googleapis.com", "b", "backup-routes.bin"),
        "https://storage.googleapis.com/storage/v1/b/b/o/backup-routes.bin"
    );
    let old = Cursor {
        updated_at: 10,
        id: "9".to_string(),
    };
    let new = Cursor {
        updated_at: 10,
        id: "10".to_string(),
    };
    assert!(should_store(None, &new));
    assert!(should_store(Some(&old), &new));
    assert!(!should_store(Some(&new), &old));
    assert!(!should_store(Some(&new), &new));
}

#[test]
fn locator_api_answers() {
    let l = Listener {
        host: "127.0.0.1".to_string(),
        port: 3000,
    };
    assert_eq!(listen_address(&l), "127.0.0.1:3000");
    let (status, body) = lookup_response(Ok("us1".to_string()));
    assert_eq!(status, 200);
    assert_eq!(body, Ok(ApiResponse { cell: "us1".to_string() }));
    let (status, body) = lookup_response(Err(LocatorError::NotReady));
    assert_eq!(status, 503);
    assert_eq!(body.unwrap_err().error_message, "the locator is not ready yet");
    let (status, _) = lookup_response(Err(LocatorError::LocalityMismatch {
        requested: "de".to_string(),
        actual: "us".to_string(),
    }));
    assert_eq!(status, 404);
}

#[test]
fn locator_client_mapping() {
    assert_eq!(
        lookup_query("org", Some("de")),
        vec![
            ("id".to_string(), "org".to_string()),
            ("locality".to_string(), "de".to_string())
        ]
    );
    assert_eq!(lookup_query("org", None).len(), 1);
    assert_eq!(lookup_result(200, Some(Ok("us1".to_string()))).unwrap(), "us1");
    assert!(matches!(
        lookup_result(404, None),
        Err(ClientError::LocatorError(LocatorError::NoCell))
    ));
    assert!(matches!(
        lookup_result(503, None),
        Err(ClientError::LocatorError(LocatorError::NotReady))
    ));
    assert!(matches!(
        lookup_result(500, None),
        Err(ClientError::LocatorError(LocatorError::InternalError))
    ));
    assert!(matches!(
        lookup_result(200, Some(Err("bad json".to_string()))),
        Err(ClientError::ReqwestError(_))
    ));
}

#[test]
fn negative_cache_remembers_recent_misses() {
    let cache = NegativeCache::new();
    assert!(!cache.contains("org"));
    cache.insert("org");
    assert!(cache.contains("org"));
}

type RouteDataParts = (
    std::collections::HashMap<String, String>,
    String,
    std::collections::HashMap<String, (String, String)>,
);

fn route_data_parts() -> RouteDataParts {
    let mut cursor = serde_json::Map::new();
    cursor.insert("updated_at".to_string(), serde_json::Value::from(1757030409u64));
    cursor.insert("id".to_string(), serde_json::Value::Null);
    let cursor_json_str = serde_json::Value::Object(cursor).to_string();
    let last_cursor = base64::engine::general_purpose::STANDARD.encode(cursor_json_str.as_bytes());
    let mut id_to_cell = std::collections::HashMap::new();
    id_to_cell.insert("org1".to_string(), "cell1".to_string());
    let mut cells = std::collections::HashMap::new();
    cells.insert("cell1".to_string(), ("cell1".to_string(), "us".to_string()));
    (id_to_cell, last_cursor, cells)
}

#[test]
fn test_codec() {
    for compression in [
        CodecCompression::Uncompressed,
        CodecCompression::Zstd(1),
        CodecCompression::Zstd(3),
        CodecCompression::Gzip,
    ] {
        let codec = Codec::new(compression);
        let data = route_data_parts();
        let encoded = bincode::encode_to_vec(&data, bincode::config::standard()).unwrap();
        let (buffer, size) = codec.write(&encoded).unwrap();
        assert_eq!(size, 77);
        let read_back = codec.read(&buffer).unwrap();
        let (decoded, _): (RouteDataParts, usize) =
            bincode::decode_from_slice(&read_back, bincode::config::standard()).unwrap();
        assert_eq!(data, decoded);
    }
}

#[test]
fn codec_compresses_and_rejects_foreign_bytes() {
    let encoded: Vec<u8> = std::iter::repeat(b"route-data ".iter().copied()).take(50).flatten().collect();
    for compression in [CodecCompression::Zstd(3), CodecCompression::Gzip] {
        let codec = Codec::new(compression);
        let (stored, _) = codec.write(&encoded).unwrap();
        assert_ne!(stored, encoded);
        assert!(stored.len() < encoded.len());
        assert!(codec.read(b"not a compressed stream").is_err());
    }
    let plain = Codec::new(CodecCompression::Uncompressed);
    assert_eq!(plain.write(&encoded).unwrap().0, encoded);
    assert_eq!(plain.read(&encoded).unwrap(), encoded);
}

fn pair(k: &str, v: &str) -> (String, String) {
    (k.to_string(), v.to_string())
}

#[test]
fn api_reads_lookup_queries() {
    let p = Params::from_query(vec![pair("org_id", "42"), pair("locality", "de")]).unwrap();
    assert_eq!(p, Params { org_id: "42".to_string(), locality: Some("de".to_string()) });
    let p = Params::from_query(vec![pair("id", "42"), pair("other", "x")]).unwrap();
    assert_eq!(p, Params { org_id: "42".to_string(), locality: None });
    assert_eq!(Params::from_query(vec![pair("locality", "de")]), None);
    assert_eq!(Params::from_query(vec![pair("id", "1"), pair("org_id", "2")]), None);
    assert_eq!(
        Params::from_query(vec![pair("id", "1"), pair("locality", "a"), pair("locality", "b")]),
        None
    );
}

#[test]
fn client_and_api_agree_on_lookups() {
    // The client's query is read back as the lookup it was made for.
    let p = Params::from_query(lookup_query("org", Some("us"))).unwrap();
    assert_eq!(p, Params { org_id: "org".to_string(), locality: Some("us".to_string()) });
    let p = Params::from_query(lookup_query("org", None)).unwrap();
    assert_eq!(p.locality, None);
    // Each answer of the API comes back as the same result.
    let (status, body) = lookup_response(Ok("us1".to_string()));
    let cell = body.map(|b| b.cell).map_err(|e| e.error_message);
    assert_eq!(lookup_result(status, Some(cell)).unwrap(), "us1");
    let (status, _) = lookup_response(Err(LocatorError::NoCell));
    assert!(matches!(lookup_result(status, None), Err(ClientError::LocatorError(LocatorError::NoCell))));
    let (status, _) = lookup_response(Err(LocatorError::LocalityMismatch {
        requested: "de".to_string(),
        actual: "us".to_string(),
    }));
    assert!(matches!(lookup_result(status, None), Err(ClientError::LocatorError(LocatorError::NoCell))));
    let (status, _) = lookup_response(Err(LocatorError::NotReady));
    assert!(matches!(lookup_result(status, None), Err(ClientError::LocatorError(LocatorError::NotReady))));
    let (status, _) = lookup_response(Err(LocatorError::InternalError));
    assert!(matches!(
        lookup_result(status, None),
        Err(ClientError::LocatorError(LocatorError::InternalError))
    ));
}
