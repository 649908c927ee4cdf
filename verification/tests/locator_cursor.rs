use base64::Engine;
use synapse::locator::cursor::{Cursor, CursorError};

#[test]
fn test_cursor_comparison() {
    let cursor1 = Cursor {
        updated_at: 1000,
        id: "b".to_string(),
    };
    let cursor2 = Cursor {
        updated_at: 2000,
        id: "a".to_string(),
    };

    // Ordering is by updated_at first
    assert!(cursor1 < cursor2);

    // Same timestamp, id is tiebreaker
    let cursor1 = Cursor {
        updated_at: 1000,
        id: "1".to_string(),
    };
    let cursor2 = Cursor {
        updated_at: 1000,
        id: "a".to_string(),
    };

    assert!(cursor1 < cursor2);

    // Numeric IDs: "10" must sort after "9"
    let cursor1 = Cursor {
        updated_at: 1000,
        id: "9".to_string(),
    };
    let cursor2 = Cursor {
        updated_at: 1000,
        id: "10".to_string(),
    };

    assert!(cursor1 < cursor2);
}

#[test]
fn test_invalid_base64() {
    let result = Cursor::decode_text("invalid");
    assert!(matches!(result, Err(CursorError::Base64(_))));
}

#[test]
fn cursor_text_decodes_to_json() {
    // base64 of {"updated_at":1757030409,"id":"a"}
    let bytes = Cursor::decode_text("eyJ1cGRhdGVkX2F0IjoxNzU3MDMwNDA5LCJpZCI6ImEifQ==").unwrap();
    assert_eq!(bytes, br#"{"updated_at":1757030409,"id":"a"}"#.to_vec());
}

#[test]
fn test_cursor_parse() {
    let mut cursor_data = serde_json::Map::new();
    cursor_data.insert("updated_at".to_string(), serde_json::Value::from(1757030409u64));
    cursor_data.insert("id".to_string(), serde_json::Value::from("a"));
    let json_str = serde_json::Value::Object(cursor_data).to_string();
    let encoded = base64::engine::general_purpose::STANDARD.encode(json_str.as_bytes());

    let json = Cursor::decode_text(&encoded).unwrap();
    let parsed: serde_json::Value = serde_json::from_slice(&json).unwrap();
    let cursor = Cursor {
        updated_at: parsed["updated_at"].as_u64().unwrap(),
        id: parsed["id"].as_str().unwrap().to_string(),
    };
    assert_eq!(cursor.updated_at, 1757030409);
    assert_eq!(cursor.id, "a");
}
