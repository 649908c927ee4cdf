use base64::engine::general_purpose::URL_SAFE_NO_PAD;
use base64::Engine;
use ed25519_dalek::{Signer, SigningKey, Verifier, VerifyingKey};
use synapse::ingest_router::auth::{
    credentials_from_seed, generate_credentials, relay_id_from_random, Credentials, RelayInfo, RelaySigner, RelayVerifier,
    SignatureHeader, SigningError, VerifyError,
};

const DOWNSTREAM_ID: &str = "00000000-0000-0000-0000-000000000000";
const MAX_AGE_SECS: i64 = 300;

fn test_credentials() -> (Credentials, VerifyingKey) {
    let signing_key = SigningKey::from_bytes(&[7u8; 32]);
    let verifying_key = signing_key.verifying_key();
    let credentials = Credentials {
        secret_key: URL_SAFE_NO_PAD.encode(signing_key.to_bytes()),
        id: DOWNSTREAM_ID.to_string(),
    };
    (credentials, verifying_key)
}

fn nanos(t: chrono::DateTime<chrono::Utc>) -> i128 {
    t.timestamp() as i128 * 1_000_000_000 + t.timestamp_subsec_nanos() as i128
}

fn header_json_at(t: chrono::DateTime<chrono::Utc>) -> Vec<u8> {
    format!("{{\"t\":\"{}\"}}", t.to_rfc3339()).into_bytes()
}

/// Reads a signature header's JSON as the service does.
fn parse_header(json: &[u8]) -> Option<SignatureHeader> {
    let v: serde_json::Value = serde_json::from_slice(json).ok()?;
    let t = v.get("t")?.as_str()?;
    let ts = chrono::DateTime::parse_from_rfc3339(t).ok()?.with_timezone(&chrono::Utc);
    let algorithm = v.get("a").and_then(|a| a.as_str()).map(|a| a.to_string());
    Some(SignatureHeader {
        timestamp: nanos(ts),
        signature_algorithm: algorithm,
    })
}

/// Both steps of verifying a request, with the current time.
fn verify_request(
    verifier: &RelayVerifier,
    relay_id: Option<&str>,
    signature: Option<&str>,
    body: &[u8],
) -> Result<(), VerifyError> {
    let pending = verifier.check_headers(relay_id, signature)?;
    let header = parse_header(pending.header_json());
    verifier.finish_verification(&pending, header, body, nanos(chrono::Utc::now()))
}

/// Reconstructs the signed message from a signature value and verifies it.
fn verify(verifying_key: &VerifyingKey, body: &[u8], value: &str) -> bool {
    let (sig_b64, header_b64) = value.split_once('.').expect("signature has header part");
    let sig_bytes = URL_SAFE_NO_PAD.decode(sig_b64).unwrap();
    let header_json = URL_SAFE_NO_PAD.decode(header_b64).unwrap();
    let mut message = header_json;
    message.push(0);
    message.extend_from_slice(body);
    let signature = ed25519_dalek::Signature::from_slice(&sig_bytes).unwrap();
    verifying_key.verify(&message, &signature).is_ok()
}

fn sign_now(signer: &RelaySigner, body: &[u8]) -> String {
    signer.sign_body(&header_json_at(chrono::Utc::now()), body)
}

fn signer_and_verifier() -> (RelaySigner, RelayVerifier) {
    let (credentials, verifying_key) = test_credentials();
    let signer = RelaySigner::from_credentials(credentials).unwrap();
    let verifier = RelayVerifier::from_relays(vec![(
        DOWNSTREAM_ID.to_string(),
        RelayInfo {
            public_key: URL_SAFE_NO_PAD.encode(verifying_key.to_bytes()),
        },
    )])
    .unwrap();
    (signer, verifier)
}

/// A real signature over caller-chosen header JSON.
fn sign_raw_header(header_json: &[u8], body: &[u8]) -> String {
    let key = SigningKey::from_bytes(&[7u8; 32]);
    let mut message = header_json.to_vec();
    message.push(0);
    message.extend_from_slice(body);
    let sig = key.sign(&message);
    format!(
        "{}.{}",
        URL_SAFE_NO_PAD.encode(sig.to_bytes()),
        URL_SAFE_NO_PAD.encode(header_json)
    )
}

#[test]
fn signs_and_verifies() {
    let (credentials, verifying_key) = test_credentials();
    let signer = RelaySigner::from_credentials(credentials).unwrap();

    let body = br#"{"publicKeys":["abc"]}"#;
    let value = sign_now(&signer, body);

    assert!(verify(&verifying_key, body, &value));
    assert!(!verify(&verifying_key, b"tampered", &value));
}

#[test]
fn sign_request_replaces_inbound_headers() {
    let (credentials, verifying_key) = test_credentials();
    let signer = RelaySigner::from_credentials(credentials).unwrap();

    let headers = vec![
        ("x-sentry-relay-id".to_string(), "inbound-relay".to_string()),
        ("x-sentry-relay-signature".to_string(), "stale-signature".to_string()),
        ("content-type".to_string(), "application/json".to_string()),
    ];

    let body = br#"{"publicKeys":["key1"]}"#;
    let headers = signer.sign_request(headers, &header_json_at(chrono::Utc::now()), body);

    let get = |name: &str| -> Vec<&String> {
        headers.iter().filter(|(n, _)| n == name).map(|(_, v)| v).collect()
    };
    assert_eq!(get("x-sentry-relay-id"), vec!["00000000-0000-0000-0000-000000000000"]);
    let values = get("x-sentry-relay-signature");
    assert_eq!(values.len(), 1);
    assert!(verify(&verifying_key, body, values[0]));
    assert_eq!(get("content-type"), vec!["application/json"]);
}

#[test]
fn accepts_64_byte_keypair_form() {
    let signing_key = SigningKey::from_bytes(&[3u8; 32]);
    let credentials = Credentials {
        secret_key: URL_SAFE_NO_PAD.encode(signing_key.to_keypair_bytes()),
        id: "11111111-1111-1111-1111-111111111111".to_string(),
    };

    let signer = RelaySigner::from_credentials(credentials).unwrap();
    let body = b"body";
    assert!(verify(&signing_key.verifying_key(), body, &sign_now(&signer, body)));
}

#[test]
fn rejects_bad_key_length() {
    let credentials = Credentials {
        secret_key: URL_SAFE_NO_PAD.encode([0u8; 16]),
        id: "id".to_string(),
    };
    assert!(matches!(
        RelaySigner::from_credentials(credentials),
        Err(SigningError::BadKeyLength(16))
    ));
}

#[test]
fn rejects_bad_key_encoding_and_relay_id() {
    let credentials = Credentials {
        secret_key: "not base64!".to_string(),
        id: "id".to_string(),
    };
    assert!(matches!(
        RelaySigner::from_credentials(credentials),
        Err(SigningError::BadKeyEncoding)
    ));

    let credentials = Credentials {
        secret_key: URL_SAFE_NO_PAD.encode([7u8; 32]),
        id: "bad\nid".to_string(),
    };
    assert!(matches!(
        RelaySigner::from_credentials(credentials),
        Err(SigningError::BadKeyEncoding)
    ));
}

#[test]
fn verifies_a_signed_request() {
    let (signer, verifier) = signer_and_verifier();
    let body = br#"{"publicKeys":["key1"]}"#;
    let value = sign_now(&signer, body);
    assert_eq!(
        verify_request(&verifier, Some(DOWNSTREAM_ID), Some(&value), body),
        Ok(())
    );
}

#[test]
fn rejects_tampered_body() {
    let (signer, verifier) = signer_and_verifier();
    let value = sign_now(&signer, br#"{"publicKeys":["key1"]}"#);
    assert_eq!(
        verify_request(&verifier, Some(DOWNSTREAM_ID), Some(&value), b"tampered"),
        Err(VerifyError::BadSignature)
    );
}

#[test]
fn rejects_untrusted_relay() {
    let (signer, _) = signer_and_verifier();
    let verifier = RelayVerifier::default();
    let body = b"body";
    let value = sign_now(&signer, body);
    assert_eq!(
        verify_request(&verifier, Some(DOWNSTREAM_ID), Some(&value), body),
        Err(VerifyError::UntrustedRelay(DOWNSTREAM_ID.to_string()))
    );
}

#[test]
fn rejects_missing_headers() {
    let (_, verifier) = signer_and_verifier();
    assert_eq!(
        verify_request(&verifier, None, None, b"body"),
        Err(VerifyError::MissingRelayId)
    );
    assert_eq!(
        verify_request(&verifier, Some(DOWNSTREAM_ID), None, b"body"),
        Err(VerifyError::MissingSignature)
    );
}

#[test]
fn rejects_malformed_signature_value() {
    let (_, verifier) = signer_and_verifier();
    assert_eq!(
        verify_request(&verifier, Some(DOWNSTREAM_ID), Some("no-dot-here"), b"body"),
        Err(VerifyError::BadSignature)
    );
    let short = format!("{}.{}", URL_SAFE_NO_PAD.encode([1u8; 10]), URL_SAFE_NO_PAD.encode(b"{}"));
    assert_eq!(
        verify_request(&verifier, Some(DOWNSTREAM_ID), Some(&short), b"body"),
        Err(VerifyError::BadSignature)
    );
}

#[test]
fn rejects_expired_signature() {
    let (_, verifier) = signer_and_verifier();
    let body = b"body";
    let stale = chrono::Utc::now() - chrono::Duration::seconds(MAX_AGE_SECS + 60);
    let value = sign_raw_header(&header_json_at(stale), body);
    assert_eq!(
        verify_request(&verifier, Some(DOWNSTREAM_ID), Some(&value), body),
        Err(VerifyError::Expired)
    );
}

#[test]
fn rejects_future_signature() {
    let (_, verifier) = signer_and_verifier();
    let body = b"body";
    let future = chrono::Utc::now() + chrono::Duration::seconds(60);
    let value = sign_raw_header(&header_json_at(future), body);
    assert_eq!(
        verify_request(&verifier, Some(DOWNSTREAM_ID), Some(&value), body),
        Err(VerifyError::Expired)
    );
}

#[test]
fn rejects_missing_timestamp() {
    let (_, verifier) = signer_and_verifier();
    let body = b"body";
    let value = sign_raw_header(b"{}", body);
    assert_eq!(
        verify_request(&verifier, Some(DOWNSTREAM_ID), Some(&value), body),
        Err(VerifyError::BadSignature)
    );
}

#[test]
fn rejects_unsupported_algorithm() {
    let (_, verifier) = signer_and_verifier();
    let body = b"body";
    let header_json = format!(
        "{{\"t\":\"{}\",\"a\":\"v1\"}}",
        chrono::Utc::now().to_rfc3339()
    )
    .into_bytes();
    let value = sign_raw_header(&header_json, body);
    assert_eq!(
        verify_request(&verifier, Some(DOWNSTREAM_ID), Some(&value), body),
        Err(VerifyError::UnsupportedAlgorithm("v1".to_string()))
    );
}

#[test]
fn freshness_window_edges() {
    let (_, verifier) = signer_and_verifier();
    let body = b"body";
    let t = chrono::Utc::now();
    let json = header_json_at(t);
    let value = sign_raw_header(&json, body);
    let pending = verifier.check_headers(Some(DOWNSTREAM_ID), Some(&value)).unwrap();
    let header = || parse_header(pending.header_json());
    let ts = nanos(t);
    // Exactly five minutes old is still accepted; a nanosecond more is not.
    assert_eq!(verifier.finish_verification(&pending, header(), body, ts + 300_000_000_000), Ok(()));
    assert_eq!(
        verifier.finish_verification(&pending, header(), body, ts + 300_000_000_001),
        Err(VerifyError::Expired)
    );
    assert_eq!(verifier.finish_verification(&pending, header(), body, ts), Ok(()));
    assert_eq!(
        verifier.finish_verification(&pending, header(), body, ts - 1),
        Err(VerifyError::Expired)
    );
}

#[test]
fn from_relays_rejects_bad_key() {
    let result = RelayVerifier::from_relays(vec![(
        "relay-x".to_string(),
        RelayInfo {
            public_key: "not-valid-base64-key!!".to_string(),
        },
    )]);
    assert_eq!(
        result.err(),
        Some(VerifyError::InvalidPublicKey("relay-x".to_string()))
    );
}

#[test]
fn generated_credentials_round_trip() {
    let generated = generate_credentials().unwrap();
    let id = generated.id.clone();
    assert!(uuid::Uuid::parse_str(&id).is_ok());
    let public_key = generated.public_key.clone();

    let signer = RelaySigner::from_credentials(Credentials {
        secret_key: generated.secret_key,
        id: generated.id,
    })
    .unwrap();
    let verifier = RelayVerifier::from_relays(vec![(id.clone(), RelayInfo { public_key })]).unwrap();

    let body = br#"{"publicKeys":["key1"]}"#;
    let value = sign_now(&signer, body);
    assert_eq!(verify_request(&verifier, Some(&id), Some(&value), body), Ok(()));
}

#[test]
fn credentials_from_a_seed() {
    let seed = [7u8; 32];
    let generated = credentials_from_seed(&seed, DOWNSTREAM_ID.to_string());
    let expected_public = SigningKey::from_bytes(&seed).verifying_key();
    assert_eq!(generated.secret_key, URL_SAFE_NO_PAD.encode(seed));
    assert_eq!(generated.public_key, URL_SAFE_NO_PAD.encode(expected_public.to_bytes()));
    assert_eq!(generated.id, DOWNSTREAM_ID);
    assert_ne!(generated.public_key, generated.secret_key);
    let other = generate_credentials().unwrap();
    assert_ne!(other.secret_key, generated.secret_key);
    assert_eq!(other.id.len(), 36);
}

#[test]
fn relay_id_is_the_uuid_of_the_first_random_bytes() {
    assert_eq!(relay_id_from_random(&[0u8; 32]), "00000000-0000-4000-8000-000000000000");
    let bytes: Vec<u8> = (0u8..20).collect();
    assert_eq!(relay_id_from_random(&bytes), "00010203-0405-4607-8809-0a0b0c0d0e0f");
}
