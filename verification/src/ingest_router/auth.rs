//! Relay authentication: checking the relay id and signature of inbound
//! requests against the trusted relays, and signing rewritten bodies with
//! the router's own credentials. A signature value is
//! `base64url(signature).base64url(header_json)`, the signature covering
//! `header_json`, a zero byte, and the body. The JSON of the signature
//! header is read and written outside; times are in nanoseconds since the
//! Unix epoch.

use crate::support::strmap::StrMap;
use crate::support::text::{chars_of, concat_str, find_char, split_once, lemma_split_once, sub_string};
use vstd::prelude::*;

verus! {

/// How old a signature may be, in nanoseconds (five minutes).
pub const SIGNATURE_MAX_AGE_NANOS: i128 = 300_000_000_000;

/// URL-safe base64 without padding, as `base64`'s `URL_SAFE_NO_PAD`
/// decodes it.
pub uninterp spec fn base64_url_decoded(s: Seq<char>) -> Option<Seq<u8>>;

/// URL-safe base64 without padding, as `base64`'s `URL_SAFE_NO_PAD`
/// encodes it.
pub uninterp spec fn base64_url_encoded(b: Seq<u8>) -> Seq<char>;

/// Whether 32 bytes are a valid ed25519 public key for `ed25519_dalek`.
pub uninterp spec fn valid_verifying_key(b: Seq<u8>) -> bool;

/// Whether 64 bytes are a consistent ed25519 keypair for `ed25519_dalek`.
pub uninterp spec fn valid_keypair(b: Seq<u8>) -> bool;

/// Whether `ed25519_dalek` accepts a signature of a message under a key.
pub uninterp spec fn ed25519_verifies(key: Seq<u8>, message: Seq<u8>, signature: Seq<u8>) -> bool;

/// The ed25519 signature of a message under a 32-byte seed.
pub uninterp spec fn ed25519_signature(seed: Seq<u8>, message: Seq<u8>) -> Seq<u8>;

/// The ed25519 public key of a 32-byte seed.
pub uninterp spec fn ed25519_public_key(seed: Seq<u8>) -> Seq<u8>;

/// A character of URL-safe base64: a letter, a digit, `-` or `_`.
pub open spec fn url_safe_base64_char(c: char) -> bool {
    ('A' <= c && c <= 'Z') || ('a' <= c && c <= 'z') || ('0' <= c && c <= '9') || c == '-' || c == '_'
}

/// Decodes with `URL_SAFE_NO_PAD.decode`; `None` when the input is not
/// valid base64.
#[verifier::external_body]
fn decode_base64_url(s: &str) -> (r: Option<Vec<u8>>)
    ensures
        match r {
            Some(v) => base64_url_decoded(s@) == Some(v@),
            None => base64_url_decoded(s@) is None,
        },
{
    base64::Engine::decode(&base64::engine::general_purpose::URL_SAFE_NO_PAD, s).ok()
}

/// Encodes with `URL_SAFE_NO_PAD.encode`. Claimed, as the encoding is
/// defined: the text uses only the URL-safe alphabet (no padding), and
/// `URL_SAFE_NO_PAD.decode` gives the bytes back.
#[verifier::external_body]
fn encode_base64_url(b: &[u8]) -> (r: String)
    ensures
        r@ == base64_url_encoded(b@),
        base64_url_decoded(r@) == Some(b@),
        forall|i: int| 0 <= i < r@.len() ==> url_safe_base64_char(#[trigger] r@[i]),
{
    base64::Engine::encode(&base64::engine::general_purpose::URL_SAFE_NO_PAD, b)
}

/// Whether `VerifyingKey::from_bytes` accepts the 32 bytes.
#[verifier::external_body]
fn check_verifying_key(b: &[u8]) -> (ok: bool)
    requires
        b@.len() == 32,
    ensures
        ok == valid_verifying_key(b@),
{
    let a: [u8; 32] = b.try_into().unwrap();
    ed25519_dalek::VerifyingKey::from_bytes(&a).is_ok()
}

/// Whether `SigningKey::from_keypair_bytes` accepts the 64 bytes.
#[verifier::external_body]
fn check_keypair(b: &[u8]) -> (ok: bool)
    requires
        b@.len() == 64,
    ensures
        ok == valid_keypair(b@),
{
    let a: [u8; 64] = b.try_into().unwrap();
    ed25519_dalek::SigningKey::from_keypair_bytes(&a).is_ok()
}

/// Checks a signature with `VerifyingKey::verify` (the `Verifier` trait).
#[verifier::external_body]
fn verify_ed25519(key: &[u8], message: &[u8], signature: &[u8]) -> (ok: bool)
    requires
        key@.len() == 32,
        valid_verifying_key(key@),
        signature@.len() == 64,
    ensures
        ok == ed25519_verifies(key@, message@, signature@),
{
    let k: [u8; 32] = key.try_into().unwrap();
    let vk = ed25519_dalek::VerifyingKey::from_bytes(&k).unwrap();
    let s = ed25519_dalek::Signature::from_slice(signature).unwrap();
    ed25519_dalek::Verifier::verify(&vk, message, &s).is_ok()
}

/// Signs with `SigningKey::from_bytes(seed).sign` (the `Signer` trait).
/// Claimed, as ed25519 is defined: the signature has 64 bytes, and
/// `VerifyingKey::verify` accepts it under the seed's public key.
#[verifier::external_body]
fn sign_ed25519(seed: &[u8], message: &[u8]) -> (sig: Vec<u8>)
    requires
        seed@.len() == 32,
    ensures
        sig@ == ed25519_signature(seed@, message@),
        sig@.len() == 64,
        ed25519_verifies(ed25519_public_key(seed@), message@, sig@),
{
    let s: [u8; 32] = seed.try_into().unwrap();
    let key = ed25519_dalek::SigningKey::from_bytes(&s);
    ed25519_dalek::Signer::sign(&key, message).to_bytes().to_vec()
}

/// The public key of a seed: `SigningKey::from_bytes(seed).verifying_key()`
/// as bytes. Claimed: 32 bytes that `VerifyingKey::from_bytes` accepts.
#[verifier::external_body]
fn public_key_of_seed(seed: &[u8]) -> (r: Vec<u8>)
    requires
        seed@.len() == 32,
    ensures
        r@ == ed25519_public_key(seed@),
        r@.len() == 32,
        valid_verifying_key(r@),
{
    let s: [u8; 32] = seed.try_into().unwrap();
    ed25519_dalek::SigningKey::from_bytes(&s).verifying_key().to_bytes().to_vec()
}

/// 32 bytes from the operating system's source of randomness
/// (`getrandom::fill`); `None` when it fails.
#[verifier::external_body]
fn random_seed() -> (r: Option<Vec<u8>>)
    ensures
        r matches Some(v) ==> v@.len() == 32,
{
    let mut seed = [0u8; 32];
    match getrandom::fill(&mut seed) {
        Ok(()) => Some(seed.to_vec()),
        Err(_) => None,
    }
}

/// A lower-case hex digit or a hyphen.
pub open spec fn uuid_char(c: char) -> bool {
    ('0' <= c && c <= '9') || ('a' <= c && c <= 'f') || c == '-'
}

/// The hyphenated text of the version 4 UUID that `uuid` makes of 16
/// random bytes.
pub uninterp spec fn uuid_v4_text(random: Seq<u8>) -> Seq<char>;

/// `Builder::from_random_bytes(..).into_uuid()`, then `to_string`: the
/// version 4 UUID of 16 random bytes (only its version and variant bits
/// set), hyphenated: 36 lower-case hex digits and hyphens.
#[verifier::external_body]
fn uuid_from_random_bytes(random: &[u8]) -> (r: String)
    requires
        random@.len() == 16,
    ensures
        r@ == uuid_v4_text(random@),
        r@.len() == 36,
        forall|i: int| 0 <= i < r@.len() ==> uuid_char(#[trigger] r@[i]),
{
    let bytes: [u8; 16] = random.try_into().unwrap();
    uuid::Builder::from_random_bytes(bytes).into_uuid().to_string()
}

/// A relay id: the version 4 UUID of the first 16 of the given random
/// bytes.
pub fn relay_id_from_random(random: &[u8]) -> (r: String)
    requires
        random@.len() >= 16,
    ensures
        r@ == uuid_v4_text(random@.take(16)),
        r@.len() == 36,
        forall|i: int| 0 <= i < r@.len() ==> uuid_char(#[trigger] r@[i]),
{
    let mut bytes: Vec<u8> = Vec::new();
    let mut i: usize = 0;
    while i < 16
        invariant
            i <= 16,
            random@.len() >= 16,
            bytes@ == random@.take(i as int),
        decreases 16 - i,
    {
        bytes.push(random[i]);
        assert(random@.take(i + 1) =~= random@.take(i as int).push(random@[i as int]));
        i = i + 1;
    }
    uuid_from_random_bytes(bytes.as_slice())
}

/// A random relay id; `None` when the system gives no randomness.
fn new_relay_id() -> (r: Option<String>)
    ensures
        r matches Some(id) ==> id@.len() == 36 && (forall|i: int|
            0 <= i < id@.len() ==> uuid_char(#[trigger] id@[i])),
{
    match random_seed() {
        Some(random) => Some(relay_id_from_random(random.as_slice())),
        None => None,
    }
}

/// Why a relay's request was refused.
#[derive(Debug, PartialEq, Eq)]
pub enum VerifyError {
    InvalidPublicKey(String),
    MissingRelayId,
    MissingSignature,
    UntrustedRelay(String),
    BadSignature,
    Expired,
    UnsupportedAlgorithm(String),
}

/// Why the router's credentials could not be loaded.
#[derive(Debug)]
pub enum SigningError {
    Io(std::io::Error),
    /// The credentials file is not valid JSON; the text says why.
    Parse(String),
    BadKeyEncoding,
    BadKeyLength(usize),
}

/// A trusted downstream relay.
#[derive(Debug, PartialEq, Eq)]
pub struct RelayInfo {
    /// base64url (no padding) of the relay's 32-byte ed25519 public key.
    pub public_key: String,
}

/// The router's relay credentials.
#[derive(Debug, PartialEq, Eq)]
pub struct Credentials {
    pub secret_key: String,
    pub id: String,
}

/// The signature header of a request, as read from its JSON.
#[derive(Debug, PartialEq, Eq)]
pub struct SignatureHeader {
    /// When the payload was signed.
    pub timestamp: i128,
    /// The signature algorithm, when one is named.
    pub signature_algorithm: Option<String>,
}

/// Bytes allowed in an HTTP header value (`HeaderValue::from_str`).
pub open spec fn header_value_byte(b: u8) -> bool {
    (b >= 32 && b != 127) || b == 9
}

/// Whether text is a valid HTTP header value.
pub open spec fn valid_header_value(s: Seq<char>) -> bool {
    forall|i: int| 0 <= i < vstd::utf8::encode_utf8(s).len() ==> header_value_byte(#[trigger] vstd::utf8::encode_utf8(s)[i])
}

/// The public key of a trusted relay, or why it is invalid.
pub open spec fn parsed_public_key(key: Seq<char>) -> Option<Seq<u8>> {
    match base64_url_decoded(key) {
        Some(b) => if b.len() == 32 && valid_verifying_key(b) {
            Some(b)
        } else {
            None
        },
        None => None,
    }
}

/// The signing seed given by a decoded secret key: a consistent 64-byte
/// keypair gives its first half, a 32-byte seed is itself.
pub open spec fn seed_of(bytes: Seq<u8>) -> Result<Seq<u8>, SigningErrorKind> {
    if bytes.len() == 64 {
        if valid_keypair(bytes) {
            Ok(bytes.take(32))
        } else {
            Err(SigningErrorKind::BadKeyEncoding)
        }
    } else if bytes.len() == 32 {
        Ok(bytes)
    } else {
        Err(SigningErrorKind::BadKeyLength(bytes.len()))
    }
}

/// A signing error without the file errors.
pub enum SigningErrorKind {
    BadKeyEncoding,
    BadKeyLength(nat),
}

/// The message a signature covers.
pub open spec fn signed_message(header_json: Seq<u8>, body: Seq<u8>) -> Seq<u8> {
    header_json + seq![0u8] + body
}

fn message_bytes(header_json: &[u8], body: &[u8]) -> (m: Vec<u8>)
    ensures
        m@ == signed_message(header_json@, body@),
{
    let mut m: Vec<u8> = Vec::new();
    let mut i: usize = 0;
    while i < header_json.len()
        invariant
            i <= header_json@.len(),
            m@ == header_json@.take(i as int),
        decreases header_json@.len() - i,
    {
        m.push(header_json[i]);
        assert(header_json@.take(i + 1) =~= header_json@.take(i as int).push(header_json@[i as int]));
        i = i + 1;
    }
    assert(header_json@.take(header_json@.len() as int) =~= header_json@);
    m.push(0u8);
    let ghost head = m@;
    let mut j: usize = 0;
    while j < body.len()
        invariant
            j <= body@.len(),
            m@ == head + body@.take(j as int),
        decreases body@.len() - j,
    {
        m.push(body[j]);
        assert(body@.take(j + 1) =~= body@.take(j as int).push(body@[j as int]));
        j = j + 1;
    }
    assert(body@.take(body@.len() as int) =~= body@);
    assert(m@ =~= signed_message(header_json@, body@));
    m
}

/// Signs outgoing requests with the router's relay credentials.
pub struct RelaySigner {
    seed: Vec<u8>,
    relay_id: String,
}

impl RelaySigner {
    pub closed spec fn seed_view(&self) -> Seq<u8> {
        self.seed@
    }

    pub closed spec fn relay_id_view(&self) -> Seq<char> {
        self.relay_id@
    }

    pub closed spec fn wf(&self) -> bool {
        self.seed@.len() == 32
    }

    /// A signer for the credentials: the secret key is base64url of a
    /// 32-byte seed or a 64-byte keypair, and the id must be a valid
    /// header value.
    #[verifier::loop_isolation(false)]
    pub fn from_credentials(credentials: Credentials) -> (r: Result<Self, SigningError>)
        ensures
            match base64_url_decoded(credentials.secret_key@) {
                None => r matches Err(SigningError::BadKeyEncoding),
                Some(bytes) => match seed_of(bytes) {
                    Err(SigningErrorKind::BadKeyEncoding) => r matches Err(SigningError::BadKeyEncoding),
                    Err(SigningErrorKind::BadKeyLength(n)) => r matches Err(SigningError::BadKeyLength(m)) && m == n,
                    Ok(seed) => if valid_header_value(credentials.id@) {
                        r matches Ok(s) && s.wf() && s.seed_view() == seed && s.relay_id_view() == credentials.id@
                    } else {
                        r matches Err(SigningError::BadKeyEncoding)
                    },
                },
            },
            r matches Ok(s) ==> s.wf(),
    {
        let bytes = match decode_base64_url(credentials.secret_key.as_str()) {
            Some(b) => b,
            None => return Err(SigningError::BadKeyEncoding),
        };
        let seed: Vec<u8> = if bytes.len() == 64 {
            if !check_keypair(bytes.as_slice()) {
                return Err(SigningError::BadKeyEncoding);
            }
            let mut s: Vec<u8> = Vec::new();
            let mut i: usize = 0;
            while i < 32
                invariant
                    i <= 32,
                    bytes@.len() == 64,
                    s@ == bytes@.take(i as int),
                decreases 32 - i,
            {
                s.push(bytes[i]);
                assert(bytes@.take(i + 1) =~= bytes@.take(i as int).push(bytes@[i as int]));
                i = i + 1;
            }
            s
        } else if bytes.len() == 32 {
            bytes
        } else {
            return Err(SigningError::BadKeyLength(bytes.len()));
        };
        let id_bytes = credentials.id.as_str().as_bytes();
        let mut k: usize = 0;
        while k < id_bytes.len()
            invariant
                k <= id_bytes@.len(),
                id_bytes@ == vstd::utf8::encode_utf8(credentials.id@),
                forall|i: int| 0 <= i < k ==> header_value_byte(#[trigger] id_bytes@[i]),
            decreases id_bytes@.len() - k,
        {
            let b = id_bytes[k];
            if !((b >= 32 && b != 127) || b == 9) {
                return Err(SigningError::BadKeyEncoding);
            }
            k = k + 1;
        }
        Ok(RelaySigner { seed, relay_id: credentials.id })
    }

    /// The relay id sent with signed requests.
    pub fn relay_id(&self) -> (id: &str)
        ensures
            id@ == self.relay_id_view(),
    {
        self.relay_id.as_str()
    }

    /// The `X-Sentry-Relay-Signature` value for `body`, given the JSON of
    /// the signature header (which carries the signing time).
    ///
    /// What it writes, the first step of verification reads back for any
    /// verifier that trusts the signer's public key under the relay id,
    /// and the second step accepts whenever the header names no other
    /// algorithm than `v0` and was signed at most five minutes before.
    pub fn sign_body(&self, header_json: &[u8], body: &[u8]) -> (v: String)
        requires
            self.wf(),
        ensures
            v@ == base64_url_encoded(ed25519_signature(self.seed_view(), signed_message(header_json@, body@)))
                + "."@ + base64_url_encoded(header_json@),
            signature_parts(v@) == Some(
                (ed25519_signature(self.seed_view(), signed_message(header_json@, body@)), header_json@),
            ),
            forall|keys: Map<Seq<char>, Seq<u8>>, id: Seq<char>|
                keys.contains_key(id) && keys[id] == ed25519_public_key(self.seed_view())
                    ==> #[trigger] checked_parts(keys, Some(id), Some(v@)) == Some(
                    (
                        ed25519_public_key(self.seed_view()),
                        ed25519_signature(self.seed_view(), signed_message(header_json@, body@)),
                        header_json@,
                    ),
                ),
            forall|header: SignatureHeader, now: int|
                header_accepted(header, now) ==> #[trigger] verification_accepts(
                    ed25519_public_key(self.seed_view()),
                    ed25519_signature(self.seed_view(), signed_message(header_json@, body@)),
                    header_json@,
                    Some(header),
                    body@,
                    now,
                ),
    {
        let message = message_bytes(header_json, body);
        let signature = sign_ed25519(self.seed.as_slice(), message.as_slice());
        let sig_text = encode_base64_url(signature.as_slice());
        let with_dot = concat_str(sig_text.as_str(), ".");
        let header_text = encode_base64_url(header_json);
        let v = concat_str(with_dot.as_str(), header_text.as_str());
        proof {
            reveal_strlit(".");
            let a = sig_text@;
            assert(v@ == a + "."@ + header_text@);
            assert forall|k: int| 0 <= k < a.len() implies v@[k] != '.' by {
                assert(v@[k] == a[k]);
                assert(url_safe_base64_char(a[k]));
            }
            assert(v@[a.len() as int] == '.');
            lemma_split_once(v@, '.', a.len() as int);
            assert(v@.subrange(0, a.len() as int) =~= a);
            assert(v@.subrange(a.len() as int + 1, v@.len() as int) =~= header_text@);
        }
        v
    }
}

/// A new relay identity as a credentials file holds it: the seed and its
/// public key, both base64url without padding, and the relay id.
#[derive(Debug, PartialEq, Eq)]
pub struct GeneratedCredentials {
    pub secret_key: String,
    pub public_key: String,
    pub id: String,
}

/// The credentials of a 32-byte seed and a relay id. The secret key loads
/// back as that seed, and the public key is accepted as a trusted relay's
/// key and is the one the seed's signatures verify under.
pub fn credentials_from_seed(seed: &[u8], id: String) -> (c: GeneratedCredentials)
    requires
        seed@.len() == 32,
    ensures
        c.secret_key@ == base64_url_encoded(seed@),
        c.public_key@ == base64_url_encoded(ed25519_public_key(seed@)),
        c.id == id,
        base64_url_decoded(c.secret_key@) == Some(seed@),
        seed_of(seed@) == Ok::<Seq<u8>, SigningErrorKind>(seed@),
        parsed_public_key(c.public_key@) == Some(ed25519_public_key(seed@)),
{
    let public = public_key_of_seed(seed);
    let secret_key = encode_base64_url(seed);
    let public_key = encode_base64_url(public.as_slice());
    GeneratedCredentials { secret_key, public_key, id }
}

/// Fresh credentials: a random seed and a random version 4 UUID as the
/// relay id; `None` when the system gives no randomness.
pub fn generate_credentials() -> (r: Option<GeneratedCredentials>)
    ensures
        r matches Some(c) ==> exists|seed: Seq<u8>|
            #![trigger ed25519_public_key(seed)]
            seed.len() == 32 && base64_url_decoded(c.secret_key@) == Some(seed) && parsed_public_key(
                c.public_key@,
            ) == Some(ed25519_public_key(seed)),
        r matches Some(c) ==> c.id@.len() == 36 && forall|i: int|
            0 <= i < c.id@.len() ==> uuid_char(#[trigger] c.id@[i]),
{
    let seed = match random_seed() {
        Some(s) => s,
        None => return None,
    };
    let id = match new_relay_id() {
        Some(id) => id,
        None => return None,
    };
    let c = credentials_from_seed(seed.as_slice(), id);
    Some(c)
}

/// Whether a header carries relay authentication.
pub open spec fn relay_auth_header(name: Seq<char>) -> bool {
    name == "x-sentry-relay-id"@ || name == "x-sentry-relay-signature"@
}

/// The parts of a signature value, decoded: the signature bytes and the
/// header JSON, or `None` when the value is malformed.
pub open spec fn signature_parts(value: Seq<char>) -> Option<(Seq<u8>, Seq<u8>)> {
    match split_once(value, '.') {
        None => None,
        Some((s, h)) => match (base64_url_decoded(s), base64_url_decoded(h)) {
            (Some(sig), Some(json)) => if sig.len() == 64 {
                Some((sig, json))
            } else {
                None
            },
            _ => None,
        },
    }
}

/// The text of an optional header value.
pub open spec fn opt_text(s: Option<&str>) -> Option<Seq<char>> {
    match s {
        Some(x) => Some(x@),
        None => None,
    }
}

/// What the first step of verification finds for a relay id and a
/// signature value: the relay's trusted key, the signature and the header
/// JSON; `None` when it refuses the request.
pub open spec fn checked_parts(
    keys: Map<Seq<char>, Seq<u8>>,
    relay_id: Option<Seq<char>>,
    signature: Option<Seq<char>>,
) -> Option<(Seq<u8>, Seq<u8>, Seq<u8>)> {
    match (relay_id, signature) {
        (Some(id), Some(sig)) => if keys.contains_key(id) {
            match signature_parts(sig) {
                Some((s, h)) => Some((keys[id], s, h)),
                None => None,
            }
        } else {
            None
        },
        _ => None,
    }
}

/// A header that names no other algorithm than `v0` and whose time lies
/// within the five minutes before `now`.
pub open spec fn header_accepted(header: SignatureHeader, now: int) -> bool {
    &&& header.signature_algorithm matches Some(a) ==> a@ == "v0"@
    &&& 0 <= now - header.timestamp <= SIGNATURE_MAX_AGE_NANOS
}

/// Whether the second step of verification accepts: the header could be
/// read and is accepted, and the signature verifies over the header JSON, a
/// zero byte and the body.
pub open spec fn verification_accepts(
    key: Seq<u8>,
    signature: Seq<u8>,
    header_json: Seq<u8>,
    header: Option<SignatureHeader>,
    body: Seq<u8>,
    now: int,
) -> bool {
    match header {
        None => false,
        Some(h) => header_accepted(h, now) && ed25519_verifies(key, signed_message(header_json, body), signature),
    }
}

impl RelaySigner {
    /// The request's headers with any inbound relay authentication
    /// replaced by the router's relay id and a fresh signature over `body`.
    pub fn sign_request(&self, headers: Vec<(String, String)>, header_json: &[u8], body: &[u8]) -> (r: Vec<(String, String)>)
        requires
            self.wf(),
        ensures
            r@.len() >= 2,
            r@.drop_last().drop_last() == headers@.filter(|h: (String, String)| !relay_auth_header(h.0@)),
            r@[r@.len() - 2].0@ == "x-sentry-relay-id"@ && r@[r@.len() - 2].1@ == self.relay_id_view(),
            r@.last().0@ == "x-sentry-relay-signature"@ && r@.last().1@ == base64_url_encoded(
                ed25519_signature(self.seed_view(), signed_message(header_json@, body@)),
            ) + "."@ + base64_url_encoded(header_json@),
            forall|keys: Map<Seq<char>, Seq<u8>>|
                keys.contains_key(self.relay_id_view()) && keys[self.relay_id_view()] == ed25519_public_key(
                    self.seed_view(),
                ) ==> #[trigger] checked_parts(keys, Some(r@[r@.len() - 2].1@), Some(r@.last().1@))
                    == Some(
                    (
                        ed25519_public_key(self.seed_view()),
                        ed25519_signature(self.seed_view(), signed_message(header_json@, body@)),
                        header_json@,
                    ),
                ),
    {
        let ghost hs = headers@;
        let ghost pred = |h: (String, String)| !relay_auth_header(h.0@);
        let mut out: Vec<(String, String)> = Vec::new();
        let mut rest = headers;
        let total = rest.len();
        let mut i: usize = 0;
        proof {
            reveal(Seq::filter);
            assert(hs.take(0) =~= Seq::<(String, String)>::empty());
            assert(hs.skip(0) =~= hs);
        }
        while rest.len() > 0
            invariant
                total == hs.len(),
                i <= total,
                rest@ == hs.skip(i as int),
                pred == (|h: (String, String)| !relay_auth_header(h.0@)),
                out@ == hs.take(i as int).filter(pred),
            decreases rest@.len(),
        {
            let h = rest.remove(0);
            proof {
                broadcast use Seq::lemma_filter_push;
                assert(hs.take(i + 1) =~= hs.take(i as int).push(hs[i as int]));
                assert(rest@ =~= hs.skip(i + 1));
                assert(hs.take(i as int).push(h).filter(pred) == if pred(h) {
                    hs.take(i as int).filter(pred).push(h)
                } else {
                    hs.take(i as int).filter(pred)
                });
            }
            let n = h.0.as_str();
            if !(crate::support::text::str_eq(n, "x-sentry-relay-id") || crate::support::text::str_eq(n, "x-sentry-relay-signature")) {
                out.push(h);
            }
            i = i + 1;
        }
        assert(hs.take(i as int) =~= hs);
        let ghost filtered = out@;
        let value = self.sign_body(header_json, body);
        let ghost written = value@;
        out.push(("x-sentry-relay-id".to_owned(), self.relay_id.clone()));
        out.push(("x-sentry-relay-signature".to_owned(), value));
        assert(out@.drop_last().drop_last() =~= filtered);
        assert(out@.last().1@ == written);
        assert forall|keys: Map<Seq<char>, Seq<u8>>|
            keys.contains_key(self.relay_id_view()) && keys[self.relay_id_view()] == ed25519_public_key(
                self.seed_view(),
            ) implies #[trigger] checked_parts(keys, Some(out@[out@.len() - 2].1@), Some(out@.last().1@))
            == Some(
            (
                ed25519_public_key(self.seed_view()),
                ed25519_signature(self.seed_view(), signed_message(header_json@, body@)),
                header_json@,
            ),
        ) by {
            assert(checked_parts(keys, Some(self.relay_id_view()), Some(written)) == Some(
                (
                    ed25519_public_key(self.seed_view()),
                    ed25519_signature(self.seed_view(), signed_message(header_json@, body@)),
                    header_json@,
                ),
            ));
        }
        out
    }
}

impl Default for RelayVerifier {
    /// A verifier that trusts no relay.
    fn default() -> (v: Self)
        ensures
            v.wf(),
            v.keys() == Map::<Seq<char>, Seq<u8>>::empty(),
    {
        let v = RelayVerifier { trusted_relays: StrMap::new() };
        assert(v.keys() =~= Map::<Seq<char>, Seq<u8>>::empty());
        v
    }
}

/// What the first step of verifying a request found: the trusted key of
/// the relay, the signature and the header JSON to be read.
pub struct PendingVerification {
    key: Vec<u8>,
    signature: Vec<u8>,
    header_json: Vec<u8>,
}

impl PendingVerification {
    #[verifier::type_invariant]
    spec fn inv(&self) -> bool {
        self.key@.len() == 32 && valid_verifying_key(self.key@) && self.signature@.len() == 64
    }

    pub closed spec fn key_view(&self) -> Seq<u8> {
        self.key@
    }

    pub closed spec fn signature_view(&self) -> Seq<u8> {
        self.signature@
    }

    pub closed spec fn header_json_view(&self) -> Seq<u8> {
        self.header_json@
    }

    /// The header JSON, to be read outside.
    pub fn header_json(&self) -> (h: &[u8])
        ensures
            h@ == self.header_json_view(),
    {
        self.header_json.as_slice()
    }
}

/// Verifies inbound requests against the trusted relays.
pub struct RelayVerifier {
    trusted_relays: StrMap<Vec<u8>>,
}

impl RelayVerifier {
    pub closed spec fn wf(&self) -> bool {
        &&& self.trusted_relays.wf()
        &&& forall|k: Seq<char>| #[trigger] self.trusted_relays@.contains_key(k)
            ==> self.trusted_relays@[k]@.len() == 32 && valid_verifying_key(self.trusted_relays@[k]@)
    }

    /// The trusted keys by relay id.
    pub closed spec fn keys(&self) -> Map<Seq<char>, Seq<u8>> {
        self.trusted_relays@.map_values(|v: Vec<u8>| v@)
    }

    /// A verifier for the relays; an error names the first relay (in the
    /// given order) whose key is invalid.
    pub fn from_relays(relays: Vec<(String, RelayInfo)>) -> (r: Result<Self, VerifyError>)
        ensures
            match r {
                Ok(v) => v.wf() && (forall|i: int| 0 <= i < relays@.len() ==> parsed_public_key(#[trigger] relays@[i].1.public_key@) is Some)
                    && (forall|k: Seq<char>| #[trigger] v.keys().contains_key(k) <==> exists|i: int| 0 <= i < relays@.len() && relays@[i].0@ == k)
                    && forall|k: Seq<char>| #[trigger] v.keys().contains_key(k) ==> exists|i: int|
                        0 <= i < relays@.len() && relays@[i].0@ == k && parsed_public_key(relays@[i].1.public_key@)
                            == Some(v.keys()[k]),
                Err(e) => exists|i: int| 0 <= i < relays@.len() && parsed_public_key(#[trigger] relays@[i].1.public_key@) is None
                    && e == VerifyError::InvalidPublicKey(relays@[i].0)
                    && forall|j: int| 0 <= j < i ==> parsed_public_key(#[trigger] relays@[j].1.public_key@) is Some,
            },
    {
        let mut trusted: StrMap<Vec<u8>> = StrMap::new();
        let ghost rs = relays@;
        let mut i: usize = 0;
        while i < relays.len()
            invariant
                i <= rs.len(),
                rs == relays@,
                trusted.wf(),
                forall|k: Seq<char>| #[trigger] trusted@.contains_key(k)
                    ==> trusted@[k]@.len() == 32 && valid_verifying_key(trusted@[k]@),
                forall|j: int| 0 <= j < i ==> parsed_public_key(#[trigger] rs[j].1.public_key@) is Some,
                forall|k: Seq<char>| #[trigger] trusted@.contains_key(k) <==> exists|j: int| 0 <= j < i && rs[j].0@ == k,
                forall|k: Seq<char>| #[trigger] trusted@.contains_key(k) ==> exists|j: int|
                    0 <= j < i && rs[j].0@ == k && parsed_public_key(rs[j].1.public_key@) == Some(trusted@[k]@),
            decreases rs.len() - i,
        {
            let id = &relays[i].0;
            let key = match decode_base64_url(relays[i].1.public_key.as_str()) {
                Some(b) => b,
                None => return Err(VerifyError::InvalidPublicKey(id.clone())),
            };
            if key.len() != 32 || !check_verifying_key(key.as_slice()) {
                return Err(VerifyError::InvalidPublicKey(id.clone()));
            }
            let ghost before = trusted@;
            let ghost key_bytes = key@;
            assert(parsed_public_key(rs[i as int].1.public_key@) == Some(key_bytes));
            trusted.insert(id.clone(), key);
            proof {
                assert forall|k: Seq<char>| #[trigger] trusted@.contains_key(k) implies exists|j: int|
                    0 <= j < i + 1 && rs[j].0@ == k && parsed_public_key(rs[j].1.public_key@) == Some(trusted@[k]@) by {
                    if k == rs[i as int].0@ {
                        assert(trusted@[k]@ == key_bytes);
                        assert(0 <= i < i + 1 && rs[i as int].0@ == k);
                    } else {
                        assert(before.contains_key(k));
                        let j = choose|j: int| 0 <= j < i && rs[j].0@ == k && parsed_public_key(rs[j].1.public_key@) == Some(before[k]@);
                        assert(trusted@[k] == before[k]);
                        assert(0 <= j < i + 1);
                    }
                }
                assert forall|k: Seq<char>| #[trigger] trusted@.contains_key(k) <==> exists|j: int| 0 <= j < i + 1 && rs[j].0@ == k by {
                    if trusted@.contains_key(k) && k != rs[i as int].0@ {
                        assert(before.contains_key(k));
                    }
                    if exists|j: int| 0 <= j < i + 1 && rs[j].0@ == k {
                        let j = choose|j: int| 0 <= j < i + 1 && rs[j].0@ == k;
                        if j < i {
                            assert(before.contains_key(k));
                        }
                    }
                }
            }
            i = i + 1;
        }
        let v = RelayVerifier { trusted_relays: trusted };
        proof {
            assert forall|k: Seq<char>| #[trigger] v.keys().contains_key(k) <==> exists|j: int| 0 <= j < relays@.len() && relays@[j].0@ == k by {
                assert(v.keys().contains_key(k) == trusted@.contains_key(k));
            }
            assert forall|k: Seq<char>| #[trigger] v.keys().contains_key(k) implies exists|j: int|
                0 <= j < relays@.len() && relays@[j].0@ == k && parsed_public_key(relays@[j].1.public_key@)
                    == Some(v.keys()[k]) by {
                assert(trusted@.contains_key(k));
                assert(v.keys()[k] == trusted@[k]@);
            }
        }
        Ok(v)
    }

    /// First step of verifying a request, from its relay id and signature
    /// headers (`None` when missing or not text): the relay must be
    /// trusted and the signature value well formed.
    pub fn check_headers(&self, relay_id: Option<&str>, signature: Option<&str>) -> (r: Result<PendingVerification, VerifyError>)
        requires
            self.wf(),
        ensures
            match (relay_id, signature) {
                (None, _) => r == Err::<PendingVerification, VerifyError>(VerifyError::MissingRelayId),
                (Some(_), None) => r == Err::<PendingVerification, VerifyError>(VerifyError::MissingSignature),
                (Some(id), Some(sig)) => if !self.keys().contains_key(id@) {
                    r matches Err(VerifyError::UntrustedRelay(m)) && m@ == id@
                } else {
                    match signature_parts(sig@) {
                        None => r == Err::<PendingVerification, VerifyError>(VerifyError::BadSignature),
                        Some((s, h)) => r matches Ok(p) && p.key_view() == self.keys()[id@] && p.signature_view() == s && p.header_json_view() == h,
                    }
                },
            },
            match checked_parts(self.keys(), opt_text(relay_id), opt_text(signature)) {
                Some((k, s, h)) => r matches Ok(p) && p.key_view() == k && p.signature_view() == s
                    && p.header_json_view() == h,
                None => r is Err,
            },
    {
        let id = match relay_id {
            Some(x) => x,
            None => return Err(VerifyError::MissingRelayId),
        };
        let sig = match signature {
            Some(x) => x,
            None => return Err(VerifyError::MissingSignature),
        };
        let key = match self.trusted_relays.get(id) {
            Some(k) => k,
            None => return Err(VerifyError::UntrustedRelay(id.to_owned())),
        };
        let v = chars_of(sig);
        let n = v.len();
        let (sig_b64, header_b64) = match find_char(&v, '.') {
            Some(i) => {
                proof {
                    lemma_split_once(v@, '.', i as int);
                }
                (sub_string(&v, 0, i), sub_string(&v, i + 1, n))
            },
            None => {
                proof {
                    lemma_split_once(v@, '.', v@.len() as int);
                }
                return Err(VerifyError::BadSignature);
            },
        };
        let sig_bytes = match decode_base64_url(sig_b64.as_str()) {
            Some(b) => b,
            None => return Err(VerifyError::BadSignature),
        };
        if sig_bytes.len() != 64 {
            return Err(VerifyError::BadSignature);
        }
        let header_json = match decode_base64_url(header_b64.as_str()) {
            Some(b) => b,
            None => return Err(VerifyError::BadSignature),
        };
        let mut key_copy: Vec<u8> = Vec::new();
        let mut k: usize = 0;
        while k < key.len()
            invariant
                k <= key@.len(),
                key_copy@ == key@.take(k as int),
            decreases key@.len() - k,
        {
            key_copy.push(key[k]);
            assert(key@.take(k + 1) =~= key@.take(k as int).push(key@[k as int]));
            k = k + 1;
        }
        assert(key@.take(key@.len() as int) =~= key@);
        Ok(PendingVerification { key: key_copy, signature: sig_bytes, header_json })
    }

    /// Second step, once the header JSON has been read (`None` when it
    /// could not be, a timestamp being required): only the default
    /// algorithm `v0` is accepted, the signature must verify over the
    /// header, a zero byte and the body, and the signing time must lie
    /// within the last five minutes of `now`.
    pub fn finish_verification(
        &self,
        pending: &PendingVerification,
        header: Option<SignatureHeader>,
        body: &[u8],
        now: i128,
    ) -> (r: Result<(), VerifyError>)
        requires
            -0x10000000000000000000000000 <= now <= 0x10000000000000000000000000,
            header matches Some(h) ==> -0x10000000000000000000000000 <= h.timestamp <= 0x10000000000000000000000000,
        ensures
            match header {
                None => r == Err::<(), VerifyError>(VerifyError::BadSignature),
                Some(h) => match h.signature_algorithm {
                    Some(a) if a@ != "v0"@ => r matches Err(VerifyError::UnsupportedAlgorithm(m)) && m@ == a@,
                    _ => if !ed25519_verifies(pending.key_view(), signed_message(pending.header_json_view(), body@), pending.signature_view()) {
                        r == Err::<(), VerifyError>(VerifyError::BadSignature)
                    } else if now - h.timestamp < 0 || now - h.timestamp > SIGNATURE_MAX_AGE_NANOS {
                        r == Err::<(), VerifyError>(VerifyError::Expired)
                    } else {
                        r == Ok::<(), VerifyError>(())
                    },
                },
            },
            r is Ok <==> verification_accepts(
                pending.key_view(),
                pending.signature_view(),
                pending.header_json_view(),
                header,
                body@,
                now as int,
            ),
    {
        proof {
            use_type_invariant(pending);
        }
        let h = match header {
            Some(h) => h,
            None => return Err(VerifyError::BadSignature),
        };
        match &h.signature_algorithm {
            Some(a) => {
                if !crate::support::text::str_eq(a.as_str(), "v0") {
                    return Err(VerifyError::UnsupportedAlgorithm(a.clone()));
                }
            },
            None => {},
        }
        let message = message_bytes(pending.header_json.as_slice(), body);
        if !verify_ed25519(pending.key.as_slice(), message.as_slice(), pending.signature.as_slice()) {
            return Err(VerifyError::BadSignature);
        }
        let age = now - h.timestamp;
        if age < 0 || age > SIGNATURE_MAX_AGE_NANOS {
            return Err(VerifyError::Expired);
        }
        Ok(())
    }
}

/// Sign, then verify. A signature value as `RelaySigner::sign_body`
/// writes it (its parts: the seed's signature over the header JSON, a
/// zero byte and the body, and the header JSON), checked by a verifier
/// that trusts the seed's public key under the relay id, passes the first
/// step with that key, signature and header JSON; and the second step
/// accepts the same body whenever the header read from that JSON names
/// no other algorithm than `v0` and was signed at most five minutes
/// before. (That any other body is refused rests on ed25519 itself and
/// is not stated here.)
pub proof fn law_sign_then_verify(
    keys: Map<Seq<char>, Seq<u8>>,
    id: Seq<char>,
    seed: Seq<u8>,
    value: Seq<char>,
    header_json: Seq<u8>,
    body: Seq<u8>,
    header: SignatureHeader,
    now: int,
)
    requires
        keys.contains_key(id),
        keys[id] == ed25519_public_key(seed),
        signature_parts(value) == Some(
            (ed25519_signature(seed, signed_message(header_json, body)), header_json),
        ),
        ed25519_verifies(
            ed25519_public_key(seed),
            signed_message(header_json, body),
            ed25519_signature(seed, signed_message(header_json, body)),
        ),
        header_accepted(header, now),
    ensures
        checked_parts(keys, Some(id), Some(value)) == Some(
            (
                ed25519_public_key(seed),
                ed25519_signature(seed, signed_message(header_json, body)),
                header_json,
            ),
        ),
        verification_accepts(
            ed25519_public_key(seed),
            ed25519_signature(seed, signed_message(header_json, body)),
            header_json,
            Some(header),
            body,
            now,
        ),
{
}

} // verus!
