//! Synchronisation of route mappings from the control plane: the URL and
//! its signature, the retry policy, and how pages of records are folded
//! into route data. Requests are sent outside.

use crate::locator::config::LocatorDataType;
use crate::locator::types::RouteData;
use crate::support::strmap::StrMap;
use crate::support::text::{concat_str, trim_end_char, trim_end_matches_char};
use vstd::prelude::*;

verus! {

/// Retries of one page before giving up.
pub const MAX_RETRIES: u32 = 3;

/// One mapping record of the control plane.
#[derive(Debug, PartialEq, Eq)]
pub struct ControlPlaneRecord {
    pub id: String,
    /// Present for organizations, absent for project keys.
    pub slug: Option<String>,
    pub cell: String,
}

/// Paging information of a page.
#[derive(Debug, PartialEq, Eq)]
pub struct ControlPlaneMetadata {
    pub cursor: String,
    pub has_more: bool,
    pub cell_to_locality: StrMap<String>,
}

/// One page of the control plane's answer.
#[derive(Debug, PartialEq, Eq)]
pub struct ControlPlaneData {
    pub data: Vec<ControlPlaneRecord>,
    pub metadata: ControlPlaneMetadata,
}

/// Why route mappings could not be loaded.
#[derive(Debug, PartialEq, Eq)]
pub enum ControlPlaneError {
    /// The request or its answer failed; the text says how.
    ReqwestError(String),
    InvalidUrl(String),
    ControlPlaneRetriesExceeded,
    MissingCursor,
}

/// The path of the mappings endpoint for a kind of data.
pub open spec fn mappings_path(data_type: LocatorDataType) -> Seq<char> {
    match data_type {
        LocatorDataType::Organization => "api/0/internal/org-cell-mappings"@,
        LocatorDataType::ProjectKey => "api/0/internal/projectkey-cell-mappings"@,
    }
}

/// The URL of the mappings endpoint under a base URL.
pub open spec fn mappings_url(base_url: Seq<char>, data_type: LocatorDataType) -> Seq<char> {
    trim_end_char(base_url, '/') + "/"@ + mappings_path(data_type) + "/"@
}

/// The control plane client's settings.
pub struct ControlPlane {
    pub full_url: String,
    pub localities: Option<Vec<String>>,
    pub hmac_secret: Option<String>,
}

/// HMAC-SHA256 of a message under a key, as the `hmac` and `sha2` crates
/// compute it.
pub uninterp spec fn hmac_sha256(key: Seq<u8>, message: Seq<u8>) -> Seq<u8>;

/// Computes HMAC-SHA256 with `hmac::Hmac<sha2::Sha256>`; the tag has 32
/// bytes. The key may have any length.
#[verifier::external_body]
pub(crate) fn hmac_sha256_bytes(key: &[u8], message: &[u8]) -> (r: Vec<u8>)
    ensures
        r@ == hmac_sha256(key@, message@),
        r@.len() == 32,
{
    let mut mac = <hmac::Hmac<sha2::Sha256> as hmac::Mac>::new_from_slice(key).expect(
        "HMAC can take key of any size",
    );
    hmac::Mac::update(&mut mac, message);
    hmac::Mac::finalize(mac).into_bytes().to_vec()
}

/// The path of a URL as `url::Url` parses it, or the parse error's text.
pub uninterp spec fn url_path(url: Seq<char>) -> Result<Seq<char>, Seq<char>>;

/// Parses a URL with `url::Url` and returns its path, or the error text.
#[verifier::external_body]
fn parse_url_path(url: &str) -> (r: Result<String, String>)
    ensures
        match r {
            Ok(p) => url_path(url@) == Ok::<Seq<char>, Seq<char>>(p@),
            Err(e) => url_path(url@) == Err::<Seq<char>, Seq<char>>(e@),
        },
{
    match url::Url::parse(url) {
        Ok(u) => Ok(u.path().to_owned()),
        Err(e) => Err(e.to_string()),
    }
}

/// Lower-case hexadecimal digit of a value below 16.
pub open spec fn hex_digit(n: u8) -> char {
    if n < 10 {
        ((n + 48) as u8) as char
    } else {
        ((n + 87) as u8) as char
    }
}

/// Two lower-case hexadecimal digits per byte.
pub open spec fn hex_lower(bytes: Seq<u8>) -> Seq<char>
    decreases bytes.len(),
{
    if bytes.len() == 0 {
        Seq::empty()
    } else {
        hex_lower(bytes.drop_last()) + seq![hex_digit(bytes.last() / 16), hex_digit(bytes.last() % 16)]
    }
}

fn hex_digit_exec(n: u8) -> (c: char)
    requires
        n < 16,
    ensures
        c == hex_digit(n),
{
    if n < 10 {
        (n + 48) as char
    } else {
        (n + 87) as char
    }
}

/// Lower-case hexadecimal text of bytes.
pub fn hex_encode(bytes: &Vec<u8>) -> (s: String)
    ensures
        s@ == hex_lower(bytes@),
        s@.len() == 2 * bytes@.len(),
{
    let mut out: Vec<char> = Vec::new();
    let mut k: usize = 0;
    assert(bytes@.take(0) =~= Seq::<u8>::empty());
    while k < bytes.len()
        invariant
            k <= bytes@.len(),
            out@ == hex_lower(bytes@.take(k as int)),
            out@.len() == 2 * k,
        decreases bytes@.len() - k,
    {
        let b = bytes[k];
        out.push(hex_digit_exec(b / 16));
        out.push(hex_digit_exec(b % 16));
        assert(bytes@.take(k + 1).drop_last() =~= bytes@.take(k as int));
        assert(out@ =~= hex_lower(bytes@.take(k + 1)));
        k = k + 1;
    }
    assert(bytes@.take(bytes@.len() as int) =~= bytes@);
    crate::support::text::string_from_chars(&out)
}

/// The bytes of `path`, a colon, then `body`.
pub open spec fn signed_message(path: Seq<u8>, body: Seq<u8>) -> Seq<u8> {
    path + seq![58u8] + body
}

/// The signature of a request: the hex-encoded HMAC-SHA256 of
/// `path:body` under the secret, strings taken as UTF-8.
pub open spec fn signature_of(secret: Seq<char>, path: Seq<char>, body: Seq<u8>) -> Seq<char> {
    hex_lower(
        hmac_sha256(
            vstd::utf8::encode_utf8(secret),
            signed_message(vstd::utf8::encode_utf8(path), body),
        ),
    )
}

/// Position of a status among those that are retried.
pub open spec fn is_retriable(status: u16) -> bool {
    status == 429 || status == 500 || status == 502 || status == 503 || status == 504
}

/// Delay before retry number `r` (from 0), doubling from half a second.
pub open spec fn backoff_ms(r: nat) -> nat
    decreases r,
{
    if r == 0 {
        500
    } else {
        2 * backoff_ms((r - 1) as nat)
    }
}

impl ControlPlane {
    /// A client for the mappings of `data_type` under `base_url`.
    /// `hmac_secret` is the signing secret, when one is configured.
    pub fn new(
        data_type: LocatorDataType,
        base_url: String,
        localities: Option<Vec<String>>,
        hmac_secret: Option<String>,
    ) -> (c: Self)
        ensures
            c.full_url@ == mappings_url(base_url@, data_type),
            c.localities == localities,
            c.hmac_secret == hmac_secret,
    {
        let path = match data_type {
            LocatorDataType::Organization => "api/0/internal/org-cell-mappings",
            LocatorDataType::ProjectKey => "api/0/internal/projectkey-cell-mappings",
        };
        let base = trim_end_matches_char(base_url.as_str(), '/');
        let with_slash = concat_str(base.as_str(), "/");
        let with_path = concat_str(with_slash.as_str(), path);
        let full_url = concat_str(with_path.as_str(), "/");
        ControlPlane { full_url, localities, hmac_secret }
    }

    /// The hex-encoded HMAC-SHA256 signature of `path:body`.
    pub fn compute_hmac_signature(secret: &str, path: &str, body: &[u8]) -> (s: String)
        ensures
            s@ == signature_of(secret@, path@, body@),
            s@.len() == 64,
    {
        let p = path.as_bytes();
        let mut message: Vec<u8> = Vec::new();
        let mut i: usize = 0;
        while i < p.len()
            invariant
                i <= p@.len(),
                message@ == p@.take(i as int),
            decreases p@.len() - i,
        {
            message.push(p[i]);
            assert(p@.take(i + 1) =~= p@.take(i as int).push(p@[i as int]));
            i = i + 1;
        }
        assert(p@.take(p@.len() as int) =~= p@);
        message.push(58u8);
        let mut j: usize = 0;
        let ghost head = message@;
        while j < body.len()
            invariant
                j <= body@.len(),
                message@ == head + body@.take(j as int),
            decreases body@.len() - j,
        {
            message.push(body[j]);
            assert(body@.take(j + 1) =~= body@.take(j as int).push(body@[j as int]));
            j = j + 1;
        }
        assert(body@.take(body@.len() as int) =~= body@);
        assert(message@ =~= signed_message(vstd::utf8::encode_utf8(path@), body@));
        let tag = hmac_sha256_bytes(secret.as_bytes(), message.as_slice());
        hex_encode(&tag)
    }

    /// The query of a page request: the cursor when there is one, then
    /// each configured locality.
    pub fn query_pairs(&self, cursor: Option<&str>) -> (q: Vec<(String, String)>)
        ensures
            q@.map_values(|p: (String, String)| (p.0@, p.1@)) == (match cursor {
                Some(c) => seq![("cursor"@, c@)],
                None => Seq::empty(),
            }) + match self.localities {
                Some(ls) => ls@.map_values(|l: String| ("locality"@, l@)),
                None => Seq::empty(),
            },
    {
        let mut q: Vec<(String, String)> = Vec::new();
        match cursor {
            Some(c) => q.push(("cursor".to_owned(), c.to_owned())),
            None => {},
        }
        let ghost head = q@.map_values(|p: (String, String)| (p.0@, p.1@));
        match &self.localities {
            Some(ls) => {
                let mut i: usize = 0;
                while i < ls.len()
                    invariant
                        i <= ls@.len(),
                        q@.map_values(|p: (String, String)| (p.0@, p.1@)) == head + ls@.take(i as int).map_values(
                            |l: String| ("locality"@, l@),
                        ),
                    decreases ls@.len() - i,
                {
                    let ghost prev = q@.map_values(|p: (String, String)| (p.0@, p.1@));
                    let name = "locality".to_owned();
                    let value = ls[i].clone();
                    assert(name@ == "locality"@);
                    assert(value@ == ls@[i as int]@);
                    q.push((name, value));
                    assert(q@.map_values(|p: (String, String)| (p.0@, p.1@)) =~= prev.push(("locality"@, ls@[i as int]@)));
                    assert(ls@.take(i + 1) =~= ls@.take(i as int).push(ls@[i as int]));
                    assert(ls@.take(i + 1).map_values(|l: String| ("locality"@, l@)) =~= ls@.take(i as int).map_values(|l: String| ("locality"@, l@)).push(("locality"@, ls@[i as int]@)));
                    assert(q@.map_values(|p: (String, String)| (p.0@, p.1@)) =~= head + ls@.take(i + 1).map_values(
                        |l: String| ("locality"@, l@),
                    ));
                    i = i + 1;
                }
                assert(ls@.take(ls@.len() as int) =~= ls@);
            },
            None => {},
        }
        assert(q@.map_values(|p: (String, String)| (p.0@, p.1@)) =~= (match cursor {
            Some(c) => seq![("cursor"@, c@)],
            None => Seq::empty(),
        }) + match self.localities {
            Some(ls) => ls@.map_values(|l: String| ("locality"@, l@)),
            None => Seq::empty(),
        });
        q
    }

    /// The authorization header of a page request: `None` without a
    /// secret; otherwise `Signature synapse0:<signature>` over the URL's
    /// path and an empty body. An invalid URL is an error.
    pub fn authorization(&self) -> (r: Result<Option<String>, ControlPlaneError>)
        ensures
            match url_path(self.full_url@) {
                Err(e) => r matches Err(ControlPlaneError::InvalidUrl(m)) && m@ == e,
                Ok(path) => match self.hmac_secret {
                    None => r == Ok::<Option<String>, ControlPlaneError>(None),
                    Some(s) => r matches Ok(Some(h)) && h@ == "Signature synapse0:"@ + signature_of(s@, path, Seq::empty()),
                },
            },
    {
        let path = match parse_url_path(self.full_url.as_str()) {
            Ok(p) => p,
            Err(e) => return Err(ControlPlaneError::InvalidUrl(e)),
        };
        match &self.hmac_secret {
            None => Ok(None),
            Some(secret) => {
                let empty: Vec<u8> = Vec::new();
                let signature = ControlPlane::compute_hmac_signature(secret.as_str(), path.as_str(), empty.as_slice());
                let header = concat_str("Signature synapse0:", signature.as_str());
                assert(empty@ =~= Seq::<u8>::empty());
                Ok(Some(header))
            },
        }
    }
}

/// The id-to-cell map after a page's records: each record maps its id,
/// then its slug when it has one, to its cell.
pub open spec fn records_into(acc: Map<Seq<char>, String>, rows: Seq<ControlPlaneRecord>) -> Map<Seq<char>, String>
    decreases rows.len(),
{
    if rows.len() == 0 {
        acc
    } else {
        let m = records_into(acc, rows.drop_last());
        let r = rows.last();
        let m2 = m.insert(r.id@, r.cell);
        match r.slug {
            Some(s) => m2.insert(s@, r.cell),
            None => m2,
        }
    }
}

/// What to do after the status of a page request.
#[derive(Debug, PartialEq, Eq)]
pub enum SyncStep {
    /// Read the page.
    Read,
    /// Wait this long, then ask for the page again.
    Retry { delay_ms: u64 },
    /// Give up.
    Fail(ControlPlaneError),
}

/// The state of a synchronisation in progress.
pub struct MappingSync {
    cell_to_locality: StrMap<String>,
    org_to_cell: StrMap<String>,
    next_cursor: Option<String>,
    page_fetches: u64,
    retries: u32,
}

impl MappingSync {
    pub closed spec fn wf(&self) -> bool {
        self.cell_to_locality.wf() && self.org_to_cell.wf() && self.retries <= MAX_RETRIES
    }

    pub closed spec fn localities_view(&self) -> Map<Seq<char>, String> {
        self.cell_to_locality@
    }

    pub closed spec fn mapping_view(&self) -> Map<Seq<char>, String> {
        self.org_to_cell@
    }

    pub closed spec fn cursor_view(&self) -> Option<Seq<char>> {
        match self.next_cursor {
            Some(c) => Some(c@),
            None => None,
        }
    }

    pub closed spec fn retries_view(&self) -> nat {
        self.retries as nat
    }

    pub closed spec fn pages(&self) -> nat {
        self.page_fetches as nat
    }

    /// Starts a synchronisation from a cursor (incremental) or from
    /// nothing (a full snapshot).
    pub fn new(cursor: Option<&str>) -> (s: Self)
        ensures
            s.wf(),
            s.localities_view() == Map::<Seq<char>, String>::empty(),
            s.mapping_view() == Map::<Seq<char>, String>::empty(),
            s.cursor_view() == (match cursor {
                Some(c) => Some(c@),
                None => None,
            }),
            s.retries_view() == 0,
            s.pages() == 0,
    {
        MappingSync {
            cell_to_locality: StrMap::new(),
            org_to_cell: StrMap::new(),
            next_cursor: match cursor {
                Some(c) => Some(c.to_owned()),
                None => None,
            },
            page_fetches: 0,
            retries: 0,
        }
    }

    /// The cursor the next page is asked from.
    pub fn next_cursor(&self) -> (c: Option<&str>)
        ensures
            match c {
                Some(x) => self.cursor_view() == Some(x@),
                None => self.cursor_view() is None,
            },
    {
        match &self.next_cursor {
            Some(c) => Some(c.as_str()),
            None => None,
        }
    }

    /// The status of a page request decides: a success is read (and the
    /// retry count restarts); a retriable status is retried after
    /// `500 * 2^retries` ms up to three times; anything else fails.
    pub fn on_status(&mut self, status: u16) -> (step: SyncStep)
        requires
            old(self).wf(),
        ensures
            final(self).wf(),
            final(self).localities_view() == old(self).localities_view(),
            final(self).mapping_view() == old(self).mapping_view(),
            final(self).cursor_view() == old(self).cursor_view(),
            final(self).pages() == old(self).pages(),
            if 200 <= status <= 299 {
                step == SyncStep::Read && final(self).retries_view() == 0
            } else if is_retriable(status) && old(self).retries_view() < MAX_RETRIES {
                step == (SyncStep::Retry { delay_ms: backoff_ms(old(self).retries_view()) as u64 })
                    && final(self).retries_view() == old(self).retries_view() + 1
            } else {
                step == SyncStep::Fail(ControlPlaneError::ControlPlaneRetriesExceeded)
                    && final(self).retries_view() == old(self).retries_view()
            },
    {
        if 200 <= status && status <= 299 {
            self.retries = 0;
            SyncStep::Read
        } else if (status == 429 || status == 500 || status == 502 || status == 503 || status == 504)
            && self.retries < MAX_RETRIES {
            let delay: u64 = if self.retries == 0 {
                500
            } else if self.retries == 1 {
                1000
            } else {
                2000
            };
            proof {
                reveal_with_fuel(backoff_ms, 3);
            }
            self.retries = self.retries + 1;
            SyncStep::Retry { delay_ms: delay }
        } else {
            SyncStep::Fail(ControlPlaneError::ControlPlaneRetriesExceeded)
        }
    }

    /// Takes in a page: its localities, its records, and its cursor.
    /// Returns whether more pages follow.
    pub fn on_page(&mut self, page: ControlPlaneData) -> (more: bool)
        requires
            old(self).wf(),
            page.metadata.cell_to_locality.wf(),
        ensures
            final(self).wf(),
            more == page.metadata.has_more,
            final(self).localities_view() == old(self).localities_view().union_prefer_right(
                page.metadata.cell_to_locality@,
            ),
            final(self).mapping_view() == records_into(old(self).mapping_view(), page.data@),
            final(self).cursor_view() == Some(page.metadata.cursor@),
            final(self).retries_view() == old(self).retries_view(),
            final(self).pages() == (if old(self).pages() < u64::MAX {
                old(self).pages() + 1
            } else {
                old(self).pages()
            }),
    {
        let ControlPlaneData { data, metadata } = page;
        let ControlPlaneMetadata { cursor, has_more, cell_to_locality } = metadata;
        self.cell_to_locality.extend(cell_to_locality);
        let ghost rows = data@;
        let ghost start = self.org_to_cell@;
        let ghost loc = self.cell_to_locality;
        let total = data.len();
        let mut rest = data;
        let mut i: usize = 0;
        assert(rows.skip(0) =~= rows);
        assert(rows.take(0) =~= Seq::<ControlPlaneRecord>::empty());
        while rest.len() > 0
            invariant
                total == rows.len(),
                i <= total,
                rest@ == rows.skip(i as int),
                self.org_to_cell.wf(),
                self.org_to_cell@ == records_into(start, rows.take(i as int)),
                self.cell_to_locality == loc,
                self.retries == old(self).retries,
                self.page_fetches == old(self).page_fetches,
            decreases rest@.len(),
        {
            let row = rest.remove(0);
            proof {
                assert(rows.take(i + 1).drop_last() =~= rows.take(i as int));
                assert(rows.take(i + 1).last() == rows[i as int]);
                assert(rest@ =~= rows.skip(i + 1));
            }
            let ControlPlaneRecord { id, slug, cell } = row;
            match slug {
                Some(s) => {
                    self.org_to_cell.insert(id, cell.clone());
                    self.org_to_cell.insert(s, cell);
                },
                None => {
                    self.org_to_cell.insert(id, cell);
                },
            }
            i = i + 1;
        }
        assert(rows.take(i as int) =~= rows);
        self.page_fetches = self.page_fetches.saturating_add(1);
        self.next_cursor = Some(cursor);
        has_more
    }

    /// The route data loaded: the mapping, the last cursor, and each
    /// cell's locality; an error when no cursor is known.
    pub fn finish(self) -> (r: Result<RouteData, ControlPlaneError>)
        requires
            self.wf(),
        ensures
            match self.cursor_view() {
                None => r == Err::<RouteData, ControlPlaneError>(ControlPlaneError::MissingCursor),
                Some(c) => r matches Ok(d) && d.wf() && d.id_to_cell@ == self.mapping_view() && d.last_cursor@ == c
                    && d.cells@.dom() == self.localities_view().dom()
                    && forall|k: Seq<char>| #[trigger] d.cells@.contains_key(k) ==> d.cells@[k].id@ == k
                        && d.cells@[k].locality == self.localities_view()[k],
            },
    {
        let MappingSync { cell_to_locality, org_to_cell, next_cursor, page_fetches, retries } = self;
        match next_cursor {
            None => Err(ControlPlaneError::MissingCursor),
            Some(c) => Ok(RouteData::from(org_to_cell, c, cell_to_locality)),
        }
    }
}

/// The delay before a retry doubles each time, from half a second: 500,
/// 1000 and 2000 ms for the three retries of a page.
pub proof fn law_backoff_doubles(r: nat)
    ensures
        backoff_ms(r + 1) == 2 * backoff_ms(r),
        backoff_ms(0) == 500,
        backoff_ms(1) == 1000,
        backoff_ms(2) == 2000,
{
    reveal_with_fuel(backoff_ms, 3);
}

} // verus!
