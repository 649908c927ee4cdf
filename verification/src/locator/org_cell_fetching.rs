//! Requests for the cell records of organizations over the synapse RPC:
//! their URL, body and HMAC signature. Sending them happens outside.

use crate::locator::control_plane::{hex_encode, hex_lower, hmac_sha256, hmac_sha256_bytes};
use crate::support::text::{concat_str, decimal, u64_to_decimal};
use vstd::prelude::*;

verus! {

/// The cell of an organization.
#[derive(Debug, PartialEq, Eq)]
pub struct CellRecord {
    pub org_id: u64,
    pub org_name: String,
    pub cell: String,
}

/// The records of an answer.
#[derive(Debug, PartialEq, Eq)]
pub struct CellRecords {
    pub records: Vec<CellRecord>,
}

/// Where and how to fetch cell records.
pub struct FetchConfig {
    pub base_url: String,
    pub shared_secret: String,
}

/// A request to send: URL, JSON body, and authorization header.
#[derive(Debug, PartialEq, Eq)]
pub struct RpcRequest {
    pub url: String,
    pub body: Vec<u8>,
    pub authorization: String,
}

/// The body of a request for the records changed since a time (in
/// seconds since the epoch), or for all of them.
pub open spec fn rpc_body(since: Option<u64>) -> Seq<char> {
    match since {
        None => "{\"args\":{}}"@,
        Some(t) => "{\"args\":{\"since\":"@ + decimal(t as nat) + "}}"@,
    }
}

/// The signature of a body: `rpc0:` and the hex HMAC-SHA256 of the body
/// under the shared secret.
pub open spec fn rpc_signature(secret: Seq<char>, body: Seq<u8>) -> Seq<char> {
    "rpc0:"@ + hex_lower(hmac_sha256(vstd::utf8::encode_utf8(secret), body))
}

impl FetchConfig {
    pub fn new(base_url: &str, shared_secret: &str) -> (c: Self)
        ensures
            c.base_url@ == base_url@,
            c.shared_secret@ == shared_secret@,
    {
        FetchConfig { base_url: base_url.to_owned(), shared_secret: shared_secret.to_owned() }
    }

    /// The signature the server expects for a body.
    pub fn generate_signature(&self, body: &[u8]) -> (s: String)
        ensures
            s@ == rpc_signature(self.shared_secret@, body@),
    {
        let tag = hmac_sha256_bytes(self.shared_secret.as_str().as_bytes(), body);
        let hex = hex_encode(&tag);
        concat_str("rpc0:", hex.as_str())
    }

    /// The request for all records (at startup), or for those changed
    /// since `since`.
    pub fn build_request(&self, since: Option<u64>) -> (r: RpcRequest)
        ensures
            r.url@ == self.base_url@ + "/api/0/synapse-rpc/get_cell_records"@,
            r.body@ == vstd::utf8::encode_utf8(rpc_body(since)),
            r.authorization@ == "rpcsignature "@ + rpc_signature(self.shared_secret@, r.body@),
    {
        let url = concat_str(self.base_url.as_str(), "/api/0/synapse-rpc/get_cell_records");
        let text = match since {
            None => "{\"args\":{}}".to_owned(),
            Some(t) => {
                let head = concat_str("{\"args\":{\"since\":", u64_to_decimal(t).as_str());
                concat_str(head.as_str(), "}}")
            },
        };
        let bytes = text.as_str().as_bytes();
        let mut body: Vec<u8> = Vec::new();
        let mut i: usize = 0;
        while i < bytes.len()
            invariant
                i <= bytes@.len(),
                body@ == bytes@.take(i as int),
            decreases bytes@.len() - i,
        {
            body.push(bytes[i]);
            assert(bytes@.take(i + 1) =~= bytes@.take(i as int).push(bytes@[i as int]));
            i = i + 1;
        }
        assert(bytes@.take(bytes@.len() as int) =~= bytes@);
        let signature = self.generate_signature(body.as_slice());
        let authorization = concat_str("rpcsignature ", signature.as_str());
        RpcRequest { url, body, authorization }
    }
}

} // verus!
