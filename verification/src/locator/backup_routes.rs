//! The backup copy of the route data: how it is compressed, where it is
//! kept in cloud storage, and when a new copy replaces the stored one.
//! Turning route data into bytes and storing them happen outside.

use crate::locator::config::Compression;
use crate::locator::cursor::{cursor_order, Cursor};
use crate::support::order::Comparison;
use crate::support::text::concat_str;
use vstd::prelude::*;

verus! {

/// How the encoded route data is compressed.
#[derive(Debug, PartialEq, Eq, Clone, Copy)]
pub enum CodecCompression {
    Uncompressed,
    Gzip,
    /// zstd at this level.
    Zstd(i32),
}

impl CodecCompression {
    /// The codec setting of a configured compression.
    pub fn from(value: Compression) -> (c: Self)
        ensures
            c == match value {
                Compression::Uncompressed => CodecCompression::Uncompressed,
                Compression::Gzip => CodecCompression::Gzip,
                Compression::Zstd1 => CodecCompression::Zstd(1),
                Compression::Zstd3 => CodecCompression::Zstd(3),
            },
    {
        match value {
            Compression::Uncompressed => CodecCompression::Uncompressed,
            Compression::Gzip => CodecCompression::Gzip,
            Compression::Zstd1 => CodecCompression::Zstd(1),
            Compression::Zstd3 => CodecCompression::Zstd(3),
        }
    }
}

/// What `zstd::stream::encode_all` makes of some bytes at a level.
pub uninterp spec fn zstd_encoded(data: Seq<u8>, level: i32) -> Seq<u8>;

/// What `zstd::stream::decode_all` makes of some bytes: `None` where it
/// reports an error.
pub uninterp spec fn zstd_decoded(data: Seq<u8>) -> Option<Seq<u8>>;

/// The gzip stream that `flate2::write::GzEncoder` writes for some bytes at
/// the default level.
pub uninterp spec fn gzip_encoded(data: Seq<u8>) -> Seq<u8>;

/// What `flate2::read::GzDecoder` reads from some bytes: `None` where it
/// reports an error.
pub uninterp spec fn gzip_decoded(data: Seq<u8>) -> Option<Seq<u8>>;

/// `zstd::stream::encode_all` on a byte slice. Claimed: what it gives back
/// is a function of the bytes and the level. When it fails is not said.
#[verifier::external_body]
fn zstd_encode(data: &[u8], level: i32) -> (r: Result<Vec<u8>, std::io::Error>)
    ensures
        r is Ok ==> r->Ok_0@ == zstd_encoded(data@, level),
{
    zstd::stream::encode_all(data, level)
}

/// `zstd::stream::decode_all` on a byte slice. Claimed: the outcome is a
/// function of the bytes, and zstd is lossless: what `encode_all` made of
/// some bytes decodes to those bytes.
#[verifier::external_body]
fn zstd_decode(data: &[u8]) -> (r: Result<Vec<u8>, std::io::Error>)
    ensures
        r is Ok ==> zstd_decoded(data@) == Some(r->Ok_0@),
        r is Err ==> zstd_decoded(data@) is None,
        forall|d: Seq<u8>, l: i32|
            data@ == #[trigger] zstd_encoded(d, l) ==> r is Ok && r->Ok_0@ == d,
{
    zstd::stream::decode_all(data)
}

/// `flate2::write::GzEncoder` at the default level, over an in-memory
/// buffer. Claimed: the stream is a function of the bytes (the header
/// carries no time and a fixed system byte). When it fails is not said.
#[verifier::external_body]
fn gzip_encode(data: &[u8]) -> (r: Result<Vec<u8>, std::io::Error>)
    ensures
        r is Ok ==> r->Ok_0@ == gzip_encoded(data@),
{
    let mut encoder = flate2::write::GzEncoder::new(Vec::new(), flate2::Compression::default());
    std::io::Write::write_all(&mut encoder, data)?;
    encoder.finish()
}

/// `flate2::read::GzDecoder` read to its end. Claimed: the outcome is a
/// function of the bytes, and gzip is lossless: a stream that `GzEncoder`
/// wrote for some bytes reads back as those bytes.
#[verifier::external_body]
fn gzip_decode(data: &[u8]) -> (r: Result<Vec<u8>, std::io::Error>)
    ensures
        r is Ok ==> gzip_decoded(data@) == Some(r->Ok_0@),
        r is Err ==> gzip_decoded(data@) is None,
        forall|d: Seq<u8>| data@ == #[trigger] gzip_encoded(d) ==> r is Ok && r->Ok_0@ == d,
{
    let mut out: Vec<u8> = Vec::new();
    std::io::Read::read_to_end(&mut flate2::read::GzDecoder::new(data), &mut out)?;
    Ok(out)
}

/// The bytes stored for encoded route data.
pub open spec fn stored_form(compression: CodecCompression, encoded: Seq<u8>) -> Seq<u8> {
    match compression {
        CodecCompression::Uncompressed => encoded,
        CodecCompression::Gzip => gzip_encoded(encoded),
        CodecCompression::Zstd(level) => zstd_encoded(encoded, level),
    }
}

/// What reading stored bytes gives back: `None` where they cannot be read.
pub open spec fn read_form(compression: CodecCompression, stored: Seq<u8>) -> Option<Seq<u8>> {
    match compression {
        CodecCompression::Uncompressed => Some(stored),
        CodecCompression::Gzip => gzip_decoded(stored),
        CodecCompression::Zstd(_) => zstd_decoded(stored),
    }
}

/// Compresses encoded route data for storage and back.
#[derive(Debug, Clone, Copy)]
pub struct Codec {
    pub compression: CodecCompression,
}

impl Codec {
    pub fn new(compression: CodecCompression) -> (c: Self)
        ensures
            c.compression == compression,
    {
        Codec { compression }
    }

    /// The bytes to store for encoded route data, with the length of the
    /// encoded data.
    pub fn write(&self, encoded: &[u8]) -> (r: Result<(Vec<u8>, usize), std::io::Error>)
        ensures
            self.compression is Uncompressed ==> r is Ok,
            r matches Ok((s, n)) ==> s@ == stored_form(self.compression, encoded@) && n
                == encoded@.len(),
    {
        let stored = match self.compression {
            CodecCompression::Uncompressed => vstd::slice::slice_to_vec(encoded),
            CodecCompression::Gzip => match gzip_encode(encoded) {
                Ok(v) => v,
                Err(e) => {
                    return Err(e);
                },
            },
            CodecCompression::Zstd(level) => match zstd_encode(encoded, level) {
                Ok(v) => v,
                Err(e) => {
                    return Err(e);
                },
            },
        };
        Ok((stored, encoded.len()))
    }

    /// The encoded route data in stored bytes. What `write` stored reads
    /// back as what was written.
    pub fn read(&self, stored: &[u8]) -> (r: Result<Vec<u8>, std::io::Error>)
        ensures
            match r {
                Ok(v) => read_form(self.compression, stored@) == Some(v@),
                Err(_) => read_form(self.compression, stored@) is None,
            },
            forall|e: Seq<u8>|
                stored@ == #[trigger] stored_form(self.compression, e) ==> (r matches Ok(v) && v@
                    == e),
    {
        match self.compression {
            CodecCompression::Uncompressed => Ok(vstd::slice::slice_to_vec(stored)),
            CodecCompression::Gzip => gzip_decode(stored),
            CodecCompression::Zstd(_) => zstd_decode(stored),
        }
    }
}

/// The metadata key under which the stored copy's cursor is kept.
pub fn metadata_key() -> (k: String)
    ensures
        k@ == "last_cursor"@,
{
    "last_cursor".to_owned()
}

/// The object the backup is stored in.
pub fn backup_object_key() -> (k: String)
    ensures
        k@ == "backup-routes.bin"@,
{
    "backup-routes.bin".to_owned()
}

/// The storage name of a bucket (bucket names are global, so no project).
pub fn gcs_bucket_name(bucket: &str) -> (n: String)
    ensures
        n@ == "projects/_/buckets/"@ + bucket@,
{
    concat_str("projects/_/buckets/", bucket)
}

/// The URL of an object's metadata in the storage API.
pub fn metadata_url(base_url: &str, bucket: &str, object_key: &str) -> (u: String)
    ensures
        u@ == base_url@ + "/storage/v1/b/"@ + bucket@ + "/o/"@ + object_key@,
{
    let a = concat_str(base_url, "/storage/v1/b/");
    let b = concat_str(a.as_str(), bucket);
    let c = concat_str(b.as_str(), "/o/");
    concat_str(c.as_str(), object_key)
}

/// Whether new route data is to be stored: always when no copy is known,
/// otherwise only when the stored copy's cursor comes before the new one.
pub fn should_store(stored: Option<&Cursor>, new_cursor: &Cursor) -> (b: bool)
    ensures
        b == match stored {
            None => true,
            Some(mc) => cursor_order(*mc, *new_cursor) == Comparison::Less,
        },
{
    match stored {
        None => true,
        Some(mc) => match mc.compare(new_cursor) {
            Comparison::Less => true,
            _ => false,
        },
    }
}

} // verus!
