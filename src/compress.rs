//! Transparent gzip framing of stored bytes.

use std::io::Read;
use std::io::Write;
use vstd::prelude::*;

verus! {

/// The gzip stream that the default encoder writes for a byte string, if it
/// writes one.
pub uninterp spec fn gzip_of(data: Seq<u8>) -> Option<Seq<u8>>;

/// The bytes that a gzip stream decodes to, if it is a valid stream.
pub uninterp spec fn gunzip_of(data: Seq<u8>) -> Option<Seq<u8>>;

/// Relies on `flate2::GzBuilder::write` with `Compression::default()`: the
/// encoder writes a stream that depends on `data` alone; an I/O error of the
/// encoder gives `None`.
#[verifier::external_body]
pub(crate) fn gzip(data: &[u8]) -> (r: Option<Vec<u8>>)
    ensures
        r matches Some(v) ==> gzip_of(data@) == Some(v@),
        r is None ==> gzip_of(data@) is None,
{
    let mut enc = flate2::GzBuilder::new().write(Vec::new(), flate2::Compression::default());
    match enc.write_all(data) {
        Ok(()) => enc.finish().ok(),
        Err(_) => None,
    }
}

/// Relies on `flate2::read::GzDecoder`: reading the decoder to its end gives
/// the decoded bytes, or an error where `data` is not a valid gzip stream.
#[verifier::external_body]
pub(crate) fn gunzip(data: &[u8]) -> (r: Option<Vec<u8>>)
    ensures
        r matches Some(v) ==> gunzip_of(data@) == Some(v@),
        r is None ==> gunzip_of(data@) is None,
{
    let mut out = Vec::new();
    match flate2::read::GzDecoder::new(data).read_to_end(&mut out) {
        Ok(_) => Some(out),
        Err(_) => None,
    }
}

} // verus!
