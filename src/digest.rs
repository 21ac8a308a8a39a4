//! Content fingerprints.

use vstd::prelude::*;

verus! {

/// The size, in bytes, of a fingerprint.
pub const DIGEST_LEN: usize = 16;

/// The MD5 digest of a byte string.
pub uninterp spec fn md5_of(data: Seq<u8>) -> Seq<u8>;

/// Relies on `md5::Md5::digest` (the md-5 crate): the 16-byte MD5 digest of
/// `data`, which depends on `data` alone.
#[verifier::external_body]
pub(crate) fn md5_digest(data: &[u8]) -> (r: [u8; 16])
    ensures
        r@ == md5_of(data@),
{
    <md5::Md5 as md5::Digest>::digest(data).into()
}

/// The fingerprint of a buffer handed over by the engine.
pub fn get_data_md5(data: &[u8]) -> (r: [u8; 16])
    ensures
        r@ == md5_of(data@),
{
    md5_digest(data)
}

} // verus!
