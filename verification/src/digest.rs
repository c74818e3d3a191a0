//! Hash functions of outside crates: Keccak-256 (sha3) and MD5 (md5).

use vstd::prelude::*;

verus! {

/// The Keccak-256 digest of `data`, as computed by `sha3::Keccak256`.
pub uninterp spec fn keccak256_digest(data: Seq<u8>) -> Seq<u8>;

/// The MD5 digest of `data`, as computed by `md5::compute`.
pub uninterp spec fn md5_digest(data: Seq<u8>) -> Seq<u8>;

/// Calls `<sha3::Keccak256 as sha3::Digest>::digest` on `data`. Trusted: the
/// 32 bytes returned are the Keccak-256 digest of exactly the bytes given.
#[verifier::external_body]
pub(crate) fn keccak256(data: &[u8]) -> (digest: [u8; 32])
    ensures
        digest@ == keccak256_digest(data@),
{
    <sha3::Keccak256 as sha3::Digest>::digest(data).into()
}

/// Calls `md5::compute` on `data`. Trusted: the 16 bytes returned are the MD5
/// digest of exactly the bytes given.
#[verifier::external_body]
pub(crate) fn md5(data: &[u8]) -> (digest: [u8; 16])
    ensures
        digest@ == md5_digest(data@),
{
    md5::compute(data).0
}

} // verus!
