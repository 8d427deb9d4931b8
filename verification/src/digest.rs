//! The MD5 digest of the `md-5` crate.

use md5::Digest;
use vstd::prelude::*;

verus! {

/// The MD5 digest of a sequence of bytes.
pub uninterp spec fn md5_digest(data: Seq<u8>) -> Seq<u8>;

/// `md5::Md5::digest`: the digest of `data`, as bytes.
#[verifier::external_body]
pub(crate) fn md5_of(data: &[u8]) -> (r: Vec<u8>)
    ensures
        r@ == md5_digest(data@),
{
    md5::Md5::digest(data).to_vec()
}

} // verus!
