use vstd::prelude::*;
use crate::bytes::Bytes;

verus! {

/// The SHA-256 digest of a byte string.
pub uninterp spec fn sha256_of(data: Seq<u8>) -> Seq<u8>;

/// Relies on rust-crypto's `Sha256` (`Digest::input`, then `Digest::result`
/// into a 32-byte buffer): the digest depends on the input bytes alone and
/// fills exactly 32 bytes.
#[verifier::external_body]
pub(crate) fn sha256(data: &[u8]) -> (r: Bytes)
    ensures
        r@ == sha256_of(data@),
        r@.len() == 32,
{
    let mut digest = crypto::sha2::Sha256::new();
    crypto::digest::Digest::input(&mut digest, data);
    let mut buf: [u8; 32] = [0; 32];
    crypto::digest::Digest::result(&mut digest, &mut buf);
    Bytes::from_vec(buf.to_vec())
}

} // verus!
