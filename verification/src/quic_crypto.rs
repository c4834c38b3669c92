//! Random bytes, message authentication and comparison for the connection layer.

use crate::crypto::aws_lc;
use crate::crypto::aws_lc::hmac_sign;
use crate::crypto::aws_lc::slices_are_equal;
use crate::crypto::Digest;
use crate::error::Error;
use crate::outside::draw_from_system;
use crate::outside::Draw;
use vstd::prelude::*;

verus! {

/// `rand::SystemRandom::fill`, which overwrites all of `buf` or fails. The bytes
/// are left to chance, so only their number is claimed.
#[verifier::external_body]
pub(crate) fn system_random_fill(buf: &mut [u8]) -> (r: Result<(), aws_lc_rs::error::Unspecified>)
    ensures
        final(buf)@.len() == old(buf)@.len(),
{
    aws_lc_rs::rand::SecureRandom::fill(&aws_lc_rs::rand::SystemRandom::new(), buf)
}

/// Fills `buf` with random bytes. Fails only when the system gives none.
pub fn rand_bytes(buf: &mut [u8]) -> (r: Result<(), Error>)
    ensures
        final(buf)@.len() == old(buf)@.len(),
        r matches Err(e) ==> e == Error::CryptoFail,
        exists|draw: Draw| #[trigger]
            draw.bytes() == if r is Ok {
                Some(final(buf)@)
            } else {
                None
            } && draw.source() is None,
{
    let (drawn, draw): (bool, Ghost<Draw>) = draw_from_system(buf);
    proof {
        assert(draw@.bytes() == if drawn {
            Some(buf@)
        } else {
            None
        });
    }
    if drawn {
        Ok(())
    } else {
        Err(Error::CryptoFail)
    }
}

/// The first 32 bytes of `v`, as an array.
fn to_array(v: &[u8]) -> (r: [u8; 32])
    requires
        v@.len() == 32,
    ensures
        r@ == v@,
{
    let mut out: [u8; 32] = [0; 32];
    let mut i: usize = 0;
    while i < 32
        invariant
            i <= 32,
            v@.len() == 32,
            forall|j: int| 0 <= j < i ==> out@[j] == v@[j],
        decreases 32 - i,
    {
        out[i] = v[i];
        i = i + 1;
    }
    proof {
        assert(out@ =~= v@);
    }
    out
}

/// The HMAC of `data` under `key`, with SHA-256.
pub fn hmac_sha256(key: &[u8], data: &[u8]) -> (r: [u8; 32])
    ensures
        r@ == aws_lc::hmac_tag(Digest::Sha256, key@, data@),
{
    let tag: Vec<u8> = hmac_sign(Digest::Sha256, key, data);
    to_array(&tag)
}

/// Whether two byte strings are the same, found without looking at where they
/// differ.
pub fn verify_slices_are_equal(a: &[u8], b: &[u8]) -> (r: bool)
    ensures
        r == (a@ == b@),
{
    slices_are_equal(a, b)
}

} // verus!
