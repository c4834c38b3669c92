//! Packet protection on top of AWS-LC.

use crate::bytes;
use crate::bytes::copy_at;
use crate::crypto;
use crate::crypto::make_label_info;
use crate::crypto::make_nonce;
use crate::crypto::Algorithm;
use crate::crypto::Digest;
use crate::crypto::HeaderProtectionMask;
use crate::crypto::NONCE_LEN;
use crate::crypto::SAMPLE_LEN;
use crate::crypto::TAG_LEN;
use crate::error::Error;
use vstd::prelude::*;

verus! {

/// The error of AWS-LC, which says nothing but that a call failed.
#[verifier::external_type_specification]
#[verifier::external_body]
pub struct ExUnspecified(aws_lc_rs::error::Unspecified);

/// What `aead::LessSafeKey::seal_in_place_separate_tag` makes of a plaintext: the
/// ciphertext with the tag behind it, unless it fails.
pub uninterp spec fn aead_sealed(
    alg: Algorithm,
    key: Seq<u8>,
    nonce: Seq<u8>,
    ad: Seq<u8>,
    plaintext: Seq<u8>,
) -> Option<Seq<u8>>;

/// What `aead::LessSafeKey::seal_in_place_scatter` makes of a plaintext and extra
/// plaintext: the ciphertext of both with the tag behind it, unless it fails.
pub uninterp spec fn aead_scattered(
    alg: Algorithm,
    key: Seq<u8>,
    nonce: Seq<u8>,
    ad: Seq<u8>,
    plaintext: Seq<u8>,
    extra: Seq<u8>,
) -> Option<Seq<u8>>;

/// The plaintext that `aead::LessSafeKey::open_in_place` finds, if the tag fits.
pub uninterp spec fn aead_opened(
    alg: Algorithm,
    key: Seq<u8>,
    nonce: Seq<u8>,
    ad: Seq<u8>,
    sealed: Seq<u8>,
) -> Option<Seq<u8>>;

/// The mask that `aead::quic::HeaderProtectionKey::new_mask` makes of a sample.
pub uninterp spec fn header_mask(alg: Algorithm, key: Seq<u8>, sample: Seq<u8>) -> Option<
    Seq<u8>,
>;

/// The tag that `hmac::sign` gives.
pub uninterp spec fn hmac_tag(digest: Digest, key: Seq<u8>, data: Seq<u8>) -> Seq<u8>;

/// The bytes that `hkdf::Okm::fill` gives.
pub uninterp spec fn hkdf_expanded(
    digest: Digest,
    secret: Seq<u8>,
    info: Seq<u8>,
    len: nat,
) -> Option<Seq<u8>>;

/// `aead::UnboundKey::new`, which takes a key when it has the cipher's key size.
#[verifier::external_body]
fn packet_key_fits(alg: Algorithm, key: &[u8]) -> (r: bool)
    ensures
        r == (key@.len() == alg.key_size()),
{
    let cipher = match alg {
        Algorithm::AES128_GCM => &aws_lc_rs::aead::AES_128_GCM,
        Algorithm::AES256_GCM => &aws_lc_rs::aead::AES_256_GCM,
        Algorithm::ChaCha20_Poly1305 => &aws_lc_rs::aead::CHACHA20_POLY1305,
    };
    aws_lc_rs::aead::UnboundKey::new(cipher, key).is_ok()
}

/// `aead::LessSafeKey::seal_in_place_separate_tag` on a copy of the plaintext, with
/// the tag put behind it.
///
/// What it gives is 16 bytes longer than the plaintext, and opens to it.
#[verifier::external_body]
fn aead_seal(alg: Algorithm, key: &[u8], nonce: [u8; 12], ad: &[u8], plaintext: &[u8]) -> (r:
    Result<Vec<u8>, aws_lc_rs::error::Unspecified>)
    requires
        key@.len() == alg.key_size(),
    ensures
        match r {
            Ok(out) => {
                &&& aead_sealed(alg, key@, nonce@, ad@, plaintext@) == Some(out@)
                &&& out@.len() == plaintext@.len() + TAG_LEN
                &&& aead_opened(alg, key@, nonce@, ad@, out@) == Some(plaintext@)
            },
            Err(_) => aead_sealed(alg, key@, nonce@, ad@, plaintext@) is None,
        },
{
    let cipher = match alg {
        Algorithm::AES128_GCM => &aws_lc_rs::aead::AES_128_GCM,
        Algorithm::AES256_GCM => &aws_lc_rs::aead::AES_256_GCM,
        Algorithm::ChaCha20_Poly1305 => &aws_lc_rs::aead::CHACHA20_POLY1305,
    };
    let key = aws_lc_rs::aead::LessSafeKey::new(aws_lc_rs::aead::UnboundKey::new(cipher, key)?);
    let nonce = aws_lc_rs::aead::Nonce::assume_unique_for_key(nonce);
    let mut out = plaintext.to_vec();
    let aad = aws_lc_rs::aead::Aad::from(ad);
    let tag = key.seal_in_place_separate_tag(nonce, aad, &mut out)?;
    out.extend_from_slice(tag.as_ref());
    Ok(out)
}

/// `aead::LessSafeKey::seal_in_place_scatter` on a copy of the plaintext, with the
/// ciphertext of the extra plaintext and the tag put behind it.
///
/// What it gives is 16 bytes longer than both plaintexts, and opens to the two
/// in a row.
#[verifier::external_body]
fn aead_seal_scatter(
    alg: Algorithm,
    key: &[u8],
    nonce: [u8; 12],
    ad: &[u8],
    plaintext: &[u8],
    extra: &[u8],
) -> (r: Result<Vec<u8>, aws_lc_rs::error::Unspecified>)
    requires
        key@.len() == alg.key_size(),
        extra@.len() + TAG_LEN <= usize::MAX,
    ensures
        match r {
            Ok(out) => {
                &&& aead_scattered(alg, key@, nonce@, ad@, plaintext@, extra@) == Some(out@)
                &&& out@.len() == plaintext@.len() + extra@.len() + TAG_LEN
                &&& aead_opened(alg, key@, nonce@, ad@, out@) == Some(plaintext@ + extra@)
            },
            Err(_) => aead_scattered(alg, key@, nonce@, ad@, plaintext@, extra@) is None,
        },
{
    let cipher = match alg {
        Algorithm::AES128_GCM => &aws_lc_rs::aead::AES_128_GCM,
        Algorithm::AES256_GCM => &aws_lc_rs::aead::AES_256_GCM,
        Algorithm::ChaCha20_Poly1305 => &aws_lc_rs::aead::CHACHA20_POLY1305,
    };
    let key = aws_lc_rs::aead::LessSafeKey::new(aws_lc_rs::aead::UnboundKey::new(cipher, key)?);
    let nonce = aws_lc_rs::aead::Nonce::assume_unique_for_key(nonce);
    let mut out = plaintext.to_vec();
    let mut rest = vec![0; extra.len() + 16];
    let aad = aws_lc_rs::aead::Aad::from(ad);
    key.seal_in_place_scatter(nonce, aad, &mut out, extra, &mut rest)?;
    out.extend_from_slice(&rest);
    Ok(out)
}

/// `aead::LessSafeKey::open_in_place` on a copy of the ciphertext and tag.
///
/// The plaintext is 16 bytes shorter than what was sealed.
#[verifier::external_body]
fn aead_open(alg: Algorithm, key: &[u8], nonce: [u8; 12], ad: &[u8], sealed: &[u8]) -> (r: Result<
    Vec<u8>,
    aws_lc_rs::error::Unspecified,
>)
    requires
        key@.len() == alg.key_size(),
    ensures
        match r {
            Ok(out) => {
                &&& aead_opened(alg, key@, nonce@, ad@, sealed@) == Some(out@)
                &&& out@.len() + TAG_LEN == sealed@.len()
            },
            Err(_) => aead_opened(alg, key@, nonce@, ad@, sealed@) is None,
        },
{
    let cipher = match alg {
        Algorithm::AES128_GCM => &aws_lc_rs::aead::AES_128_GCM,
        Algorithm::AES256_GCM => &aws_lc_rs::aead::AES_256_GCM,
        Algorithm::ChaCha20_Poly1305 => &aws_lc_rs::aead::CHACHA20_POLY1305,
    };
    let key = aws_lc_rs::aead::LessSafeKey::new(aws_lc_rs::aead::UnboundKey::new(cipher, key)?);
    let nonce = aws_lc_rs::aead::Nonce::assume_unique_for_key(nonce);
    let mut buf = sealed.to_vec();
    let plaintext = key.open_in_place(nonce, aws_lc_rs::aead::Aad::from(ad), &mut buf)?;
    Ok(plaintext.to_vec())
}

/// `aead::quic::HeaderProtectionKey::new`, which takes a key when it has the
/// cipher's key size.
#[verifier::external_body]
fn header_key_fits(alg: Algorithm, key: &[u8]) -> (r: bool)
    ensures
        r == (key@.len() == alg.key_size()),
{
    let cipher = match alg {
        Algorithm::AES128_GCM => &aws_lc_rs::aead::quic::AES_128,
        Algorithm::AES256_GCM => &aws_lc_rs::aead::quic::AES_256,
        Algorithm::ChaCha20_Poly1305 => &aws_lc_rs::aead::quic::CHACHA20,
    };
    aws_lc_rs::aead::quic::HeaderProtectionKey::new(cipher, key).is_ok()
}

/// `aead::quic::HeaderProtectionKey::new_mask`, which takes samples of 16 bytes
/// only.
#[verifier::external_body]
fn header_key_mask(alg: Algorithm, key: &[u8], sample: &[u8]) -> (r: Result<
    [u8; 5],
    aws_lc_rs::error::Unspecified,
>)
    requires
        key@.len() == alg.key_size(),
    ensures
        match r {
            Ok(mask) => header_mask(alg, key@, sample@) == Some(mask@) && sample@.len()
                == SAMPLE_LEN,
            Err(_) => header_mask(alg, key@, sample@) is None,
        },
{
    let cipher = match alg {
        Algorithm::AES128_GCM => &aws_lc_rs::aead::quic::AES_128,
        Algorithm::AES256_GCM => &aws_lc_rs::aead::quic::AES_256,
        Algorithm::ChaCha20_Poly1305 => &aws_lc_rs::aead::quic::CHACHA20,
    };
    aws_lc_rs::aead::quic::HeaderProtectionKey::new(cipher, key)?.new_mask(sample)
}

/// `hmac::sign` with a key of its own. The tag is as long as the hash.
#[verifier::external_body]
pub(crate) fn hmac_sign(digest: Digest, key: &[u8], data: &[u8]) -> (r: Vec<u8>)
    ensures
        r@ == hmac_tag(digest, key@, data@),
        r@.len() == digest.size(),
{
    let algorithm = match digest {
        Digest::Sha256 => aws_lc_rs::hmac::HMAC_SHA256,
        Digest::Sha384 => aws_lc_rs::hmac::HMAC_SHA384,
    };
    let key = aws_lc_rs::hmac::Key::new(algorithm, key);
    aws_lc_rs::hmac::sign(&key, data).as_ref().to_vec()
}

/// `hmac::verify`, which accepts the tag that `hmac::sign` gives, and no other.
#[verifier::external_body]
pub(crate) fn hmac_verify(digest: Digest, key: &[u8], data: &[u8], tag: &[u8]) -> (r: bool)
    ensures
        r == (tag@ == hmac_tag(digest, key@, data@)),
{
    let algorithm = match digest {
        Digest::Sha256 => aws_lc_rs::hmac::HMAC_SHA256,
        Digest::Sha384 => aws_lc_rs::hmac::HMAC_SHA384,
    };
    let key = aws_lc_rs::hmac::Key::new(algorithm, key);
    aws_lc_rs::hmac::verify(&key, data, tag).is_ok()
}

/// How many bytes HKDF is asked for.
pub struct HkdfOutputLen(usize);

impl HkdfOutputLen {
    /// How many bytes HKDF is asked for.
    pub closed spec fn asked(&self) -> usize {
        self.0
    }
}

impl aws_lc_rs::hkdf::KeyType for HkdfOutputLen {
    fn len(&self) -> (r: usize)
        ensures
            r == self.asked(),
    {
        self.0
    }
}

/// `hkdf::Prk::expand` and `hkdf::Okm::fill` on a pseudorandom key that
/// `hkdf::Prk::new_less_safe` takes as it is, which panics on more than 64 bytes.
///
/// They fail when more than 255 hashes of output are asked for.
#[verifier::external_body]
fn hkdf_fill(digest: Digest, secret: &[u8], info: &[u8], len: usize) -> (r: Result<
    Vec<u8>,
    aws_lc_rs::error::Unspecified,
>)
    requires
        secret@.len() <= 64,
    ensures
        match r {
            Ok(out) => {
                &&& hkdf_expanded(digest, secret@, info@, len as nat) == Some(out@)
                &&& out@.len() == len
                &&& len <= 255 * digest.size()
            },
            Err(_) => hkdf_expanded(digest, secret@, info@, len as nat) is None,
        },
{
    let algorithm = match digest {
        Digest::Sha256 => aws_lc_rs::hkdf::HKDF_SHA256,
        Digest::Sha384 => aws_lc_rs::hkdf::HKDF_SHA384,
    };
    let prk = aws_lc_rs::hkdf::Prk::new_less_safe(algorithm, secret);
    let mut out = vec![0; len];
    prk.expand(&[info], HkdfOutputLen(len))?.fill(&mut out)?;
    Ok(out)
}

/// `constant_time::verify_slices_are_equal`, which is right exactly about equality.
#[verifier::external_body]
pub(crate) fn slices_are_equal(a: &[u8], b: &[u8]) -> (r: bool)
    ensures
        r == (a@ == b@),
{
    aws_lc_rs::constant_time::verify_slices_are_equal(a, b).is_ok()
}

/// Copies a tag into the front of `out`, if there is room.
fn put_front(out: &mut [u8], tag: &[u8]) -> (r: Result<(), Error>)
    ensures
        match r {
            Ok(_) => tag@.len() <= old(out)@.len() && final(out)@ == bytes::spliced(
                old(out)@,
                0,
                tag@,
            ),
            Err(e) => e == Error::CryptoFail && tag@.len() > old(out)@.len() && final(out)@ == old(
                out,
            )@,
        },
{
    if tag.len() > out.len() {
        return Err(Error::CryptoFail);
    }
    copy_at(out, 0, tag);
    Ok(())
}

/// HKDF-Extract: the HMAC of the secret under the salt, put into the front of
/// `out`.
pub fn hkdf_extract(alg: Algorithm, out: &mut [u8], secret: &[u8], salt: &[u8]) -> (r: Result<
    (),
    Error,
>)
    ensures
        match r {
            Ok(_) => alg.digest().size() <= old(out)@.len() && final(out)@ == bytes::spliced(
                old(out)@,
                0,
                hmac_tag(alg.digest(), salt@, secret@),
            ),
            Err(e) => e == Error::CryptoFail && alg.digest().size() > old(out)@.len() && final(out)@
                == old(out)@,
        },
{
    let tag: Vec<u8> = hmac_sign(alg.get_digest(), salt, secret);
    put_front(out, &tag)
}

/// HKDF-Expand: fills `out` from the secret in the context `info`.
pub fn hkdf_expand(alg: Algorithm, out: &mut [u8], secret: &[u8], info: &[u8]) -> (r: Result<
    (),
    Error,
>)
    requires
        secret@.len() <= 64,
    ensures
        match hkdf_expanded(alg.digest(), secret@, info@, old(out)@.len()) {
            Some(okm) => r is Ok && final(out)@ == okm,
            None => r == Err::<(), Error>(Error::CryptoFail) && final(out)@ == old(out)@,
        },
        old(out)@.len() > 255 * alg.digest().size() ==> r is Err,
{
    match hkdf_fill(alg.get_digest(), secret, info, out.len()) {
        Ok(okm) => {
            copy_at(out, 0, &okm);
            proof {
                assert(final(out)@ =~= okm@);
            }
            Ok(())
        },
        Err(_) => Err(Error::CryptoFail),
    }
}

/// Whether two byte strings are the same, found without looking at where they
/// differ.
pub fn backend_verify_slices_are_equal(a: &[u8], b: &[u8]) -> (r: Result<(), Error>)
    ensures
        r == if a@ == b@ {
            Ok::<(), Error>(())
        } else {
            Err(Error::CryptoFail)
        },
{
    if slices_are_equal(a, b) {
        Ok(())
    } else {
        Err(Error::CryptoFail)
    }
}

/// What HKDF derives under a label.
pub open spec fn expanded_label(alg: Algorithm, secret: Seq<u8>, label: Seq<u8>, len: u16) -> Option<
    Seq<u8>,
> {
    hkdf_expanded(alg.digest(), secret, crypto::label_info(len, label), len as nat)
}

/// What is derived under a label goes by the cipher's hash function, the secret, the
/// label and how many bytes are asked for: SHA-384 for AES-256, SHA-256 for the others.
pub proof fn law_derivation_goes_by_label(secret: Seq<u8>, label: Seq<u8>, len: u16)
    ensures
        expanded_label(Algorithm::AES256_GCM, secret, label, len) == hkdf_expanded(
            Digest::Sha384,
            secret,
            crypto::label_info(len, label),
            len as nat,
        ),
        expanded_label(Algorithm::AES128_GCM, secret, label, len) == hkdf_expanded(
            Digest::Sha256,
            secret,
            crypto::label_info(len, label),
            len as nat,
        ),
        expanded_label(Algorithm::ChaCha20_Poly1305, secret, label, len) == hkdf_expanded(
            Digest::Sha256,
            secret,
            crypto::label_info(len, label),
            len as nat,
        ),
{
}

/// Derives `len` bytes from a secret under a label.
fn expand_label(alg: Algorithm, secret: &[u8], label: &[u8], len: u16) -> (r: Result<
    Vec<u8>,
    Error,
>)
    requires
        secret@.len() <= 64,
        label@.len() <= 249,
    ensures
        match expanded_label(alg, secret@, label@, len) {
            Some(out) => r matches Ok(v) && v@ == out && out.len() == len,
            None => r matches Err(e) && e == Error::CryptoFail,
        },
{
    let info: Vec<u8> = make_label_info(len, label);
    match hkdf_fill(alg.get_digest(), secret, &info, len as usize) {
        Ok(out) => Ok(out),
        Err(_) => Err(Error::CryptoFail),
    }
}

/// Derives the packet key from a traffic secret.
pub fn derive_pkt_key(alg: Algorithm, secret: &[u8]) -> (r: Result<Vec<u8>, Error>)
    requires
        secret@.len() <= 64,
    ensures
        match expanded_label(alg, secret@, crypto::key_label(), alg.key_size() as u16) {
            Some(key) => r matches Ok(v) && v@ == key && key.len() == alg.key_size(),
            None => r matches Err(e) && e == Error::CryptoFail,
        },
{
    let label: [u8; 8] = [0x71, 0x75, 0x69, 0x63, 0x20, 0x6b, 0x65, 0x79];
    proof {
        assert(label@ =~= crypto::key_label());
    }
    expand_label(alg, secret, &label, alg.key_len() as u16)
}

/// Derives the initialisation vector from a traffic secret.
pub fn derive_pkt_iv(alg: Algorithm, secret: &[u8]) -> (r: Result<Vec<u8>, Error>)
    requires
        secret@.len() <= 64,
    ensures
        match expanded_label(alg, secret@, crypto::iv_label(), 12) {
            Some(iv) => r matches Ok(v) && v@ == iv && iv.len() == NONCE_LEN,
            None => r matches Err(e) && e == Error::CryptoFail,
        },
{
    let label: [u8; 7] = [0x71, 0x75, 0x69, 0x63, 0x20, 0x69, 0x76];
    proof {
        assert(label@ =~= crypto::iv_label());
    }
    expand_label(alg, secret, &label, 12)
}

/// A key that protects the payload of packets.
pub struct PacketKey {
    alg: Algorithm,
    key: Vec<u8>,
    nonce: Vec<u8>,
}

impl PacketKey {
    /// The cipher.
    pub closed spec fn alg(&self) -> Algorithm {
        self.alg
    }

    /// The key's bytes.
    pub closed spec fn key(&self) -> Seq<u8> {
        self.key@
    }

    /// The initialisation vector.
    pub closed spec fn iv(&self) -> Seq<u8> {
        self.nonce@
    }

    #[verifier::type_invariant]
    spec fn key_fits(&self) -> bool {
        self.key@.len() == self.alg.key_size()
    }

    /// Takes a key and an initialisation vector, if the key has the cipher's key
    /// size.
    pub fn new(alg: Algorithm, key: Vec<u8>, iv: Vec<u8>, _enc: u32) -> (r: Result<Self, Error>)
        ensures
            match r {
                Ok(k) => key@.len() == alg.key_size() && k.alg() == alg && k.key() == key@
                    && k.iv() == iv@,
                Err(e) => key@.len() != alg.key_size() && e == Error::CryptoFail,
            },
    {
        if packet_key_fits(alg, &key) {
            Ok(PacketKey { alg, key, nonce: iv })
        } else {
            Err(Error::CryptoFail)
        }
    }

    /// Derives the key and the initialisation vector from a traffic secret.
    pub fn from_secret(alg: Algorithm, secret: &[u8], enc: u32) -> (r: Result<Self, Error>)
        requires
            secret@.len() <= 64,
        ensures
            match (
                expanded_label(alg, secret@, crypto::key_label(), alg.key_size() as u16),
                expanded_label(alg, secret@, crypto::iv_label(), 12),
            ) {
                (Some(key), Some(iv)) => r matches Ok(k) && k.alg() == alg && k.key() == key
                    && k.iv() == iv && iv.len() == NONCE_LEN,
                _ => r matches Err(e) && e == Error::CryptoFail,
            },
    {
        match derive_pkt_key(alg, secret) {
            Err(e) => Err(e),
            Ok(key) => match derive_pkt_iv(alg, secret) {
                Err(e) => Err(e),
                Ok(iv) => PacketKey::new(alg, key, iv, enc),
            },
        }
    }

    /// Opens what fills `buf`, ciphertext and tag, and leaves the plaintext in its
    /// front. Gives the plaintext's length.
    pub fn open_with_u64_counter(&self, counter: u64, ad: &[u8], buf: &mut [u8]) -> (r: Result<
        usize,
        Error,
    >)
        requires
            self.iv().len() == NONCE_LEN,
        ensures
            match aead_opened(
                self.alg(),
                self.key(),
                crypto::nonce_of(self.iv(), counter),
                ad@,
                old(buf)@,
            ) {
                Some(plaintext) => {
                    &&& r == Ok::<usize, Error>(plaintext.len() as usize)
                    &&& plaintext.len() + TAG_LEN == old(buf)@.len()
                    &&& final(buf)@ == bytes::spliced(old(buf)@, 0, plaintext)
                },
                None => r == Err::<usize, Error>(Error::CryptoFail) && final(buf)@ == old(buf)@,
            },
    {
        proof {
            use_type_invariant(self);
        }
        let nonce: [u8; 12] = make_nonce(&self.nonce, counter);
        match aead_open(self.alg, &self.key, nonce, ad, buf) {
            Ok(plaintext) => {
                copy_at(buf, 0, &plaintext);
                Ok(plaintext.len())
            },
            Err(_) => Err(Error::CryptoFail),
        }
    }

    /// What sealing gives: ciphertext and tag.
    pub open spec fn sealed(
        &self,
        counter: u64,
        ad: Seq<u8>,
        plaintext: Seq<u8>,
        extra: Option<Seq<u8>>,
    ) -> Option<Seq<u8>> {
        let nonce = crypto::nonce_of(self.iv(), counter);
        match extra {
            Some(extra) => aead_scattered(self.alg(), self.key(), nonce, ad, plaintext, extra),
            None => aead_sealed(self.alg(), self.key(), nonce, ad, plaintext),
        }
    }

    /// Seals the first `in_len` bytes of `buf` and then the extra plaintext, in
    /// place. The tag follows. Gives the length of it all, for which `buf` must
    /// have room.
    pub fn seal_with_u64_counter(
        &mut self,
        counter: u64,
        ad: &[u8],
        buf: &mut [u8],
        in_len: usize,
        extra_in: Option<&[u8]>,
    ) -> (r: Result<usize, Error>)
        requires
            old(self).iv().len() == NONCE_LEN,
            in_len + TAG_LEN + extra_len(extra_in) <= usize::MAX,
        ensures
            *final(self) == *old(self),
            ({
                let total = in_len + TAG_LEN + extra_len(extra_in);
                let sealed = old(self).sealed(
                    counter,
                    ad@,
                    old(buf)@.take(in_len as int),
                    extra_view(extra_in),
                );
                if total <= old(buf)@.len() && sealed is Some {
                    &&& r == Ok::<usize, Error>(total as usize)
                    &&& sealed->0.len() == total
                    &&& final(buf)@ == bytes::spliced(old(buf)@, 0, sealed->0)
                } else {
                    &&& r == Err::<usize, Error>(Error::CryptoFail)
                    &&& final(buf)@ == old(buf)@
                }
            }),
            r is Ok ==> aead_opened(
                old(self).alg(),
                old(self).key(),
                crypto::nonce_of(old(self).iv(), counter),
                ad@,
                final(buf)@.take(r->Ok_0 as int),
            ) == Some(old(buf)@.take(in_len as int) + extra_bytes(extra_in)),
    {
        proof {
            use_type_invariant(&*self);
        }
        let tag_len: usize = self.alg.tag_len();
        let extra_len: usize = match extra_in {
            Some(extra) => extra.len(),
            None => 0,
        };
        if in_len + tag_len + extra_len > buf.len() {
            return Err(Error::CryptoFail);
        }
        let nonce: [u8; 12] = make_nonce(&self.nonce, counter);
        let plaintext: &[u8] = vstd::slice::slice_subrange(buf, 0, in_len);
        proof {
            assert(plaintext@ =~= old(buf)@.take(in_len as int));
        }
        let sealed = match extra_in {
            Some(extra) => aead_seal_scatter(self.alg, &self.key, nonce, ad, plaintext, extra),
            None => aead_seal(self.alg, &self.key, nonce, ad, plaintext),
        };
        match sealed {
            Ok(out) => {
                copy_at(buf, 0, &out);
                proof {
                    assert(buf@.take(out@.len() as int) =~= out@);
                    assert(old(buf)@.take(in_len as int) + extra_bytes(None) =~= old(buf)@.take(
                        in_len as int,
                    ));
                }
                Ok(out.len())
            },
            Err(_) => Err(Error::CryptoFail),
        }
    }
}

/// The extra plaintext, as bytes that may be missing.
pub open spec fn extra_view(extra: Option<&[u8]>) -> Option<Seq<u8>> {
    match extra {
        Some(e) => Some(e@),
        None => None,
    }
}

/// The extra plaintext, none if it is missing.
pub open spec fn extra_bytes(extra: Option<&[u8]>) -> Seq<u8> {
    match extra {
        Some(e) => e@,
        None => Seq::empty(),
    }
}

/// The length of the extra plaintext.
pub open spec fn extra_len(extra: Option<&[u8]>) -> nat {
    extra_bytes(extra).len()
}

/// Sealing goes by the key, the packet's nonce, the associated data and all of the
/// plaintext, with or without an extra part.
pub proof fn law_sealing_goes_by_nonce(
    key: PacketKey,
    counter: u64,
    ad: Seq<u8>,
    plaintext: Seq<u8>,
    extra: Seq<u8>,
)
    ensures
        key.sealed(counter, ad, plaintext, None) == aead_sealed(
            key.alg(),
            key.key(),
            crypto::nonce_of(key.iv(), counter),
            ad,
            plaintext,
        ),
        key.sealed(counter, ad, plaintext, Some(extra)) == aead_scattered(
            key.alg(),
            key.key(),
            crypto::nonce_of(key.iv(), counter),
            ad,
            plaintext,
            extra,
        ),
{
}

/// Extra plaintext that is there counts with all its bytes, and none counts as nothing.
pub proof fn law_extra_plaintext(extra: &[u8])
    ensures
        extra_view(Some(extra)) == Some(extra@),
        extra_view(None) is None,
        extra_bytes(Some(extra)) == extra@,
        extra_bytes(None).len() == 0,
        extra_len(Some(extra)) == extra@.len(),
        extra_len(None) == 0,
{
}

/// A key that protects the headers of packets.
pub struct HeaderProtectionKey {
    alg: Algorithm,
    key: Vec<u8>,
}

impl HeaderProtectionKey {
    /// The cipher.
    pub closed spec fn alg(&self) -> Algorithm {
        self.alg
    }

    /// The key's bytes.
    pub closed spec fn key(&self) -> Seq<u8> {
        self.key@
    }

    #[verifier::type_invariant]
    spec fn key_fits(&self) -> bool {
        self.key@.len() == self.alg.key_size()
    }

    /// Takes a key, if it has the cipher's key size.
    pub fn new(alg: Algorithm, hp_key: Vec<u8>) -> (r: Result<Self, Error>)
        ensures
            match r {
                Ok(k) => hp_key@.len() == alg.key_size() && k.alg() == alg && k.key() == hp_key@,
                Err(e) => hp_key@.len() != alg.key_size() && e == Error::CryptoFail,
            },
    {
        if header_key_fits(alg, &hp_key) {
            Ok(HeaderProtectionKey { alg, key: hp_key })
        } else {
            Err(Error::CryptoFail)
        }
    }

    /// The mask for a sample, which has 16 bytes.
    pub fn new_mask(&self, sample: &[u8]) -> (r: Result<HeaderProtectionMask, Error>)
        ensures
            match header_mask(self.alg(), self.key(), sample@) {
                Some(mask) => r matches Ok(m) && m@ == mask,
                None => r matches Err(e) && e == Error::CryptoFail,
            },
            sample@.len() != SAMPLE_LEN ==> r is Err,
    {
        proof {
            use_type_invariant(self);
        }
        match header_key_mask(self.alg, &self.key, sample) {
            Ok(mask) => Ok(mask),
            Err(_) => Err(Error::CryptoFail),
        }
    }
}

impl Clone for HeaderProtectionKey {
    /// A key with the same cipher and bytes.
    fn clone(&self) -> (r: Self)
        ensures
            r.alg() == self.alg(),
            r.key() == self.key(),
    {
        proof {
            use_type_invariant(self);
        }
        let mut key: Vec<u8> = Vec::new();
        key.extend_from_slice(&self.key);
        proof {
            assert(key@ =~= self.key@);
        }
        HeaderProtectionKey { alg: self.alg, key }
    }
}

} // verus!
