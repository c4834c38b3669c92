//! Packet protection: algorithms, levels, nonces and key labels.

use crate::bytes;
use crate::bytes::u16_to_octets;
use crate::bytes::u64_to_octets;
use vstd::prelude::*;

pub mod aws_lc;
pub mod keys;
pub mod rustls_provider;

verus! {

/// How many bytes a header protection mask has.
pub const HP_MASK_LEN: usize = 5;

/// How many bytes of a packet a header protection mask is made from.
pub const SAMPLE_LEN: usize = 16;

/// How many bytes a nonce has.
pub const NONCE_LEN: usize = 12;

/// How many bytes an authentication tag has.
pub const TAG_LEN: usize = 16;

/// A header protection mask.
pub type HeaderProtectionMask = [u8; 5];

/// The encryption level that handshake data belongs to.
#[derive(Clone, Copy, Debug, PartialEq, Eq, Structural)]
pub enum Level {
    Initial,
    ZeroRTT,
    Handshake,
    OneRTT,
}

/// The cipher that protects packets.
#[allow(non_camel_case_types)]
#[derive(Clone, Copy, Debug, PartialEq, Eq, Structural)]
pub enum Algorithm {
    AES128_GCM,
    AES256_GCM,
    ChaCha20_Poly1305,
}

/// The hash function that key derivation uses.
#[derive(Clone, Copy, Debug, PartialEq, Eq, Structural)]
pub enum Digest {
    Sha256,
    Sha384,
}

impl Digest {
    /// How many bytes the hash has.
    pub open spec fn size(self) -> nat {
        match self {
            Digest::Sha256 => 32,
            Digest::Sha384 => 48,
        }
    }
}

impl Algorithm {
    /// How many bytes a key has.
    pub open spec fn key_size(self) -> nat {
        match self {
            Algorithm::AES128_GCM => 16,
            Algorithm::AES256_GCM => 32,
            Algorithm::ChaCha20_Poly1305 => 32,
        }
    }

    /// The hash function that goes with the cipher.
    pub open spec fn digest(self) -> Digest {
        match self {
            Algorithm::AES128_GCM => Digest::Sha256,
            Algorithm::AES256_GCM => Digest::Sha384,
            Algorithm::ChaCha20_Poly1305 => Digest::Sha256,
        }
    }

    /// How many bytes a key has.
    pub fn key_len(self) -> (r: usize)
        ensures
            r == self.key_size(),
    {
        match self {
            Algorithm::AES128_GCM => 16,
            Algorithm::AES256_GCM => 32,
            Algorithm::ChaCha20_Poly1305 => 32,
        }
    }

    /// How many bytes a nonce has.
    pub fn nonce_len(self) -> (r: usize)
        ensures
            r == NONCE_LEN,
    {
        NONCE_LEN
    }

    /// How many bytes an authentication tag has.
    pub fn tag_len(self) -> (r: usize)
        ensures
            r == TAG_LEN,
    {
        TAG_LEN
    }

    /// The hash function for HKDF and HMAC.
    pub fn get_digest(self) -> (r: Digest)
        ensures
            r == self.digest(),
    {
        match self {
            Algorithm::AES128_GCM => Digest::Sha256,
            Algorithm::AES256_GCM => Digest::Sha384,
            Algorithm::ChaCha20_Poly1305 => Digest::Sha256,
        }
    }
}

/// The sizes of keys, nonces, tags, samples, masks and hashes, in bytes.
pub proof fn law_sizes()
    ensures
        Algorithm::AES128_GCM.key_size() == 16,
        Algorithm::AES256_GCM.key_size() == 32,
        Algorithm::ChaCha20_Poly1305.key_size() == 32,
        Algorithm::AES128_GCM.digest().size() == 32,
        Algorithm::AES256_GCM.digest().size() == 48,
        Algorithm::ChaCha20_Poly1305.digest().size() == 32,
        forall|alg: Algorithm| #[trigger]
            alg.digest() is Sha384 <==> alg == Algorithm::AES256_GCM,
        NONCE_LEN == 12,
        TAG_LEN == 16,
        SAMPLE_LEN == 16,
        HP_MASK_LEN == 5,
{
}

/// The nonce of the packet with the given number: the number, eight bytes long,
/// over the end of the initialisation vector.
pub open spec fn nonce_of(iv: Seq<u8>, counter: u64) -> Seq<u8> {
    Seq::new(
        12,
        |i: int|
            if i < 4 {
                iv[i]
            } else {
                iv[i] ^ bytes::u64_octets(counter)[i - 4]
            },
    )
}

/// The nonce of the packet with the given number.
pub fn make_nonce(iv: &[u8], counter: u64) -> (r: [u8; 12])
    requires
        iv@.len() == NONCE_LEN,
    ensures
        r@ == nonce_of(iv@, counter),
{
    let c: [u8; 8] = u64_to_octets(counter);
    let r: [u8; 12] = [
        iv[0],
        iv[1],
        iv[2],
        iv[3],
        iv[4] ^ c[0],
        iv[5] ^ c[1],
        iv[6] ^ c[2],
        iv[7] ^ c[3],
        iv[8] ^ c[4],
        iv[9] ^ c[5],
        iv[10] ^ c[6],
        iv[11] ^ c[7],
    ];
    proof {
        assert(r@ =~= nonce_of(iv@, counter));
    }
    r
}

/// A nonce differs from the initialisation vector by the packet's number, which lies over
/// its last eight bytes. The packet with number 0 has the vector itself.
pub proof fn law_nonce_carries_the_number(iv: Seq<u8>, counter: u64, i: int)
    requires
        iv.len() == 12,
        0 <= i < 8,
    ensures
        nonce_of(iv, counter).len() == 12,
        nonce_of(iv, counter).take(4) == iv.take(4),
        nonce_of(iv, counter)[4 + i] ^ iv[4 + i] == bytes::u64_octets(counter)[i],
        nonce_of(iv, 0) == iv,
{
    let v = iv[4 + i];
    let c = bytes::u64_octets(counter)[i];
    assert((v ^ c) ^ v == c) by (bit_vector);
    assert(nonce_of(iv, counter).take(4) =~= iv.take(4));
    assert forall|j: int| 0 <= j < 12 implies nonce_of(iv, 0)[j] == iv[j] by {
        let w = iv[j];
        assert(w ^ 0u8 == w) by (bit_vector);
        assert(j >= 4 ==> bytes::u64_octets(0)[j - 4] == 0);
    }
    assert(nonce_of(iv, 0) =~= iv);
}

/// Two packets of one key never share a nonce.
pub proof fn law_nonces_differ(iv: Seq<u8>, a: u64, b: u64)
    requires
        iv.len() == NONCE_LEN,
        a != b,
    ensures
        nonce_of(iv, a) != nonce_of(iv, b),
{
    let x = bytes::u64_octets(a);
    let y = bytes::u64_octets(b);
    let none = Seq::<u8>::empty();
    if nonce_of(iv, a) == nonce_of(iv, b) {
        assert forall|i: int| 0 <= i < 8 implies x[i] == y[i] by {
            let v = iv[i + 4];
            let p = x[i];
            let q = y[i];
            assert(nonce_of(iv, a)[i + 4] == v ^ p);
            assert(nonce_of(iv, b)[i + 4] == v ^ q);
            assert(v ^ p == v ^ q ==> p == q) by (bit_vector);
        }
        assert(x + none =~= y + none);
        bytes::law_u64_octets_read_back(a, none);
        bytes::law_u64_octets_read_back(b, none);
    }
}

/// The label of packet keys.
pub open spec fn key_label() -> Seq<u8> {
    seq![0x71u8, 0x75, 0x69, 0x63, 0x20, 0x6b, 0x65, 0x79]
}

/// The label of initialisation vectors.
pub open spec fn iv_label() -> Seq<u8> {
    seq![0x71u8, 0x75, 0x69, 0x63, 0x20, 0x69, 0x76]
}

/// What every label starts with.
pub open spec fn label_prefix() -> Seq<u8> {
    seq![0x74u8, 0x6c, 0x73, 0x31, 0x33, 0x20]
}

/// The context in which HKDF derives `len` bytes under a label.
pub open spec fn label_info(len: u16, label: Seq<u8>) -> Seq<u8> {
    bytes::u16_octets(len) + seq![(label_prefix().len() + label.len()) as u8] + label_prefix()
        + label + seq![0u8]
}

/// The labels, in letters.
pub proof fn law_labels()
    ensures
        key_label() == vstd::utf8::encode_utf8("quic key"@),
        iv_label() == vstd::utf8::encode_utf8("quic iv"@),
        label_prefix() == vstd::utf8::encode_utf8("tls13 "@),
{
    reveal_strlit("quic key");
    reveal_strlit("quic iv");
    reveal_strlit("tls13 ");
    assert(vstd::utf8::is_ascii_chars("quic key"@));
    assert(vstd::utf8::is_ascii_chars("quic iv"@));
    assert(vstd::utf8::is_ascii_chars("tls13 "@));
    vstd::utf8::is_ascii_chars_encode_utf8("quic key"@);
    vstd::utf8::is_ascii_chars_encode_utf8("quic iv"@);
    vstd::utf8::is_ascii_chars_encode_utf8("tls13 "@);
    assert(key_label() =~= vstd::utf8::encode_utf8("quic key"@));
    assert(iv_label() =~= vstd::utf8::encode_utf8("quic iv"@));
    assert(label_prefix() =~= vstd::utf8::encode_utf8("tls13 "@));
}

/// The context for a label: how many bytes are derived, in two bytes, then the label
/// behind its prefix, with the length of both in one byte, then a context of no bytes.
pub proof fn law_label_info_layout(len: u16, label: Seq<u8>)
    requires
        label.len() <= 249,
    ensures
        ({
            let info = label_info(len, label);
            &&& info.len() == label.len() + 10
            &&& info[0] * 256 + info[1] == len
            &&& info[2] == label.len() + 6
            &&& info.subrange(3, 9) == label_prefix()
            &&& info.subrange(9, info.len() - 1) == label
            &&& info.last() == 0
        }),
{
    let info = label_info(len, label);
    assert(info.subrange(3, 9) =~= label_prefix());
    assert(info.subrange(9, info.len() - 1) =~= label);
}

/// The context in which HKDF derives `len` bytes under a label.
pub fn make_label_info(len: u16, label: &[u8]) -> (r: Vec<u8>)
    requires
        label@.len() <= 249,
    ensures
        r@ == label_info(len, label@),
{
    let prefix: [u8; 6] = [0x74, 0x6c, 0x73, 0x31, 0x33, 0x20];
    let mut info: Vec<u8> = Vec::new();
    info.extend_from_slice(&u16_to_octets(len));
    info.push(6 + label.len() as u8);
    info.extend_from_slice(&prefix);
    info.extend_from_slice(label);
    info.push(0);
    proof {
        assert(prefix@ =~= label_prefix());
        assert(info@ =~= label_info(len, label@));
    }
    info
}

} // verus!
