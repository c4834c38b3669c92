//! Packet protection on top of the TLS stack's provider.
//!
//! A process may install a provider of its own, so what a provider computes is not
//! known here. What is known is what it is asked for, and what is done with the
//! answer.

use crate::bytes;
use crate::bytes::copy_at;
use crate::crypto::Algorithm;
use crate::crypto::HeaderProtectionMask;
use crate::crypto::TAG_LEN;
use crate::error::Error;
use crate::outside::ask_providers;
use crate::outside::ask_suites;
use crate::outside::ask_tag_size;
use crate::outside::draw_from_provider;
use crate::outside::Draw;
use crate::outside::Providers;
use crate::outside::Suites;
use crate::outside::TagSize;
use rustls::crypto::cipher::AeadKey;
use rustls::crypto::cipher::Iv;
use rustls::crypto::tls13::OkmBlock;
use rustls::crypto::CryptoProvider;
use rustls::quic::KeyBuilder;
use rustls::quic::Keys;
use rustls::quic::PacketKeySet;
use rustls::quic::Side;
use rustls::quic::Version;
use rustls::Error as TlsError;
use rustls::Tls13CipherSuite;
use std::sync::Arc;
use vstd::prelude::*;
use vstd::slice::slice_subrange;

verus! {

/// A provider of cryptography.
#[verifier::external_type_specification]
#[verifier::external_body]
pub struct ExCryptoProvider(CryptoProvider);

/// A TLS 1.3 cipher suite.
#[verifier::external_type_specification]
#[verifier::external_body]
pub struct ExTls13CipherSuite(Tls13CipherSuite);

/// Packet keys of both directions.
#[verifier::external_type_specification]
#[verifier::external_body]
pub struct ExPacketKeySet(PacketKeySet);

/// Packet and header keys of both directions.
#[verifier::external_type_specification]
#[verifier::external_body]
pub struct ExKeys(Keys);

/// The longest secret that the TLS stack takes.
pub const MAX_SECRET_LEN: usize = 64;

/// The longest initialisation vector that the TLS stack takes.
pub const MAX_IV_LEN: usize = 16;

/// A cipher suite of a provider, with its number.
pub struct QuicSuite {
    /// The number that stands for the suite.
    pub number: u16,
    /// Whether the suite can protect packets.
    pub quic: bool,
    /// The suite itself.
    pub suite: &'static Tls13CipherSuite,
}

impl QuicSuite {
    /// The number and the flag are the suite's own.
    pub open spec fn well_formed(&self) -> bool {
        self.number == suite_id(*self.suite) && self.quic == has_quic(*self.suite)
    }

    /// The same suite.
    pub fn duplicate(&self) -> (r: Self)
        ensures
            r == *self,
    {
        QuicSuite { number: self.number, quic: self.quic, suite: self.suite }
    }
}

/// The number that stands for a `Tls13CipherSuite`.
pub uninterp spec fn suite_id(suite: Tls13CipherSuite) -> u16;

/// Whether the field `quic` of a `Tls13CipherSuite` is there, so that it can protect
/// packets.
pub uninterp spec fn has_quic(suite: Tls13CipherSuite) -> bool;

/// What a packet key was made from.
pub enum KeySource {
    /// A key and an initialisation vector.
    Given { alg: Algorithm, key: Seq<u8>, iv: Seq<u8> },
    /// A traffic secret.
    Derived { alg: Algorithm, secret: Seq<u8> },
}

/// What initial keys were made from.
pub struct InitialSource {
    /// The client's first connection ID.
    pub cid: Seq<u8>,
    pub is_server: bool,
    pub version: QuicVersion,
}

/// What packet keys hold: the key and vector, or the secret, that they were made from.
pub uninterp spec fn made_from(keys: PacketKeySet) -> KeySource;

/// What initial keys hold: the connection that they were made for.
pub uninterp spec fn initial_source(keys: Keys) -> InitialSource;

/// Whether a provider may give that ciphertext with its tag, or fail, when it is asked
/// to seal. Providers differ, so this is all that is known of the answer.
pub uninterp spec fn may_seal(
    source: KeySource,
    counter: u64,
    ad: Seq<u8>,
    plaintext: Seq<u8>,
    sealed: Option<Seq<u8>>,
) -> bool;

/// Whether a provider may give that plaintext, or fail, when it is asked to open.
/// Providers differ, so this is all that is known of the answer.
pub uninterp spec fn may_open(
    source: KeySource,
    counter: u64,
    ad: Seq<u8>,
    sealed: Seq<u8>,
    plaintext: Option<Seq<u8>>,
) -> bool;

/// Whether a provider may give that header, its first byte and its packet number, or
/// fail, when it is asked to protect one. Providers differ, so this is all that is
/// known of the answer.
pub uninterp spec fn may_protect(
    alg: Algorithm,
    key: Seq<u8>,
    sample: Seq<u8>,
    header: (u8, Seq<u8>),
    protected: Option<(u8, Seq<u8>)>,
) -> bool;

/// Whether a provider may give those bytes, or fail, when it is asked to expand a
/// secret. Providers differ, so this is all that is known of the answer.
pub uninterp spec fn may_expand(
    alg: Algorithm,
    secret: Seq<u8>,
    info: Seq<u8>,
    len: nat,
    okm: Option<Seq<u8>>,
) -> bool;

/// Whether a provider may give that tag with the hash of a suite, by the suite's
/// number. Providers differ, so this is all that is known of the answer.
pub uninterp spec fn may_tag(suite: u16, key: Seq<u8>, data: Seq<u8>, tag: Seq<u8>) -> bool;

/// `CryptoProvider::get_default`: the provider that the process installed, if it did.
#[verifier::external_body]
pub(crate) fn installed_provider() -> Option<Arc<CryptoProvider>> {
    CryptoProvider::get_default().cloned()
}

/// The constant `DEFAULT_TLS13_PROVIDER`.
#[verifier::external_body]
pub(crate) fn built_in_provider() -> Arc<CryptoProvider> {
    Arc::new(rustls_aws_lc_rs::DEFAULT_TLS13_PROVIDER)
}

/// The field `tls13_cipher_suites` of a provider, with what each suite holds in its
/// fields `suite` and `quic`. Which suites there are is left to the provider.
#[verifier::external_body]
pub(crate) fn provider_suites(provider: &CryptoProvider) -> (r: Vec<QuicSuite>)
    ensures
        forall|i: int|
            0 <= i < r@.len() ==> (#[trigger] r@[i]).number == suite_id(*r@[i].suite)
                && r@[i].quic == has_quic(*r@[i].suite),
{
    provider.tls13_cipher_suites.iter().map(|suite| QuicSuite {
        number: u16::from(suite.common.suite),
        quic: suite.quic.is_some(),
        suite: *suite,
    }).collect()
}

/// `SecureRandom::fill` of a provider. The bytes are left to chance, so only their
/// number is claimed.
#[verifier::external_body]
pub(crate) fn provider_random(provider: &CryptoProvider, buf: &mut [u8]) -> (r: bool)
    ensures
        final(buf)@.len() == old(buf)@.len(),
{
    provider.secure_random.fill(buf).is_ok()
}

/// The provider that the process installed, or else the built-in one.
pub fn choose_provider(
    installed: Option<Arc<CryptoProvider>>,
    built_in: Arc<CryptoProvider>,
) -> (r: Arc<CryptoProvider>)
    ensures
        r == match installed {
            Some(provider) => provider,
            None => built_in,
        },
{
    match installed {
        Some(provider) => provider,
        None => built_in,
    }
}

/// The provider in use, of those that there are: the one that the process installed, or
/// else the built-in one.
pub open spec fn in_use(providers: Providers) -> Arc<CryptoProvider> {
    match providers.installed() {
        Some(provider) => provider,
        None => providers.built_in(),
    }
}

/// Whether suites are those of the provider in use.
pub open spec fn are_in_use(suites: Suites, providers: Providers) -> bool {
    suites.provider() == *in_use(providers)
}

/// Whether there is a suite with a number that can protect packets.
pub open spec fn has_suite(list: Seq<QuicSuite>, number: u16) -> bool {
    exists|i: int| 0 <= i < list.len() && suite_matches(#[trigger] list[i], number)
}

/// Whether a suite is the first with a number that can protect packets.
pub open spec fn is_first_suite(list: Seq<QuicSuite>, number: u16, suite: QuicSuite) -> bool {
    exists|i: int|
        0 <= i < list.len() && #[trigger] list[i] == suite && suite_matches(suite, number)
            && forall|j: int| 0 <= j < i ==> !suite_matches(#[trigger] list[j], number)
}

/// The provider that is in use. There always is one.
pub fn default_provider() -> (r: Result<Arc<CryptoProvider>, Error>)
    ensures
        r is Ok,
        exists|providers: Providers| r->Ok_0 == #[trigger] in_use(providers),
{
    let (installed, built_in, providers) = ask_providers();
    proof {
        assert(in_use(providers@) == match installed {
            Some(provider) => provider,
            None => built_in,
        });
    }
    Ok(choose_provider(installed, built_in))
}

/// Fills `buf` with random bytes. Fails only when the provider gives none.
pub fn fill_random(buf: &mut [u8]) -> (r: Result<(), Error>)
    ensures
        final(buf)@.len() == old(buf)@.len(),
        r matches Err(e) ==> e == Error::CryptoFail,
        exists|draw: Draw, providers: Providers|
            #![trigger draw.bytes(), in_use(providers)]
            draw.source() == Some(*in_use(providers)) && draw.bytes() == if r is Ok {
                Some(final(buf)@)
            } else {
                None
            },
{
    let provider: Arc<CryptoProvider> = match default_provider() {
        Err(_) => {
            return Err(Error::CryptoFail);
        },
        Ok(provider) => provider,
    };
    let (drawn, draw): (bool, Ghost<Draw>) = draw_from_provider(&provider, buf);
    proof {
        assert(draw@.bytes() == if drawn {
            Some(buf@)
        } else {
            None
        });
    }
    if drawn {
        Ok(())
    } else {
        Err(Error::CryptoFail)
    }
}

/// The number of the cipher suite that goes with a cipher.
pub open spec fn suite_number(alg: Algorithm) -> u16 {
    match alg {
        Algorithm::AES128_GCM => 0x1301,
        Algorithm::AES256_GCM => 0x1302,
        Algorithm::ChaCha20_Poly1305 => 0x1303,
    }
}

/// Whether a suite is the one with a number, and can protect packets.
pub open spec fn suite_matches(suite: QuicSuite, number: u16) -> bool {
    suite.number == number && suite.quic
}

/// Whether a suite is the one with a number, and can protect packets, by what it holds
/// itself.
pub open spec fn suite_serves(suite: QuicSuite, number: u16) -> bool {
    suite.well_formed() && suite_matches(suite, number)
}

/// Secrets of up to 64 bytes are taken, so every traffic secret is, and initialisation
/// vectors of up to 16.
pub proof fn law_input_limits(alg: Algorithm)
    ensures
        MAX_SECRET_LEN == 64,
        MAX_IV_LEN == 16,
        alg.digest().size() <= MAX_SECRET_LEN,
{
}

/// Whether a secret is taken goes by its length and by the suites of the provider in use
/// alone: it has at most 64 bytes, and one of the suites has the number of the cipher's
/// suite and can protect packets. So of two secrets of at most 64 bytes both are taken,
/// or none.
pub proof fn law_secret_is_taken_by_length_and_suite(
    alg: Algorithm,
    list: Seq<QuicSuite>,
    one: nat,
    other: nat,
    takes_one: bool,
    takes_other: bool,
)
    requires
        takes_one == (one <= MAX_SECRET_LEN && has_suite(list, suite_number(alg))),
        takes_other == (other <= MAX_SECRET_LEN && has_suite(list, suite_number(alg))),
    ensures
        takes_one <==> one <= 64 && exists|i: int|
            0 <= i < list.len() && (#[trigger] list[i]).quic && list[i].number == match alg {
                Algorithm::AES128_GCM => 0x1301u16,
                Algorithm::AES256_GCM => 0x1302,
                Algorithm::ChaCha20_Poly1305 => 0x1303,
            },
        one <= 64 && other <= 64 ==> takes_one == takes_other,
        other > 64 ==> !takes_other,
{
    let number = suite_number(alg);
    if has_suite(list, number) {
        let k = choose|k: int| 0 <= k < list.len() && suite_matches(#[trigger] list[k], number);
        assert(list[k].quic && list[k].number == number);
    }
    if exists|i: int| 0 <= i < list.len() && (#[trigger] list[i]).quic && list[i].number == number {
        let i = choose|i: int|
            0 <= i < list.len() && (#[trigger] list[i]).quic && list[i].number == number;
        assert(suite_matches(list[i], number));
    }
}

/// The provider in use is the one that the process installed. Without one it is the
/// built-in one.
pub proof fn law_installed_provider_is_used(providers: Providers, suites: Suites)
    ensures
        providers.installed() is Some ==> in_use(providers) == providers.installed()->0,
        providers.installed() is None ==> in_use(providers) == providers.built_in(),
        are_in_use(suites, providers) && providers.installed() is Some ==> suites.provider()
            == *providers.installed()->0,
        are_in_use(suites, providers) && providers.installed() is None ==> suites.provider()
            == *providers.built_in(),
{
}

/// Each cipher has a suite of its own, by these numbers.
pub proof fn law_suite_numbers()
    ensures
        suite_number(Algorithm::AES128_GCM) == 0x1301,
        suite_number(Algorithm::AES256_GCM) == 0x1302,
        suite_number(Algorithm::ChaCha20_Poly1305) == 0x1303,
{
}

/// A suite serves when it has the number and can protect packets. There is one exactly
/// when one of the list serves, and the first of these is taken: none before it serves.
pub proof fn law_first_fitting_suite_is_taken(
    list: Seq<QuicSuite>,
    number: u16,
    suite: QuicSuite,
    i: int,
)
    requires
        0 <= i < list.len(),
    ensures
        suite_serves(suite, number) ==> suite_id(*suite.suite) == number && has_quic(*suite.suite),
        list[i].number == number && list[i].quic ==> has_suite(list, number),
        has_suite(list, number) ==> exists|k: int|
            0 <= k < list.len() && (#[trigger] list[k]).number == number && list[k].quic,
        is_first_suite(list, number, suite) ==> suite.number == number && suite.quic,
        is_first_suite(list, number, suite) && list[i].number == number && list[i].quic ==> exists|
            k: int,
        | 0 <= k <= i && #[trigger] list[k] == suite,
{
    if list[i].number == number && list[i].quic {
        assert(suite_matches(list[i], number));
    }
    if has_suite(list, number) {
        let k = choose|k: int| 0 <= k < list.len() && suite_matches(#[trigger] list[k], number);
        assert(list[k].number == number && list[k].quic);
    }
}

/// The first suite with a number that can protect packets.
pub fn find_suite(suites: &Vec<QuicSuite>, number: u16) -> (r: Option<usize>)
    ensures
        match r {
            Some(i) => i < suites@.len() && suite_matches(suites@[i as int], number) && forall|
                j: int,
            |
                0 <= j < i ==> !suite_matches(#[trigger] suites@[j], number),
            None => forall|j: int|
                0 <= j < suites@.len() ==> !suite_matches(#[trigger] suites@[j], number),
        },
{
    let mut i: usize = 0;
    while i < suites.len()
        invariant
            i <= suites@.len(),
            forall|j: int| 0 <= j < i ==> !suite_matches(#[trigger] suites@[j], number),
        decreases suites@.len() - i,
    {
        if suites[i].number == number && suites[i].quic {
            return Some(i);
        }
        i = i + 1;
    }
    None
}

/// The suite with a number of the provider in use, if it can protect packets.
pub fn tls13_suite_for_cipher_suite(number: u16) -> (r: Result<QuicSuite, Error>)
    ensures
        match r {
            Ok(suite) => suite_serves(suite, number),
            Err(e) => e == Error::CryptoFail,
        },
        exists|suites: Suites, providers: Providers| #[trigger]
            are_in_use(suites, providers) && r is Ok == has_suite(suites.list(), number) && (r is Ok
                ==> is_first_suite(suites.list(), number, r->Ok_0)),
{
    let provider: Arc<CryptoProvider> = match default_provider() {
        Err(_) => {
            return Err(Error::CryptoFail);
        },
        Ok(provider) => provider,
    };
    let (suites, asked): (Vec<QuicSuite>, Ghost<Suites>) = ask_suites(&provider);
    proof {
        let providers = choose|providers: Providers| provider == #[trigger] in_use(providers);
        assert(are_in_use(asked@, providers));
    }
    match find_suite(&suites, number) {
        Some(i) => Ok(suites[i].duplicate()),
        None => Err(Error::CryptoFail),
    }
}

/// The suite that goes with a cipher.
pub fn tls13_suite_for_algorithm(alg: Algorithm) -> (r: Result<QuicSuite, Error>)
    ensures
        match r {
            Ok(suite) => suite_serves(suite, suite_number(alg)),
            Err(e) => e == Error::CryptoFail,
        },
        exists|suites: Suites, providers: Providers| #[trigger]
            are_in_use(suites, providers) && r is Ok == has_suite(
                suites.list(),
                suite_number(alg),
            ) && (r is Ok ==> is_first_suite(suites.list(), suite_number(alg), r->Ok_0)),
{
    tls13_suite_for_cipher_suite(
        match alg {
            Algorithm::AES128_GCM => 0x1301,
            Algorithm::AES256_GCM => 0x1302,
            Algorithm::ChaCha20_Poly1305 => 0x1303,
        },
    )
}

/// A key of one of the sizes that the TLS stack takes.
pub enum AeadKeyBytes {
    Short([u8; 16]),
    Long([u8; 32]),
}

impl View for AeadKeyBytes {
    type V = Seq<u8>;

    open spec fn view(&self) -> Seq<u8> {
        match self {
            AeadKeyBytes::Short(key) => key@,
            AeadKeyBytes::Long(key) => key@,
        }
    }
}

/// Takes a key of 16 or 32 bytes.
pub fn aead_key_from_slice(key: &[u8]) -> (r: Result<AeadKeyBytes, Error>)
    ensures
        match r {
            Ok(k) => k@ == key@ && (k is Short == (key@.len() == 16)) && (k is Long == (key@.len()
                == 32)),
            Err(e) => key@.len() != 16 && key@.len() != 32 && e == Error::CryptoFail,
        },
{
    if key.len() == 16 {
        let mut out: [u8; 16] = [0; 16];
        let mut i: usize = 0;
        while i < 16
            invariant
                i <= 16,
                key@.len() == 16,
                forall|j: int| 0 <= j < i ==> out@[j] == key@[j],
            decreases 16 - i,
        {
            out[i] = key[i];
            i = i + 1;
        }
        proof {
            assert(out@ =~= key@);
        }
        Ok(AeadKeyBytes::Short(out))
    } else if key.len() == 32 {
        let mut out: [u8; 32] = [0; 32];
        let mut i: usize = 0;
        while i < 32
            invariant
                i <= 32,
                key@.len() == 32,
                forall|j: int| 0 <= j < i ==> out@[j] == key@[j],
            decreases 32 - i,
        {
            out[i] = key[i];
            i = i + 1;
        }
        proof {
            assert(out@ =~= key@);
        }
        Ok(AeadKeyBytes::Long(out))
    } else {
        Err(Error::CryptoFail)
    }
}

/// `quic::Algorithm::packet_key` of a suite, once for each direction, with the vector
/// that `Iv::new` makes. A key of another size than the suite's makes it panic.
///
/// On a suite that can protect packets it fails exactly when the vector has more than
/// 16 bytes.
#[verifier::external_body]
fn packet_keys(suite: &QuicSuite, alg: Algorithm, key: &AeadKeyBytes, iv: &[u8]) -> (r: Option<
    PacketKeySet,
>)
    requires
        suite_serves(*suite, suite_number(alg)),
        key@.len() == alg.key_size(),
    ensures
        r is Some == (iv@.len() <= MAX_IV_LEN),
        r matches Some(keys) ==> made_from(keys) == (KeySource::Given { alg, key: key@, iv: iv@ }),
{
    let quic = suite.suite.quic?;
    let (a, b) = match key {
        AeadKeyBytes::Short(bytes) => (AeadKey::from(*bytes), AeadKey::from(*bytes)),
        AeadKeyBytes::Long(bytes) => (AeadKey::from(*bytes), AeadKey::from(*bytes)),
    };
    Some(PacketKeySet {
        local: quic.packet_key(a, Iv::new(iv).ok()?),
        remote: quic.packet_key(b, Iv::new(iv).ok()?),
    })
}

/// `quic::KeyBuilder::packet_key` of a suite, once for each direction. It does not fail
/// on a suite that can protect packets. `OkmBlock::new` panics on a secret of more than
/// 64 bytes.
#[verifier::external_body]
fn packet_keys_from_secret(suite: &QuicSuite, alg: Algorithm, secret: &[u8]) -> (r: Option<
    PacketKeySet,
>)
    requires
        suite_serves(*suite, suite_number(alg)),
        secret@.len() <= MAX_SECRET_LEN,
    ensures
        r is Some,
        made_from(r->0) == (KeySource::Derived { alg, secret: secret@ }),
{
    let quic = suite.suite.quic?;
    let secret = OkmBlock::new(secret);
    let builder = KeyBuilder::new(&secret, Version::V1, quic, suite.suite.hkdf_provider);
    Some(PacketKeySet { local: builder.packet_key(), remote: builder.packet_key() })
}

/// `quic::PacketKey::tag_len` of the key that seals.
#[verifier::external_body]
pub(crate) fn key_tag_len(keys: &PacketKeySet) -> usize {
    keys.local.tag_len()
}

/// `quic::PacketKey::encrypt_in_place` on a copy of the plaintext: the ciphertext, which
/// is as long, and the tag, which has 16 bytes.
#[verifier::external_body]
fn key_encrypt(keys: &PacketKeySet, counter: u64, ad: &[u8], plaintext: &[u8]) -> (r: Result<
    (Vec<u8>, Vec<u8>),
    TlsError,
>)
    ensures
        match r {
            Ok((ciphertext, tag)) => {
                &&& ciphertext@.len() == plaintext@.len()
                &&& tag@.len() == 16
                &&& may_seal(
                    made_from(*keys),
                    counter,
                    ad@,
                    plaintext@,
                    Some(ciphertext@ + tag@),
                )
            },
            Err(_) => may_seal(made_from(*keys), counter, ad@, plaintext@, None),
        },
{
    let mut buf = plaintext.to_vec();
    let tag = keys.local.encrypt_in_place(counter, ad, &mut buf, None)?;
    Ok((buf, tag.as_ref().to_vec()))
}

/// `quic::PacketKey::decrypt_in_place` on a copy of ciphertext and tag: the plaintext,
/// which is a part of it.
#[verifier::external_body]
fn key_decrypt(keys: &PacketKeySet, counter: u64, ad: &[u8], sealed: &[u8]) -> (r: Result<
    Vec<u8>,
    TlsError,
>)
    ensures
        match r {
            Ok(plaintext) => {
                &&& plaintext@.len() <= sealed@.len()
                &&& may_open(made_from(*keys), counter, ad@, sealed@, Some(plaintext@))
            },
            Err(_) => may_open(made_from(*keys), counter, ad@, sealed@, None),
        },
{
    let mut buf = sealed.to_vec();
    Ok(keys.remote.decrypt_in_place(counter, ad, &mut buf, None)?.to_vec())
}

/// Puts ciphertext and tag into the front of `buf`, for which it has room.
pub fn place_sealed(buf: &mut [u8], ciphertext: &[u8], tag: &[u8]) -> (r: usize)
    requires
        ciphertext@.len() + tag@.len() <= old(buf)@.len(),
    ensures
        r == ciphertext@.len() + tag@.len(),
        final(buf)@ == bytes::spliced(old(buf)@, 0, ciphertext@ + tag@),
{
    let n: usize = buf.len();
    copy_at(buf, 0, ciphertext);
    copy_at(buf, ciphertext.len(), tag);
    proof {
        assert(buf@ =~= bytes::spliced(old(buf)@, 0, ciphertext@ + tag@));
        assert(n == old(buf)@.len());
    }
    ciphertext.len() + tag.len()
}

/// A key that protects the payload of packets.
pub struct PacketKey {
    keys: PacketKeySet,
    tag_len: usize,
}

impl PacketKey {
    /// How many bytes an authentication tag has.
    pub closed spec fn tag_size(&self) -> nat {
        self.tag_len as nat
    }

    /// Whether the tags have the size that the provider says of the key.
    pub open spec fn has_own_tag_size(&self) -> bool {
        exists|asked: TagSize| #[trigger]
            asked.size() == self.tag_size() && made_from(asked.keys()) == self.source()
    }

    /// What the key was made from.
    pub closed spec fn source(&self) -> KeySource {
        made_from(self.keys)
    }

    /// Takes a key of 16 or 32 bytes, which must be the cipher's key size, and an
    /// initialisation vector of at most 16. Fails too when the provider has no suite
    /// for the cipher.
    pub fn new(alg: Algorithm, key: Vec<u8>, iv: Vec<u8>, _enc: u32) -> (r: Result<Self, Error>)
        requires
            key@.len() == 16 || key@.len() == 32 ==> key@.len() == alg.key_size(),
        ensures
            match r {
                Ok(k) => {
                    &&& key@.len() == alg.key_size()
                    &&& iv@.len() <= MAX_IV_LEN
                    &&& k.source() == (KeySource::Given { alg, key: key@, iv: iv@ })
                },
                Err(e) => e == Error::CryptoFail,
            },
            r is Ok ==> r->Ok_0.has_own_tag_size(),
            exists|suites: Suites, providers: Providers| #[trigger]
                are_in_use(suites, providers) && r is Ok == (key@.len() == alg.key_size()
                    && iv@.len() <= MAX_IV_LEN && has_suite(suites.list(), suite_number(alg))),
    {
        match tls13_suite_for_algorithm(alg) {
            Ok(suite) => PacketKey::with_suite(&suite, alg, &key, &iv),
            Err(e) => Err(e),
        }
    }

    /// Takes a key of 16 or 32 bytes, which must be the cipher's key size, and an
    /// initialisation vector of at most 16, for the suite of the cipher.
    pub fn with_suite(suite: &QuicSuite, alg: Algorithm, key: &[u8], iv: &[u8]) -> (r: Result<
        Self,
        Error,
    >)
        requires
            suite_serves(*suite, suite_number(alg)),
            key@.len() == 16 || key@.len() == 32 ==> key@.len() == alg.key_size(),
        ensures
            r is Ok == (key@.len() == alg.key_size() && iv@.len() <= MAX_IV_LEN),
            match r {
                Ok(k) => k.source() == (KeySource::Given { alg, key: key@, iv: iv@ }),
                Err(e) => e == Error::CryptoFail,
            },
            r is Ok ==> r->Ok_0.has_own_tag_size(),
    {
        let key: AeadKeyBytes = match aead_key_from_slice(key) {
            Err(e) => {
                return Err(e);
            },
            Ok(key) => key,
        };
        match packet_keys(suite, alg, &key, iv) {
            Some(keys) => {
                let (tag_len, asked): (usize, Ghost<TagSize>) = ask_tag_size(&keys);
                proof {
                    assert(asked@.size() == tag_len);
                }
                Ok(PacketKey { keys, tag_len })
            },
            None => Err(Error::CryptoFail),
        }
    }

    /// Derives the key and the initialisation vector from a traffic secret of at
    /// most 64 bytes. Fails too when the provider has no suite for the cipher.
    pub fn from_secret(alg: Algorithm, secret: &[u8], _enc: u32) -> (r: Result<Self, Error>)
        ensures
            match r {
                Ok(k) => {
                    &&& secret@.len() <= MAX_SECRET_LEN
                    &&& k.source() == (KeySource::Derived { alg, secret: secret@ })
                },
                Err(e) => e == Error::CryptoFail,
            },
            r is Ok ==> r->Ok_0.has_own_tag_size(),
            exists|suites: Suites, providers: Providers| #[trigger]
                are_in_use(suites, providers) && r is Ok == (secret@.len() <= MAX_SECRET_LEN
                    && has_suite(suites.list(), suite_number(alg))),
    {
        match tls13_suite_for_algorithm(alg) {
            Ok(suite) => PacketKey::from_secret_with_suite(&suite, alg, secret),
            Err(e) => Err(e),
        }
    }

    /// Derives the key and the initialisation vector from a traffic secret of at
    /// most 64 bytes, with the suite of the cipher.
    pub fn from_secret_with_suite(suite: &QuicSuite, alg: Algorithm, secret: &[u8]) -> (r: Result<
        Self,
        Error,
    >)
        requires
            suite_serves(*suite, suite_number(alg)),
        ensures
            r is Ok == (secret@.len() <= MAX_SECRET_LEN),
            match r {
                Ok(k) => k.source() == (KeySource::Derived { alg, secret: secret@ }),
                Err(e) => e == Error::CryptoFail,
            },
            r is Ok ==> r->Ok_0.has_own_tag_size(),
    {
        if secret.len() > MAX_SECRET_LEN {
            return Err(Error::CryptoFail);
        }
        match packet_keys_from_secret(suite, alg, secret) {
            Some(keys) => {
                let (tag_len, asked): (usize, Ghost<TagSize>) = ask_tag_size(&keys);
                proof {
                    assert(asked@.size() == tag_len);
                }
                Ok(PacketKey { keys, tag_len })
            },
            None => Err(Error::CryptoFail),
        }
    }

    /// Opens what fills `buf`, ciphertext and tag, and leaves the plaintext in its
    /// front. Gives the plaintext's length.
    pub fn open_with_u64_counter(&self, counter: u64, ad: &[u8], buf: &mut [u8]) -> (r: Result<
        usize,
        Error,
    >)
        ensures
            match r {
                Ok(n) => exists|plaintext: Seq<u8>|
                    {
                        &&& #[trigger] may_open(
                            self.source(),
                            counter,
                            ad@,
                            old(buf)@,
                            Some(plaintext),
                        )
                        &&& n == plaintext.len()
                        &&& n <= old(buf)@.len()
                        &&& final(buf)@ == bytes::spliced(old(buf)@, 0, plaintext)
                    },
                Err(e) => {
                    &&& e == Error::CryptoFail
                    &&& final(buf)@ == old(buf)@
                    &&& may_open(self.source(), counter, ad@, old(buf)@, None)
                },
            },
    {
        match key_decrypt(&self.keys, counter, ad, buf) {
            Ok(plaintext) => {
                copy_at(buf, 0, &plaintext);
                Ok(plaintext.len())
            },
            Err(_) => Err(Error::CryptoFail),
        }
    }

    /// Seals the first `in_len` bytes of `buf` and then the extra plaintext, in
    /// place. The tag follows. Gives the length of it all, for which `buf` must
    /// have room.
    pub fn seal_with_u64_counter(
        &self,
        counter: u64,
        ad: &[u8],
        buf: &mut [u8],
        in_len: usize,
        extra_in: Option<&[u8]>,
    ) -> (r: Result<usize, Error>)
        requires
            in_len + self.tag_size() + extra_bytes(extra_in).len() <= usize::MAX,
        ensures
            ({
                let total = in_len + self.tag_size() + extra_bytes(extra_in).len();
                let plaintext = old(buf)@.take(in_len as int) + extra_bytes(extra_in);
                match r {
                    Ok(n) => exists|sealed: Seq<u8>|
                        {
                            &&& #[trigger] may_seal(
                                self.source(),
                                counter,
                                ad@,
                                plaintext,
                                Some(sealed),
                            )
                            &&& n == total
                            &&& n == sealed.len()
                            &&& n <= old(buf)@.len()
                            &&& final(buf)@ == bytes::spliced(old(buf)@, 0, sealed)
                        },
                    Err(e) => {
                        &&& e == Error::CryptoFail
                        &&& if total > old(buf)@.len() {
                            final(buf)@ == old(buf)@
                        } else {
                            &&& final(buf)@ == bytes::spliced(
                                old(buf)@,
                                in_len as int,
                                extra_bytes(extra_in),
                            )
                            &&& self.tag_size() == TAG_LEN ==> may_seal(
                                self.source(),
                                counter,
                                ad@,
                                plaintext,
                                None,
                            )
                        }
                    },
                }
            }),
            in_len + self.tag_size() + extra_bytes(extra_in).len() > old(buf)@.len() ==> r is Err,
    {
        let extra_len: usize = match extra_in {
            Some(extra) => extra.len(),
            None => 0,
        };
        let plaintext_len: usize = in_len + extra_len;
        if plaintext_len + self.tag_len > buf.len() {
            return Err(Error::CryptoFail);
        }
        match extra_in {
            Some(extra) => copy_at(buf, in_len, extra),
            None => {},
        }
        let plaintext: &[u8] = slice_subrange(buf, 0, plaintext_len);
        proof {
            assert(plaintext@ =~= old(buf)@.take(in_len as int) + extra_bytes(extra_in));
            assert(buf@ =~= bytes::spliced(old(buf)@, in_len as int, extra_bytes(extra_in)));
        }
        match key_encrypt(&self.keys, counter, ad, plaintext) {
            Ok((ciphertext, tag)) => {
                if tag.len() != self.tag_len {
                    return Err(Error::CryptoFail);
                }
                let n: usize = place_sealed(buf, &ciphertext, &tag);
                proof {
                    assert(buf@ =~= bytes::spliced(old(buf)@, 0, ciphertext@ + tag@));
                }
                Ok(n)
            },
            Err(_) => Err(Error::CryptoFail),
        }
    }
}

/// Tags have the size that the provider said of a key from the same source.
pub proof fn law_tag_size_is_the_providers(key: PacketKey)
    requires
        key.has_own_tag_size(),
    ensures
        exists|asked: TagSize| #[trigger]
            asked.size() == key.tag_size() && made_from(asked.keys()) == key.source(),
{
}

/// Extra plaintext that is there counts with all its bytes, and none counts as nothing.
pub proof fn law_extra_plaintext(extra: &[u8])
    ensures
        extra_bytes(Some(extra)) == extra@,
        extra_bytes(None).len() == 0,
{
}

/// The extra plaintext, none if it is missing.
pub open spec fn extra_bytes(extra: Option<&[u8]>) -> Seq<u8> {
    match extra {
        Some(e) => e@,
        None => Seq::empty(),
    }
}

/// `quic::Algorithm::header_protection_key` of a suite. A key of another size than the
/// suite's makes it panic. Gives whether the suite can protect packets, which one that
/// serves the cipher can.
#[verifier::external_body]
fn header_key_builds(suite: &QuicSuite, alg: Algorithm, key: &AeadKeyBytes) -> (r: bool)
    requires
        suite_serves(*suite, suite_number(alg)),
        key@.len() == alg.key_size(),
    ensures
        r,
{
    let key = match key {
        AeadKeyBytes::Short(bytes) => AeadKey::from(*bytes),
        AeadKeyBytes::Long(bytes) => AeadKey::from(*bytes),
    };
    suite.suite.quic.map(|quic| quic.header_protection_key(key)).is_some()
}

/// `quic::HeaderProtectionKey::encrypt_in_place`: the first byte and the packet number
/// under the mask for a sample. A key of another size than the suite's makes it
/// panic.
#[verifier::external_body]
fn header_encrypt(
    suite: &QuicSuite,
    alg: Algorithm,
    key: &AeadKeyBytes,
    sample: &[u8],
    header: (u8, [u8; 4]),
) -> (r: Option<(u8, [u8; 4])>)
    requires
        suite_serves(*suite, suite_number(alg)),
        key@.len() == alg.key_size(),
    ensures
        match r {
            Some((first, number)) => may_protect(
                alg,
                key@,
                sample@,
                (header.0, header.1@),
                Some((first, number@)),
            ),
            None => may_protect(alg, key@, sample@, (header.0, header.1@), None),
        },
{
    let key = match key {
        AeadKeyBytes::Short(bytes) => AeadKey::from(*bytes),
        AeadKeyBytes::Long(bytes) => AeadKey::from(*bytes),
    };
    let (mut first, mut number) = header;
    let header_key = suite.suite.quic?.header_protection_key(key);
    header_key.encrypt_in_place(sample, &mut first, &mut number).ok()?;
    Some((first, number))
}

/// The header that is protected to see the mask: a first byte of 3, and a packet
/// number of 0.
pub open spec fn blank_header() -> (u8, Seq<u8>) {
    (0x03, seq![0u8, 0, 0, 0])
}

/// The mask that turned a first byte of 3 and a packet number of 0 into what they
/// are now. Of the first byte it covers five bits.
pub open spec fn mask_of(first: u8, number: Seq<u8>) -> Seq<u8> {
    seq![(first ^ 0x03) & 0x1f, number[0], number[1], number[2], number[3]]
}

/// The mask that turned a first byte of 3 and a packet number of 0 into what they
/// are now.
pub fn make_mask(first: u8, number: [u8; 4]) -> (r: HeaderProtectionMask)
    ensures
        r@ == mask_of(first, number@),
{
    let mask: [u8; 5] = [(first ^ 0x03) & 0x1f, number[0], number[1], number[2], number[3]];
    proof {
        assert(mask@ =~= mask_of(first, number@));
    }
    mask
}

/// The header that is protected to see the mask has a packet number of four bytes, all of
/// them 0, as its first byte says. A mask has five bytes, of which the first shows the
/// bits that a header of either form has under protection.
pub proof fn law_mask_shows_what_changed(first: u8, number: Seq<u8>)
    requires
        number.len() == 4,
    ensures
        blank_header() == (3u8, seq![0u8, 0, 0, 0]),
        mask_of(first, number).len() == 5,
        mask_of(first, number)[0] == (first ^ 3) & 31,
        mask_of(first, number).skip(1) == number,
        mask_of(3, seq![0u8, 0, 0, 0]) == seq![0u8, 0, 0, 0, 0],
{
    assert((3u8 ^ 3) & 31 == 0) by (bit_vector);
    assert(mask_of(first, number).skip(1) =~= number);
    assert(mask_of(3, seq![0u8, 0, 0, 0]) =~= seq![0u8, 0, 0, 0, 0]);
}

/// A mask is found again, its first byte as far as it covers a header.
pub proof fn law_mask_is_found(mask: Seq<u8>)
    requires
        mask.len() == 5,
    ensures
        mask_of((0x03 ^ (mask[0] & 0x1f)) as u8, mask.skip(1)) == mask.update(
            0,
            mask[0] & 0x1f,
        ),
{
    let m = mask[0];
    assert(((0x03u8 ^ (m & 0x1f)) ^ 0x03) & 0x1f == m & 0x1f) by (bit_vector);
    assert(mask_of((0x03 ^ (m & 0x1f)) as u8, mask.skip(1)) =~= mask.update(0, m & 0x1f));
}

/// A key that protects the headers of packets.
pub struct HeaderProtectionKey {
    alg: Algorithm,
    suite: QuicSuite,
    key: AeadKeyBytes,
}

impl HeaderProtectionKey {
    /// The cipher.
    pub closed spec fn alg(&self) -> Algorithm {
        self.alg
    }

    /// The key's bytes.
    pub closed spec fn key(&self) -> Seq<u8> {
        self.key@
    }

    #[verifier::type_invariant]
    spec fn suite_fits(&self) -> bool {
        suite_serves(self.suite, suite_number(self.alg)) && self.key@.len() == self.alg.key_size()
    }

    /// Takes a key of 16 or 32 bytes, which must be the cipher's key size. Fails too
    /// when the provider has no suite for the cipher.
    pub fn new(alg: Algorithm, hp_key: Vec<u8>) -> (r: Result<Self, Error>)
        requires
            hp_key@.len() == 16 || hp_key@.len() == 32 ==> hp_key@.len() == alg.key_size(),
        ensures
            match r {
                Ok(k) => k.alg() == alg && k.key() == hp_key@ && hp_key@.len() == alg.key_size(),
                Err(e) => e == Error::CryptoFail,
            },
            exists|suites: Suites, providers: Providers| #[trigger]
                are_in_use(suites, providers) && r is Ok == (hp_key@.len() == alg.key_size()
                    && has_suite(suites.list(), suite_number(alg))),
    {
        match tls13_suite_for_algorithm(alg) {
            Ok(suite) => HeaderProtectionKey::with_suite(&suite, alg, &hp_key),
            Err(e) => Err(e),
        }
    }

    /// Takes a key of 16 or 32 bytes, which must be the cipher's key size, for the suite
    /// of the cipher.
    pub fn with_suite(suite: &QuicSuite, alg: Algorithm, hp_key: &[u8]) -> (r: Result<Self, Error>)
        requires
            suite_serves(*suite, suite_number(alg)),
            hp_key@.len() == 16 || hp_key@.len() == 32 ==> hp_key@.len() == alg.key_size(),
        ensures
            r is Ok == (hp_key@.len() == alg.key_size()),
            match r {
                Ok(k) => k.alg() == alg && k.key() == hp_key@,
                Err(e) => e == Error::CryptoFail,
            },
    {
        let key: AeadKeyBytes = match aead_key_from_slice(hp_key) {
            Err(e) => {
                return Err(e);
            },
            Ok(key) => key,
        };
        if header_key_builds(suite, alg, &key) {
            Ok(HeaderProtectionKey { alg, suite: suite.duplicate(), key })
        } else {
            Err(Error::CryptoFail)
        }
    }

    /// The mask for a sample. The provider may turn the sample down.
    pub fn new_mask(&self, sample: &[u8]) -> (r: Result<HeaderProtectionMask, Error>)
        ensures
            match r {
                Ok(mask) => exists|first: u8, number: Seq<u8>|
                    {
                        &&& #[trigger] may_protect(
                            self.alg(),
                            self.key(),
                            sample@,
                            blank_header(),
                            Some((first, number)),
                        )
                        &&& number.len() == 4
                        &&& mask@ == mask_of(first, number)
                    },
                Err(e) => e == Error::CryptoFail && may_protect(
                    self.alg(),
                    self.key(),
                    sample@,
                    blank_header(),
                    None,
                ),
            },
    {
        proof {
            use_type_invariant(self);
        }
        let header: (u8, [u8; 4]) = (0x03, [0, 0, 0, 0]);
        proof {
            assert(header.1@ =~= blank_header().1);
        }
        match header_encrypt(&self.suite, self.alg, &self.key, sample, header) {
            Some((first, number)) => {
                proof {
                    assert(may_protect(
                        self.alg(),
                        self.key(),
                        sample@,
                        blank_header(),
                        Some((first, number@)),
                    ));
                    assert(number@.len() == 4);
                }
                Ok(make_mask(first, number))
            },
            None => Err(Error::CryptoFail),
        }
    }
}

impl Clone for HeaderProtectionKey {
    /// A key with the same cipher and bytes.
    fn clone(&self) -> (r: Self)
        ensures
            r.alg() == self.alg(),
            r.key() == self.key(),
    {
        proof {
            use_type_invariant(self);
        }
        let key: AeadKeyBytes = match &self.key {
            AeadKeyBytes::Short(bytes) => AeadKeyBytes::Short(*bytes),
            AeadKeyBytes::Long(bytes) => AeadKeyBytes::Long(*bytes),
        };
        HeaderProtectionKey { alg: self.alg, suite: self.suite.duplicate(), key }
    }
}

/// `Hkdf::expander_for_okm` of a suite and `HkdfExpander::expand_slice`, which fails when
/// more than 255 hashes of output are asked for. `OkmBlock::new` panics on a secret of
/// more than 64 bytes.
#[verifier::external_body]
fn suite_expand(suite: &QuicSuite, alg: Algorithm, secret: &[u8], info: &[u8], len: usize) -> (r:
    Option<Vec<u8>>)
    requires
        suite_serves(*suite, suite_number(alg)),
        secret@.len() <= MAX_SECRET_LEN,
    ensures
        match r {
            Some(okm) => okm@.len() == len && may_expand(
                alg,
                secret@,
                info@,
                len as nat,
                Some(okm@),
            ),
            None => may_expand(alg, secret@, info@, len as nat, None),
        },
{
    let expander = suite.suite.hkdf_provider.expander_for_okm(&OkmBlock::new(secret));
    let mut out = vec![0; len];
    expander.expand_slice(&[info], &mut out).ok()?;
    Some(out)
}

/// HKDF-Expand: fills `out` from a secret of at most 64 bytes in the context `info`.
/// Fails too when the provider has no suite for the cipher or gives too few bytes.
pub fn hkdf_expand(alg: Algorithm, out: &mut [u8], secret: &[u8], info: &[u8]) -> (r: Result<
    (),
    Error,
>)
    ensures
        match r {
            Ok(_) => {
                &&& secret@.len() <= MAX_SECRET_LEN
                &&& final(out)@.len() == old(out)@.len()
                &&& may_expand(alg, secret@, info@, old(out)@.len(), Some(final(out)@))
            },
            Err(e) => e == Error::CryptoFail && final(out)@ == old(out)@,
        },
        exists|suites: Suites, providers: Providers| #[trigger]
            are_in_use(suites, providers) && (r is Err ==> secret@.len() > MAX_SECRET_LEN
                || !has_suite(suites.list(), suite_number(alg)) || may_expand(
                alg,
                secret@,
                info@,
                old(out)@.len(),
                None,
            )),
{
    match tls13_suite_for_algorithm(alg) {
        Ok(suite) => hkdf_expand_with_suite(&suite, alg, out, secret, info),
        Err(e) => Err(e),
    }
}

/// HKDF-Expand with the suite of a cipher. Fails exactly when the secret has more than
/// 64 bytes, or the provider does.
pub fn hkdf_expand_with_suite(
    suite: &QuicSuite,
    alg: Algorithm,
    out: &mut [u8],
    secret: &[u8],
    info: &[u8],
) -> (r: Result<(), Error>)
    requires
        suite_serves(*suite, suite_number(alg)),
    ensures
        match r {
            Ok(_) => {
                &&& secret@.len() <= MAX_SECRET_LEN
                &&& final(out)@.len() == old(out)@.len()
                &&& may_expand(alg, secret@, info@, old(out)@.len(), Some(final(out)@))
            },
            Err(e) => {
                &&& e == Error::CryptoFail
                &&& final(out)@ == old(out)@
                &&& secret@.len() > MAX_SECRET_LEN || may_expand(
                    alg,
                    secret@,
                    info@,
                    old(out)@.len(),
                    None,
                )
            },
        },
{
    if secret.len() > MAX_SECRET_LEN {
        return Err(Error::CryptoFail);
    }
    match suite_expand(suite, alg, secret, info, out.len()) {
        Some(okm) => {
            copy_at(out, 0, &okm);
            proof {
                assert(out@ =~= okm@);
            }
            Ok(())
        },
        None => Err(Error::CryptoFail),
    }
}

/// Whether two byte strings are the same, found by looking at all of both.
pub fn backend_verify_slices_are_equal(a: &[u8], b: &[u8]) -> (r: Result<(), Error>)
    ensures
        r == if a@ == b@ {
            Ok::<(), Error>(())
        } else {
            Err(Error::CryptoFail)
        },
{
    if a.len() != b.len() {
        return Err(Error::CryptoFail);
    }
    let mut diff: u8 = 0;
    let mut i: usize = 0;
    proof {
        assert(a@.take(0) =~= b@.take(0));
    }
    while i < a.len()
        invariant
            i <= a@.len(),
            a@.len() == b@.len(),
            diff == 0 <==> a@.take(i as int) == b@.take(i as int),
        decreases a@.len() - i,
    {
        let x: u8 = a[i];
        let y: u8 = b[i];
        proof {
            let p = a@.take(i + 1);
            let q = b@.take(i + 1);
            assert(p.drop_last() =~= a@.take(i as int));
            assert(q.drop_last() =~= b@.take(i as int));
            assert((diff | (x ^ y)) == 0 <==> diff == 0 && x == y) by (bit_vector);
            assert(p.last() == x && q.last() == y);
            if diff == 0 && x == y {
                assert(p =~= p.drop_last().push(x));
                assert(q =~= q.drop_last().push(y));
            }
        }
        diff = diff | (x ^ y);
        i = i + 1;
    }
    proof {
        assert(a@.take(i as int) =~= a@);
        assert(b@.take(i as int) =~= b@);
    }
    if diff == 0 {
        Ok(())
    } else {
        Err(Error::CryptoFail)
    }
}

/// `Hkdf::hmac_sign` of a suite. `OkmBlock::new` panics on a key of more than 64 bytes.
#[verifier::external_body]
fn suite_hmac(suite: &QuicSuite, key: &[u8], data: &[u8]) -> (r: Vec<u8>)
    requires
        suite.well_formed(),
        key@.len() <= MAX_SECRET_LEN,
    ensures
        may_tag(suite.number, key@, data@, r@),
{
    suite.suite.hkdf_provider.hmac_sign(&OkmBlock::new(key), data).as_ref().to_vec()
}

/// A tag of 32 bytes, as an array. Tags of other sizes are not taken.
pub fn tag_array(tag: &[u8]) -> (r: Result<[u8; 32], Error>)
    ensures
        match r {
            Ok(out) => out@ == tag@,
            Err(e) => tag@.len() != 32 && e == Error::CryptoFail,
        },
{
    match aead_key_from_slice(tag) {
        Ok(AeadKeyBytes::Long(out)) => Ok(out),
        _ => Err(Error::CryptoFail),
    }
}

/// The HMAC of `data` under `key`, which has at most 64 bytes, with SHA-256. Fails too
/// when the provider has no suite for it or gives a tag of another size.
pub fn hmac_sha256(key: &[u8], data: &[u8]) -> (r: Result<[u8; 32], Error>)
    ensures
        match r {
            Ok(tag) => key@.len() <= MAX_SECRET_LEN && may_tag(0x1301, key@, data@, tag@),
            Err(e) => e == Error::CryptoFail,
        },
        exists|suites: Suites, providers: Providers| #[trigger]
            are_in_use(suites, providers) && (r is Err ==> key@.len() > MAX_SECRET_LEN
                || !has_suite(suites.list(), 0x1301) || exists|tag: Seq<u8>| #[trigger]
                may_tag(0x1301, key@, data@, tag) && tag.len() != 32),
{
    match tls13_suite_for_cipher_suite(0x1301) {
        Ok(suite) => hmac_with_suite(&suite, key, data),
        Err(e) => Err(e),
    }
}

/// The HMAC of `data` under `key` with the hash of a suite. Fails exactly when the key
/// has more than 64 bytes, or the tag not 32.
pub fn hmac_with_suite(suite: &QuicSuite, key: &[u8], data: &[u8]) -> (r: Result<[u8; 32], Error>)
    requires
        suite.well_formed(),
    ensures
        match r {
            Ok(tag) => key@.len() <= MAX_SECRET_LEN && may_tag(
                suite.number,
                key@,
                data@,
                tag@,
            ),
            Err(e) => {
                &&& e == Error::CryptoFail
                &&& key@.len() > MAX_SECRET_LEN || exists|tag: Seq<u8>| #[trigger]
                    may_tag(suite.number, key@, data@, tag) && tag.len() != 32
            },
        },
{
    if key.len() > MAX_SECRET_LEN {
        return Err(Error::CryptoFail);
    }
    let tag: Vec<u8> = suite_hmac(suite, key, data);
    tag_array(&tag)
}

/// The version of QUIC that keys are derived for.
#[derive(Clone, Copy, Debug, PartialEq, Eq, Structural)]
pub enum QuicVersion {
    V1,
}

/// The version of QUIC that keys are derived for: the first, whatever version a
/// connection uses.
pub fn rustls_quic_version(_version: u32) -> (r: QuicVersion)
    ensures
        r == QuicVersion::V1,
{
    QuicVersion::V1
}

/// `quic::Suite::keys` of a suite that can protect packets: the initial keys of a
/// connection. It does not fail on such a suite.
#[verifier::external_body]
fn suite_keys(suite: &QuicSuite, cid: &[u8], is_server: bool, version: QuicVersion) -> (r: Option<
    Keys,
>)
    requires
        suite_serves(*suite, 0x1301),
    ensures
        r is Some,
        initial_source(r->0) == (InitialSource { cid: cid@, is_server, version }),
{
    let side = match is_server {
        true => Side::Server,
        false => Side::Client,
    };
    let version = match version {
        QuicVersion::V1 => Version::V1,
    };
    Some(suite.suite.quic_suite()?.keys(cid, side, version))
}

/// The initial keys of a connection, from the client's first connection ID. Fails
/// only when the provider has no suite for them.
pub fn initial_keys(cid: &[u8], version: u32, is_server: bool) -> (r: Result<Keys, Error>)
    ensures
        match r {
            Ok(keys) => initial_source(keys) == (InitialSource {
                cid: cid@,
                is_server,
                version: QuicVersion::V1,
            }),
            Err(e) => e == Error::CryptoFail,
        },
        exists|suites: Suites, providers: Providers| #[trigger]
            are_in_use(suites, providers) && r is Ok == has_suite(suites.list(), 0x1301),
{
    match tls13_suite_for_cipher_suite(0x1301) {
        Ok(suite) => initial_keys_with_suite(&suite, cid, version, is_server),
        Err(e) => Err(e),
    }
}

/// The initial keys of a connection, from the client's first connection ID, with a suite
/// for them.
pub fn initial_keys_with_suite(
    suite: &QuicSuite,
    cid: &[u8],
    version: u32,
    is_server: bool,
) -> (r: Result<Keys, Error>)
    requires
        suite_serves(*suite, 0x1301),
    ensures
        r is Ok,
        initial_source(r->Ok_0) == (InitialSource {
            cid: cid@,
            is_server,
            version: QuicVersion::V1,
        }),
{
    match suite_keys(suite, cid, is_server, rustls_quic_version(version)) {
        Some(keys) => Ok(keys),
        None => Err(Error::CryptoFail),
    }
}

} // verus!
