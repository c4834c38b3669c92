//! Certificates and private keys in PEM.

use crate::bytes;
use crate::tls::identity;
use crate::tls::identity::copy_bytes;
use rustls::crypto::Credentials;
use rustls::crypto::Identity as PresentedIdentity;
use rustls::pki_types::pem::Error as PemError;
use rustls::pki_types::pem::PemObject;
use rustls::pki_types::CertificateDer;
use rustls::pki_types::PrivateKeyDer;
use rustls::pki_types::PrivatePkcs1KeyDer;
use rustls::pki_types::PrivatePkcs8KeyDer;
use rustls::pki_types::PrivateSec1KeyDer;
use rustls::Error as TlsError;
use std::sync::Arc;
use vstd::prelude::*;

verus! {

/// The error of reading PEM.
#[verifier::external_type_specification]
#[verifier::external_body]
pub struct ExPemError(PemError);

/// A certificate chain with its private key, ready to sign.
#[verifier::external_type_specification]
#[verifier::external_body]
pub struct ExCredentials(Credentials);

/// How a private key is encoded.
#[derive(Clone, Copy, Debug, PartialEq, Eq, Structural)]
pub enum KeyKind {
    Pkcs1,
    Sec1,
    Pkcs8,
}

/// A private key.
pub struct PrivateKey {
    pub kind: KeyKind,
    pub der: Vec<u8>,
}

/// A private key, by contents.
pub struct PrivateKeyView {
    pub kind: KeyKind,
    pub der: Seq<u8>,
}

impl View for PrivateKey {
    type V = PrivateKeyView;

    open spec fn view(&self) -> PrivateKeyView {
        PrivateKeyView { kind: self.kind, der: self.der@ }
    }
}

impl Clone for PrivateKey {
    fn clone(&self) -> (r: Self)
        ensures
            r@ == self@,
    {
        PrivateKey { kind: self.kind, der: copy_bytes(&self.der) }
    }
}

/// What an endpoint shows of itself: a certificate chain, and the key that goes with
/// its first certificate.
pub struct OwnIdentity {
    pub chain: Seq<Seq<u8>>,
    pub key: PrivateKeyView,
}

/// The most bytes that a certificate chain may have that an endpoint shows. The message
/// that holds it has room for 16777215 bytes.
pub const MAX_CHAIN_LEN: usize = 0xff_0000;

/// How many bytes a certificate needs at most besides its own: its length, and the
/// length of its extensions.
pub const CERTIFICATE_HEADER_LEN: usize = 8;

/// Whether the message in which an endpoint shows a certificate chain has room for it.
pub open spec fn chain_fits(chain: Seq<Seq<u8>>) -> bool {
    bytes::listed_len(chain, CERTIFICATE_HEADER_LEN as nat) <= MAX_CHAIN_LEN
}

/// A chain fits when its certificates, with eight bytes more for each, have at most
/// 16711680 bytes, so that the message that holds it has fewer than 16777216.
pub proof fn law_chain_room(chain: Seq<Seq<u8>>)
    ensures
        chain_fits(chain) <==> bytes::listed_len(chain, 8) <= 16_711_680,
        chain_fits(Seq::empty()),
{
}

/// What `Credentials` hold.
pub uninterp spec fn held_identity(own: Credentials) -> OwnIdentity;

/// The certificates that `CertificateDer::pem_reader_iter` finds in PEM, in order,
/// unless it comes upon an error.
pub uninterp spec fn pem_certificates(pem: Seq<u8>) -> Option<Seq<Seq<u8>>>;

/// The first private key that `PrivateKeyDer::from_pem_reader` finds in PEM, unless it
/// comes upon an error or the end before it.
pub uninterp spec fn pem_private_key(pem: Seq<u8>) -> Option<PrivateKeyView>;

/// Whether `KeyProvider::load_private_key` of the TLS 1.3 provider takes a private
/// key.
pub uninterp spec fn private_key_loads(kind: KeyKind, der: Seq<u8>) -> bool;

/// `CertificateDer::pem_reader_iter`, read to the end or to the first error.
#[verifier::external_body]
pub(crate) fn read_pem_certificates(pem: &[u8]) -> (r: Result<Vec<Vec<u8>>, PemError>)
    ensures
        match r {
            Ok(certs) => pem_certificates(pem@) == Some(identity::views(certs@)),
            Err(_) => pem_certificates(pem@) is None,
        },
{
    CertificateDer::pem_reader_iter(pem).map(|cert| cert.map(|c| c.as_ref().to_vec())).collect()
}

/// `PrivateKeyDer::from_pem_reader`, with the key's kind and bytes.
#[verifier::external_body]
pub(crate) fn read_pem_private_key(pem: &[u8]) -> (r: Option<PrivateKey>)
    ensures
        match r {
            Some(key) => pem_private_key(pem@) == Some(key@),
            None => pem_private_key(pem@) is None,
        },
{
    let key = PrivateKeyDer::from_pem_reader(pem).ok()?;
    let kind = match key {
        PrivateKeyDer::Pkcs1(_) => Some(KeyKind::Pkcs1),
        PrivateKeyDer::Sec1(_) => Some(KeyKind::Sec1),
        PrivateKeyDer::Pkcs8(_) => Some(KeyKind::Pkcs8),
        _ => None,
    };
    Some(PrivateKey { kind: kind?, der: key.secret_der().to_vec() })
}

/// `Credentials::new_unchecked` on the identity that `Identity::from_cert_chain` makes
/// of a chain, which must not be empty, and the key that `KeyProvider::load_private_key`
/// of the TLS 1.3 provider loads.
///
/// It fails exactly when the key cannot be loaded.
#[verifier::external_body]
pub(crate) fn load_credentials(chain: &Vec<Vec<u8>>, key: &PrivateKey) -> (r: Result<
    Credentials,
    TlsError,
>)
    requires
        chain@.len() > 0,
    ensures
        match r {
            Ok(own) => {
                &&& private_key_loads(key.kind, key.der@)
                &&& held_identity(own) == (OwnIdentity {
                    chain: identity::views(chain@),
                    key: key@,
                })
            },
            Err(_) => !private_key_loads(key.kind, key.der@),
        },
{
    let der = match key.kind {
        KeyKind::Pkcs1 => PrivateKeyDer::from(PrivatePkcs1KeyDer::from(key.der.clone())),
        KeyKind::Sec1 => PrivateKeyDer::from(PrivateSec1KeyDer::from(key.der.clone())),
        KeyKind::Pkcs8 => PrivateKeyDer::from(PrivatePkcs8KeyDer::from(key.der.clone())),
    };
    let certs = chain.iter().map(|c| CertificateDer::from(c.clone())).collect();
    let identity = PresentedIdentity::from_cert_chain(certs).map_err(TlsError::from)?;
    let key = rustls_aws_lc_rs::DEFAULT_TLS13_PROVIDER.key_provider.load_private_key(der)?;
    Ok(Credentials::new_unchecked(Arc::new(identity), key))
}

} // verus!
