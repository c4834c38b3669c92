//! Version 1 certificates, which the TLS stack itself turns down.

use crate::tls::certificate;
use crate::tls::certificate::certificate_subject_public_key_info;
use crate::tls::certificate::common_name_matches_server_name;
use crate::tls::certificate::legacy_sha256_rsa_signature_algorithm;
use crate::tls::certificate::legacy_v1_certificate;
use crate::tls::certificate::valid_at;
use crate::tls::certificate::LegacyCertificate;
use crate::tls::der;
use crate::tls::der::der_sequence;
use crate::tls::identity::Identity;
use crate::tls::identity::IdentityView;
use crate::tls::roots;
use crate::tls::roots::root_list;
use crate::tls::roots::Anchor;
use crate::tls::roots::RootAnchor;
use aws_lc_rs::signature::ECDSA_P256_SHA256_ASN1;
use aws_lc_rs::signature::ECDSA_P384_SHA384_ASN1;
use aws_lc_rs::signature::ECDSA_P521_SHA512_ASN1;
use aws_lc_rs::signature::ED25519;
use aws_lc_rs::signature::RSA_PKCS1_1024_8192_SHA256_FOR_LEGACY_USE_ONLY;
use aws_lc_rs::signature::RSA_PKCS1_2048_8192_SHA1_FOR_LEGACY_USE_ONLY;
use aws_lc_rs::signature::RSA_PKCS1_2048_8192_SHA256;
use aws_lc_rs::signature::RSA_PKCS1_2048_8192_SHA384;
use aws_lc_rs::signature::RSA_PKCS1_2048_8192_SHA512;
use aws_lc_rs::signature::RSA_PSS_2048_8192_SHA256;
use aws_lc_rs::signature::RSA_PSS_2048_8192_SHA384;
use aws_lc_rs::signature::RSA_PSS_2048_8192_SHA512;
use aws_lc_rs::signature::UnparsedPublicKey;
use rustls::RootCertStore;
use vstd::prelude::*;
use vstd::string::StringSliceAdditionalSpecFns;

verus! {

/// How a signature is checked.
#[derive(Clone, Copy, Debug, PartialEq, Eq, Structural)]
pub enum SignatureAlgorithm {
    /// RSA over SHA-256 with keys from 1024 bits on, for certificates only.
    CertificateRsaSha256,
    RsaPkcs1Sha1,
    RsaPkcs1Sha256,
    RsaPkcs1Sha384,
    RsaPkcs1Sha512,
    RsaPssSha256,
    RsaPssSha384,
    RsaPssSha512,
    EcdsaP256Sha256,
    EcdsaP384Sha384,
    EcdsaP521Sha512,
    Ed25519,
}

/// What `signature::UnparsedPublicKey::verify` says of a signature.
pub uninterp spec fn signature_verifies(
    algorithm: SignatureAlgorithm,
    public_key: Seq<u8>,
    message: Seq<u8>,
    signature: Seq<u8>,
) -> bool;

/// `signature::UnparsedPublicKey::verify` with the constant that stands for the
/// algorithm.
#[verifier::external_body]
fn verify_signature(
    algorithm: SignatureAlgorithm,
    public_key: &[u8],
    message: &[u8],
    signature: &[u8],
) -> (r: bool)
    ensures
        r == signature_verifies(algorithm, public_key@, message@, signature@),
{
    let a: &'static dyn aws_lc_rs::signature::VerificationAlgorithm = match algorithm {
        SignatureAlgorithm::CertificateRsaSha256 => &RSA_PKCS1_1024_8192_SHA256_FOR_LEGACY_USE_ONLY,
        SignatureAlgorithm::RsaPkcs1Sha1 => &RSA_PKCS1_2048_8192_SHA1_FOR_LEGACY_USE_ONLY,
        SignatureAlgorithm::RsaPkcs1Sha256 => &RSA_PKCS1_2048_8192_SHA256,
        SignatureAlgorithm::RsaPkcs1Sha384 => &RSA_PKCS1_2048_8192_SHA384,
        SignatureAlgorithm::RsaPkcs1Sha512 => &RSA_PKCS1_2048_8192_SHA512,
        SignatureAlgorithm::RsaPssSha256 => &RSA_PSS_2048_8192_SHA256,
        SignatureAlgorithm::RsaPssSha384 => &RSA_PSS_2048_8192_SHA384,
        SignatureAlgorithm::RsaPssSha512 => &RSA_PSS_2048_8192_SHA512,
        SignatureAlgorithm::EcdsaP256Sha256 => &ECDSA_P256_SHA256_ASN1,
        SignatureAlgorithm::EcdsaP384Sha384 => &ECDSA_P384_SHA384_ASN1,
        SignatureAlgorithm::EcdsaP521Sha512 => &ECDSA_P521_SHA512_ASN1,
        SignatureAlgorithm::Ed25519 => &ED25519,
    };
    UnparsedPublicKey::new(a, public_key).verify(message, signature).is_ok()
}

/// The algorithm that a TLS signature scheme stands for, if version 1 certificates
/// may be used with it.
pub open spec fn scheme_algorithm(scheme: u16) -> Option<SignatureAlgorithm> {
    if scheme == 0x0201 {
        Some(SignatureAlgorithm::RsaPkcs1Sha1)
    } else if scheme == 0x0401 {
        Some(SignatureAlgorithm::RsaPkcs1Sha256)
    } else if scheme == 0x0501 {
        Some(SignatureAlgorithm::RsaPkcs1Sha384)
    } else if scheme == 0x0601 {
        Some(SignatureAlgorithm::RsaPkcs1Sha512)
    } else if scheme == 0x0804 {
        Some(SignatureAlgorithm::RsaPssSha256)
    } else if scheme == 0x0805 {
        Some(SignatureAlgorithm::RsaPssSha384)
    } else if scheme == 0x0806 {
        Some(SignatureAlgorithm::RsaPssSha512)
    } else if scheme == 0x0403 {
        Some(SignatureAlgorithm::EcdsaP256Sha256)
    } else if scheme == 0x0503 {
        Some(SignatureAlgorithm::EcdsaP384Sha384)
    } else if scheme == 0x0603 {
        Some(SignatureAlgorithm::EcdsaP521Sha512)
    } else if scheme == 0x0807 {
        Some(SignatureAlgorithm::Ed25519)
    } else {
        None
    }
}

/// The algorithm that a TLS signature scheme stands for.
pub fn legacy_handshake_signature_algorithm(scheme: u16) -> (r: Option<SignatureAlgorithm>)
    ensures
        r == scheme_algorithm(scheme),
{
    match scheme {
        0x0201 => Some(SignatureAlgorithm::RsaPkcs1Sha1),
        0x0401 => Some(SignatureAlgorithm::RsaPkcs1Sha256),
        0x0501 => Some(SignatureAlgorithm::RsaPkcs1Sha384),
        0x0601 => Some(SignatureAlgorithm::RsaPkcs1Sha512),
        0x0804 => Some(SignatureAlgorithm::RsaPssSha256),
        0x0805 => Some(SignatureAlgorithm::RsaPssSha384),
        0x0806 => Some(SignatureAlgorithm::RsaPssSha512),
        0x0403 => Some(SignatureAlgorithm::EcdsaP256Sha256),
        0x0503 => Some(SignatureAlgorithm::EcdsaP384Sha384),
        0x0603 => Some(SignatureAlgorithm::EcdsaP521Sha512),
        0x0807 => Some(SignatureAlgorithm::Ed25519),
        _ => None,
    }
}

/// Whether a root without constraints signed the certificate.
pub open spec fn root_signed(root: Anchor, fields: certificate::LegacyFields) -> bool {
    !root.constrained && signature_verifies(
        SignatureAlgorithm::CertificateRsaSha256,
        der::sequence_of(root.public_key),
        fields.tbs,
        fields.signature,
    )
}

/// Whether one of the roots signed the certificate.
pub open spec fn some_root_signed(list: Seq<Anchor>, fields: certificate::LegacyFields) -> bool {
    exists|i: int| 0 <= i < list.len() && root_signed(#[trigger] list[i], fields)
}

/// Whether an identity is a lone version 1 certificate that is good for a server:
/// it names the server, the time lies in its validity period, and one of the roots
/// signed it with RSA over SHA-256.
pub open spec fn legacy_identity_valid(
    list: Seq<Anchor>,
    identity: IdentityView,
    server_name: Seq<u8>,
    now: u64,
) -> bool {
    match identity {
        IdentityView::X509 { end_entity, intermediates } => {
            &&& intermediates.len() == 0
            &&& certificate::is_named(end_entity, server_name)
            &&& certificate::legacy_fields(end_entity) matches Some(fields)
            &&& fields.not_before <= now <= fields.not_after
            &&& certificate::is_sha256_rsa(fields.signature_algorithm)
            &&& some_root_signed(list, fields)
        },
        _ => false,
    }
}

/// What the library looks at of each root.
pub open spec fn anchor_views(list: Seq<RootAnchor>) -> Seq<Anchor> {
    list.map_values(|a: RootAnchor| a@)
}

/// Whether one of the roots signed the certificate.
pub fn signed_by_a_root(list: &[RootAnchor], cert: &LegacyCertificate<'_>) -> (r: bool)
    ensures
        r == some_root_signed(anchor_views(list@), cert@),
{
    let mut i: usize = 0;
    while i < list.len()
        invariant
            i <= list@.len(),
            forall|j: int| 0 <= j < i ==> !root_signed(#[trigger] anchor_views(list@)[j], cert@),
        decreases list@.len() - i,
    {
        proof {
            assert(anchor_views(list@)[i as int] == list@[i as int]@);
        }
        if !list[i].constrained {
            let public_key: Vec<u8> = der_sequence(&list[i].public_key);
            if verify_signature(
                SignatureAlgorithm::CertificateRsaSha256,
                &public_key,
                cert.tbs,
                cert.signature,
            ) {
                return true;
            }
        }
        i = i + 1;
    }
    false
}

/// Whether an identity is a lone version 1 certificate that is good for a server,
/// given the roots one by one.
pub fn legacy_identity_valid_for(
    list: &[RootAnchor],
    identity: &Identity,
    server_name: &str,
    now: u64,
) -> (r: bool)
    ensures
        r == legacy_identity_valid(
            anchor_views(list@),
            identity@,
            server_name.spec_bytes(),
            now,
        ),
{
    match identity {
        Identity::X509 { end_entity, intermediates } => {
            if intermediates.len() != 0 || !common_name_matches_server_name(
                end_entity,
                server_name,
            ) {
                return false;
            }
            match legacy_v1_certificate(end_entity) {
                None => false,
                Some(cert) => valid_at(&cert, now) && legacy_sha256_rsa_signature_algorithm(
                    cert.signature_algorithm,
                ) && signed_by_a_root(list, &cert),
            }
        },
        _ => false,
    }
}

/// Whether an identity is a lone version 1 certificate that is good for a server.
pub fn legacy_v1_server_identity_valid(
    root_store: &RootCertStore,
    identity: &Identity,
    server_name: &str,
    now: u64,
) -> (r: bool)
    ensures
        r == legacy_identity_valid(
            roots::anchors(*root_store),
            identity@,
            server_name.spec_bytes(),
            now,
        ),
{
    let list: Vec<RootAnchor> = root_list(root_store);
    proof {
        assert(anchor_views(list@) =~= roots::anchors(*root_store));
    }
    legacy_identity_valid_for(&list, identity, server_name, now)
}

/// Who signed a handshake.
pub enum Signer {
    /// The holder of a certificate.
    X509(Vec<u8>),
    /// The holder of a bare public key.
    RawPublicKey(Vec<u8>),
    /// Someone that the library cannot make out.
    Unknown,
}

/// Who signed a handshake, by contents.
pub enum SignerView {
    X509(Seq<u8>),
    RawPublicKey(Seq<u8>),
    Unknown,
}

impl View for Signer {
    type V = SignerView;

    open spec fn view(&self) -> SignerView {
        match self {
            Signer::X509(cert) => SignerView::X509(cert@),
            Signer::RawPublicKey(key) => SignerView::RawPublicKey(key@),
            Signer::Unknown => SignerView::Unknown,
        }
    }
}

/// The public key that a handshake's signature is checked with. A certificate must
/// be of version 1.
pub open spec fn signer_key(signer: SignerView) -> Option<Seq<u8>> {
    match signer {
        SignerView::X509(cert) => if certificate::legacy_fields(cert) is Some {
            certificate::public_key_of(cert)
        } else {
            None
        },
        SignerView::RawPublicKey(key) => Some(key),
        SignerView::Unknown => None,
    }
}

/// Whether a handshake's signature is good.
pub open spec fn handshake_signature_valid(
    signer: SignerView,
    scheme: u16,
    message: Seq<u8>,
    signature: Seq<u8>,
) -> bool {
    match (scheme_algorithm(scheme), signer_key(signer)) {
        (Some(algorithm), Some(key)) => signature_verifies(algorithm, key, message, signature),
        _ => false,
    }
}

/// Whether a handshake's signature is good.
pub fn legacy_handshake_signature_valid(
    signer: &Signer,
    scheme: u16,
    message: &[u8],
    signature: &[u8],
) -> (r: bool)
    ensures
        r == handshake_signature_valid(signer@, scheme, message@, signature@),
{
    let algorithm: SignatureAlgorithm = match legacy_handshake_signature_algorithm(scheme) {
        None => {
            return false;
        },
        Some(algorithm) => algorithm,
    };
    let public_key: &[u8] = match signer {
        Signer::X509(cert) => {
            if legacy_v1_certificate(cert).is_none() {
                return false;
            }
            match certificate_subject_public_key_info(cert) {
                None => {
                    return false;
                },
                Some(key) => key,
            }
        },
        Signer::RawPublicKey(key) => key,
        Signer::Unknown => {
            return false;
        },
    };
    verify_signature(algorithm, public_key, message, signature)
}

/// A version 1 identity that is good at one time is good at every other time in
/// the certificate's validity period, and at no other.
pub proof fn law_legacy_validity_is_a_period(
    list: Seq<Anchor>,
    identity: IdentityView,
    server_name: Seq<u8>,
    now: u64,
    other: u64,
)
    requires
        legacy_identity_valid(list, identity, server_name, now),
    ensures
        identity matches IdentityView::X509 { end_entity, .. } && legacy_identity_valid(
            list,
            identity,
            server_name,
            other,
        ) == (certificate::legacy_fields(end_entity)->0.not_before <= other
            <= certificate::legacy_fields(end_entity)->0.not_after),
{
}

/// More roots never make a good identity bad, and no roots make none good.
pub proof fn law_roots_only_add_trust(
    list: Seq<Anchor>,
    more: Seq<Anchor>,
    identity: IdentityView,
    server_name: Seq<u8>,
    now: u64,
)
    ensures
        legacy_identity_valid(list, identity, server_name, now) ==> legacy_identity_valid(
            list + more,
            identity,
            server_name,
            now,
        ),
        !legacy_identity_valid(Seq::empty(), identity, server_name, now),
{
    if legacy_identity_valid(list, identity, server_name, now) {
        if let IdentityView::X509 { end_entity, intermediates } = identity {
            let fields = certificate::legacy_fields(end_entity)->0;
            let i = choose|i: int| 0 <= i < list.len() && root_signed(#[trigger] list[i], fields);
            assert((list + more)[i] == list[i]);
        }
    }
}

/// The schemes that version 1 certificates may be used with, by their numbers, and what
/// they stand for. There are no others.
pub proof fn law_schemes(scheme: u16)
    ensures
        scheme_algorithm(0x0201) == Some(SignatureAlgorithm::RsaPkcs1Sha1),
        scheme_algorithm(0x0401) == Some(SignatureAlgorithm::RsaPkcs1Sha256),
        scheme_algorithm(0x0501) == Some(SignatureAlgorithm::RsaPkcs1Sha384),
        scheme_algorithm(0x0601) == Some(SignatureAlgorithm::RsaPkcs1Sha512),
        scheme_algorithm(0x0804) == Some(SignatureAlgorithm::RsaPssSha256),
        scheme_algorithm(0x0805) == Some(SignatureAlgorithm::RsaPssSha384),
        scheme_algorithm(0x0806) == Some(SignatureAlgorithm::RsaPssSha512),
        scheme_algorithm(0x0403) == Some(SignatureAlgorithm::EcdsaP256Sha256),
        scheme_algorithm(0x0503) == Some(SignatureAlgorithm::EcdsaP384Sha384),
        scheme_algorithm(0x0603) == Some(SignatureAlgorithm::EcdsaP521Sha512),
        scheme_algorithm(0x0807) == Some(SignatureAlgorithm::Ed25519),
        scheme_algorithm(scheme) is Some ==> seq![
            0x0201u16, 0x0401, 0x0501, 0x0601, 0x0804, 0x0805, 0x0806, 0x0403, 0x0503, 0x0603,
            0x0807,
        ].contains(scheme),
{
    let known = seq![
        0x0201u16, 0x0401, 0x0501, 0x0601, 0x0804, 0x0805, 0x0806, 0x0403, 0x0503, 0x0603, 0x0807,
    ];
    assert(known[0] == 0x0201 && known[1] == 0x0401 && known[2] == 0x0501 && known[3] == 0x0601
        && known[4] == 0x0804 && known[5] == 0x0805 && known[6] == 0x0806 && known[7] == 0x0403
        && known[8] == 0x0503 && known[9] == 0x0603 && known[10] == 0x0807);
}

/// What a version 1 identity is good for, spelled out: it is a lone certificate with the
/// server's name as a common name, the time lies in its validity period with both ends,
/// it is signed with RSA over SHA-256, and the key of a root without constraints verifies
/// the signature over its signed part.
pub proof fn law_good_legacy_identity(
    list: Seq<Anchor>,
    identity: IdentityView,
    server_name: Seq<u8>,
    now: u64,
)
    ensures
        legacy_identity_valid(list, identity, server_name, now) <==> {
            let fields = certificate::legacy_fields(identity->end_entity)->0;
            &&& identity is X509
            &&& identity->intermediates.len() == 0
            &&& certificate::is_named(identity->end_entity, server_name)
            &&& certificate::legacy_fields(identity->end_entity) is Some
            &&& fields.not_before <= now
            &&& now <= fields.not_after
            &&& certificate::is_sha256_rsa(fields.signature_algorithm)
            &&& exists|i: int|
                0 <= i < list.len() && !(#[trigger] list[i]).constrained && signature_verifies(
                    SignatureAlgorithm::CertificateRsaSha256,
                    der::sequence_of(list[i].public_key),
                    fields.tbs,
                    fields.signature,
                )
        },
{
    if identity is X509 && certificate::legacy_fields(identity->end_entity) is Some {
        let fields = certificate::legacy_fields(identity->end_entity)->0;
        if some_root_signed(list, fields) {
            let i = choose|i: int| 0 <= i < list.len() && root_signed(#[trigger] list[i], fields);
            assert(!list[i].constrained);
        }
        if exists|i: int|
            0 <= i < list.len() && !(#[trigger] list[i]).constrained && signature_verifies(
                SignatureAlgorithm::CertificateRsaSha256,
                der::sequence_of(list[i].public_key),
                fields.tbs,
                fields.signature,
            ) {
            let i = choose|i: int|
                0 <= i < list.len() && !(#[trigger] list[i]).constrained && signature_verifies(
                    SignatureAlgorithm::CertificateRsaSha256,
                    der::sequence_of(list[i].public_key),
                    fields.tbs,
                    fields.signature,
                );
            assert(root_signed(list[i], fields));
        }
    }
}

/// A handshake's signature is good when its scheme is known, the signer has a key, and
/// the key verifies the signature over the message by the scheme's algorithm. A
/// certificate of version 1 has its public key, any other certificate has none here, and a
/// bare key is a key itself.
pub proof fn law_good_handshake_signature(
    signer: SignerView,
    scheme: u16,
    message: Seq<u8>,
    signature: Seq<u8>,
)
    ensures
        handshake_signature_valid(signer, scheme, message, signature) <==> {
            &&& scheme_algorithm(scheme) is Some
            &&& match signer {
                SignerView::X509(cert) => certificate::legacy_fields(cert) is Some
                    && signature_verifies(
                    scheme_algorithm(scheme)->0,
                    certificate::public_key_of(cert)->0,
                    message,
                    signature,
                ),
                SignerView::RawPublicKey(key) => signature_verifies(
                    scheme_algorithm(scheme)->0,
                    key,
                    message,
                    signature,
                ),
                SignerView::Unknown => false,
            }
        },
{
    if let SignerView::X509(cert) = signer {
        if certificate::legacy_fields(cert) is Some {
            certificate::law_legacy_certificate_has_key_and_subject(cert);
        }
    }
}

/// Roots are looked at one by one, in order. A signer shows what it holds.
pub proof fn law_roots_keep_their_order(list: Seq<RootAnchor>, i: int, signer: Signer)
    ensures
        anchor_views(list).len() == list.len(),
        0 <= i < list.len() ==> anchor_views(list)[i] == (Anchor {
            subject: list[i].subject@,
            public_key: list[i].public_key@,
            constrained: list[i].constrained,
        }),
        signer is X509 ==> signer@ == SignerView::X509(signer->X509_0@),
        signer is RawPublicKey ==> signer@ == SignerView::RawPublicKey(signer->RawPublicKey_0@),
        signer is Unknown ==> signer@ is Unknown,
{
}

} // verus!
