//! What is accepted that the TLS stack turns down.

use aws_lc_rs::encoding::AsDer;
use aws_lc_rs::encoding::PublicKeyX509Der;
use aws_lc_rs::rand::SystemRandom;
use aws_lc_rs::rsa::KeySize;
use aws_lc_rs::signature::EcdsaKeyPair;
use aws_lc_rs::signature::EcdsaSigningAlgorithm;
use aws_lc_rs::signature::Ed25519KeyPair;
use aws_lc_rs::signature::KeyPair;
use aws_lc_rs::signature::RsaKeyPair;
use aws_lc_rs::signature::ECDSA_P256_SHA256_ASN1_SIGNING;
use aws_lc_rs::signature::ECDSA_P384_SHA384_ASN1_SIGNING;
use aws_lc_rs::signature::ECDSA_P521_SHA512_ASN1_SIGNING;
use aws_lc_rs::signature::RSA_PKCS1_SHA256;
use aws_lc_rs::signature::RSA_PKCS1_SHA384;
use aws_lc_rs::signature::RSA_PKCS1_SHA512;
use aws_lc_rs::signature::RSA_PSS_SHA256;
use aws_lc_rs::signature::RSA_PSS_SHA384;
use aws_lc_rs::signature::RSA_PSS_SHA512;
use quiche_tls::crypto::Algorithm;
use quiche_tls::tls::connection::rustls_cipher_to_algorithm;
use quiche_tls::tls::der::encode_der_len;
use quiche_tls::tls::identity::Identity;
use quiche_tls::tls::legacy::legacy_handshake_signature_algorithm;
use quiche_tls::tls::legacy::legacy_handshake_signature_valid;
use quiche_tls::tls::legacy::legacy_identity_valid_for;
use quiche_tls::tls::legacy::SignatureAlgorithm;
use quiche_tls::tls::legacy::Signer;
use quiche_tls::tls::roots::RootAnchor;
use quiche_tls::tls::verify::accept_refused_server;
use quiche_tls::tls::verify::accept_refused_signature;
use quiche_tls::tls::verify::certificate_name_error;
use quiche_tls::tls::verify::unsupported_cert_version_error;
use quiche_tls::tls::verify::verify_identity_with_cn_fallback;
use quiche_tls::tls::verify::PeerSignature;
use quiche_tls::tls::verify::Refusal;
use quiche_tls::tls::verify::ServerClaim;

fn tlv(tag: u8, parts: &[&[u8]]) -> Vec<u8> {
    let value = parts.concat();
    let mut out = vec![tag];
    encode_der_len(value.len(), &mut out);
    out.extend_from_slice(&value);
    out
}

/// A version 1 certificate for quic.tech from 2020 to 2040.
fn certificate(signer: &RsaKeyPair, key: &RsaKeyPair) -> Vec<u8> {
    let oid = [0x2a, 0x86, 0x48, 0x86, 0xf7, 0x0d, 0x01, 0x01, 0x0b];
    let algorithm = tlv(0x30, &[&tlv(0x06, &[&oid])]);
    let validity = tlv(
        0x30,
        &[&tlv(0x17, &[b"200101000000Z"]), &tlv(0x17, &[b"401231235959Z"])],
    );
    let attribute =
        tlv(0x30, &[&tlv(0x06, &[&[0x55, 0x04, 0x03]]), &tlv(0x13, &[b"quic.tech"])]);
    let tbs = tlv(
        0x30,
        &[
            &tlv(0x02, &[&[1]]),
            &algorithm,
            &tlv(0x30, &[]),
            &validity,
            &tlv(0x30, &[&tlv(0x31, &[&attribute])]),
            &public_key(key),
        ],
    );
    let mut signature = vec![0; signer.public_modulus_len()];
    signer.sign(&RSA_PKCS1_SHA256, &SystemRandom::new(), &tbs, &mut signature).unwrap();
    tlv(0x30, &[&tbs, &algorithm, &tlv(0x03, &[&[0], &signature])])
}

fn public_key(key: &RsaKeyPair) -> Vec<u8> {
    let der: PublicKeyX509Der<'_> = key.public_key().as_der().unwrap();
    der.as_ref().to_vec()
}

/// The contents of a root's public key.
fn anchor(key: &RsaKeyPair, constrained: bool) -> RootAnchor {
    let der = public_key(key);
    let header = if der[1] < 0x80 { 2 } else { 2 + (der[1] & 0x7f) as usize };
    RootAnchor { subject: Vec::new(), public_key: der[header..].to_vec(), constrained }
}

fn generate() -> RsaKeyPair {
    RsaKeyPair::generate(KeySize::Rsa2048).unwrap()
}

const NOW: u64 = 1_800_000_000;

fn version_refusal() -> Refusal {
    Refusal::Unnamed("OtherError(UnsupportedCertVersion)".to_string())
}

#[test]
fn refusals_are_told_apart() {
    assert!(unsupported_cert_version_error(&version_refusal()));
    assert!(!unsupported_cert_version_error(&Refusal::Unnamed("UnsupportedCert".to_string())));
    assert!(!unsupported_cert_version_error(&Refusal::Name));
    assert!(!unsupported_cert_version_error(&Refusal::Other));
    assert!(certificate_name_error(&Refusal::Name));
    assert!(!certificate_name_error(&Refusal::Other));
    assert!(!certificate_name_error(&version_refusal()));
}

#[test]
fn roots_decide_about_version_1_identities() {
    let root = generate();
    let key = generate();
    let identity =
        Identity::X509 { end_entity: certificate(&root, &key), intermediates: Vec::new() };
    let good = [anchor(&key, false), anchor(&root, false)];

    assert!(legacy_identity_valid_for(&good, &identity, "quic.tech", NOW));
    assert!(legacy_identity_valid_for(&good, &identity, "QUIC.TECH", NOW));
    assert!(!legacy_identity_valid_for(&good, &identity, "quic", NOW));
    assert!(!legacy_identity_valid_for(&good[..1], &identity, "quic.tech", NOW));
    assert!(!legacy_identity_valid_for(&[], &identity, "quic.tech", NOW));
    assert!(!legacy_identity_valid_for(&[anchor(&root, true)], &identity, "quic.tech", NOW));
    assert!(legacy_identity_valid_for(&good, &identity, "quic.tech", 1_577_836_800));
    assert!(!legacy_identity_valid_for(&good, &identity, "quic.tech", 1_577_836_799));
    assert!(legacy_identity_valid_for(&good, &identity, "quic.tech", 2_240_611_199));
    assert!(!legacy_identity_valid_for(&good, &identity, "quic.tech", 2_240_611_200));
}

#[test]
fn refused_servers_are_looked_at_again() {
    let root = generate();
    let key = generate();
    let roots = [anchor(&root, false)];
    let claim = |identity: Identity, name: &str| ServerClaim {
        identity,
        server_name: name.to_string(),
        now: NOW,
    };
    let leaf = certificate(&root, &key);
    let lone = Identity::X509 { end_entity: leaf.clone(), intermediates: Vec::new() };
    let chain = Identity::X509 { end_entity: leaf.clone(), intermediates: vec![leaf.clone()] };
    let bare = Identity::RawPublicKey(leaf);

    let lone_claim = claim(lone.clone(), "quic.tech");
    assert!(accept_refused_server(&version_refusal(), &roots, &lone_claim));
    assert!(!accept_refused_server(&version_refusal(), &[], &lone_claim));
    assert!(accept_refused_server(&Refusal::Name, &[], &lone_claim));
    assert!(!accept_refused_server(&Refusal::Other, &roots, &lone_claim));
    assert!(!accept_refused_server(&Refusal::Name, &roots, &claim(lone, "other")));

    assert!(!accept_refused_server(&version_refusal(), &roots, &claim(chain.clone(), "quic.tech")));
    let chain_claim = claim(chain, "quic.tech");
    assert!(verify_identity_with_cn_fallback(&chain_claim, &Refusal::Name));
    assert!(!verify_identity_with_cn_fallback(&chain_claim, &Refusal::Other));
    assert!(!accept_refused_server(&Refusal::Name, &roots, &claim(bare, "quic.tech")));
    assert!(!accept_refused_server(&Refusal::Name, &roots, &claim(Identity::Unknown, "quic.tech")));
}

#[test]
fn schemes_stand_for_algorithms() {
    for (scheme, algorithm) in [
        (0x0201, SignatureAlgorithm::RsaPkcs1Sha1),
        (0x0401, SignatureAlgorithm::RsaPkcs1Sha256),
        (0x0501, SignatureAlgorithm::RsaPkcs1Sha384),
        (0x0601, SignatureAlgorithm::RsaPkcs1Sha512),
        (0x0804, SignatureAlgorithm::RsaPssSha256),
        (0x0805, SignatureAlgorithm::RsaPssSha384),
        (0x0806, SignatureAlgorithm::RsaPssSha512),
        (0x0403, SignatureAlgorithm::EcdsaP256Sha256),
        (0x0503, SignatureAlgorithm::EcdsaP384Sha384),
        (0x0603, SignatureAlgorithm::EcdsaP521Sha512),
        (0x0807, SignatureAlgorithm::Ed25519),
    ] {
        assert_eq!(legacy_handshake_signature_algorithm(scheme), Some(algorithm));
    }
    assert_eq!(legacy_handshake_signature_algorithm(0x0203), None);
    assert_eq!(legacy_handshake_signature_algorithm(0), None);
    assert_eq!(u16::from(rustls::crypto::SignatureScheme::RSA_PKCS1_SHA1), 0x0201);
    assert_eq!(u16::from(rustls::crypto::SignatureScheme::ECDSA_NISTP521_SHA512), 0x0603);
    assert_eq!(u16::from(rustls::crypto::SignatureScheme::ED25519), 0x0807);
}

#[test]
fn rsa_signatures_are_checked() {
    let key = generate();
    let raw = Signer::RawPublicKey(public_key(&key));
    for (scheme, padding) in [
        (0x0401, &RSA_PKCS1_SHA256 as &'static dyn aws_lc_rs::signature::RsaEncoding),
        (0x0501, &RSA_PKCS1_SHA384),
        (0x0601, &RSA_PKCS1_SHA512),
        (0x0804, &RSA_PSS_SHA256),
        (0x0805, &RSA_PSS_SHA384),
        (0x0806, &RSA_PSS_SHA512),
    ] {
        let mut signature = vec![0; key.public_modulus_len()];
        key.sign(padding, &SystemRandom::new(), b"message", &mut signature).unwrap();
        assert!(legacy_handshake_signature_valid(&raw, scheme, b"message", &signature));
        assert!(!legacy_handshake_signature_valid(&raw, scheme, b"massage", &signature));
        assert!(!legacy_handshake_signature_valid(&raw, 0x0403, b"message", &signature));
        assert!(!legacy_handshake_signature_valid(&Signer::Unknown, scheme, b"message", &signature));

        let own = Signer::X509(certificate(&key, &key));
        assert!(legacy_handshake_signature_valid(&own, scheme, b"message", &signature));
        let junk = Signer::X509(public_key(&key));
        assert!(!legacy_handshake_signature_valid(&junk, scheme, b"message", &signature));
    }
}

fn ecdsa(algorithm: &'static EcdsaSigningAlgorithm) -> (Vec<u8>, Vec<u8>) {
    let rng = SystemRandom::new();
    let pkcs8 = EcdsaKeyPair::generate_pkcs8(algorithm, &rng).unwrap();
    let key = EcdsaKeyPair::from_pkcs8(algorithm, pkcs8.as_ref()).unwrap();
    let signature = key.sign(&rng, b"message").unwrap().as_ref().to_vec();
    (key.public_key().as_ref().to_vec(), signature)
}

#[test]
fn curve_signatures_are_checked() {
    for (scheme, algorithm) in [
        (0x0403, &ECDSA_P256_SHA256_ASN1_SIGNING),
        (0x0503, &ECDSA_P384_SHA384_ASN1_SIGNING),
        (0x0603, &ECDSA_P521_SHA512_ASN1_SIGNING),
    ] {
        let (public, signature) = ecdsa(algorithm);
        let raw = Signer::RawPublicKey(public);
        assert!(legacy_handshake_signature_valid(&raw, scheme, b"message", &signature));
        assert!(!legacy_handshake_signature_valid(&raw, scheme, b"massage", &signature));
    }

    let key = Ed25519KeyPair::generate().unwrap();
    let signature = key.sign(b"message");
    let raw = Signer::RawPublicKey(key.public_key().as_ref().to_vec());
    assert!(legacy_handshake_signature_valid(&raw, 0x0807, b"message", signature.as_ref()));
    assert!(!legacy_handshake_signature_valid(&raw, 0x0807, b"massage", signature.as_ref()));
}

#[test]
fn refused_signatures_are_looked_at_again() {
    let key = Ed25519KeyPair::generate().unwrap();
    let signed = |message: &[u8]| PeerSignature {
        signer: Signer::RawPublicKey(key.public_key().as_ref().to_vec()),
        scheme: 0x0807,
        message: message.to_vec(),
        signature: key.sign(b"message").as_ref().to_vec(),
    };

    assert!(accept_refused_signature(&version_refusal(), &signed(b"message")));
    assert!(!accept_refused_signature(&version_refusal(), &signed(b"massage")));
    assert!(!accept_refused_signature(&Refusal::Name, &signed(b"message")));
    assert!(!accept_refused_signature(&Refusal::Other, &signed(b"message")));
}

#[test]
fn suites_stand_for_ciphers() {
    assert_eq!(rustls_cipher_to_algorithm(0x1301), Some(Algorithm::AES128_GCM));
    assert_eq!(rustls_cipher_to_algorithm(0x1302), Some(Algorithm::AES256_GCM));
    assert_eq!(rustls_cipher_to_algorithm(0x1303), Some(Algorithm::ChaCha20_Poly1305));
    assert_eq!(rustls_cipher_to_algorithm(0x1304), None);
    assert_eq!(rustls_cipher_to_algorithm(0xc02f), None);
}
