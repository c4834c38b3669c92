//! Handshakes between a client and a server of the library.

use std::collections::hash_map::DefaultHasher;
use std::hash::Hasher;
use std::sync::Arc;

use aws_lc_rs::encoding::AsDer;
use aws_lc_rs::encoding::Pkcs8V1Der;
use aws_lc_rs::encoding::PublicKeyX509Der;
use aws_lc_rs::rand::SystemRandom;
use aws_lc_rs::rsa::KeySize;
use aws_lc_rs::signature::KeyPair;
use aws_lc_rs::signature::RsaKeyPair;
use aws_lc_rs::signature::UnparsedPublicKey;
use aws_lc_rs::signature::RSA_PKCS1_1024_8192_SHA256_FOR_LEGACY_USE_ONLY;
use aws_lc_rs::signature::RSA_PKCS1_SHA256;
use quiche_tls::crypto::Algorithm;
use quiche_tls::crypto::Level;
use quiche_tls::error::Error;
use quiche_tls::packet::CryptoContexts;
use quiche_tls::packet::Epoch;
use quiche_tls::tls::certificate::common_name_matches_server_name;
use quiche_tls::tls::certificate::legacy_sha256_rsa_signature_algorithm;
use quiche_tls::tls::certificate::legacy_v1_certificate;
use quiche_tls::tls::certificate::valid_at;
use quiche_tls::tls::client_store::SessionRegistry;
use quiche_tls::tls::context::Context;
use quiche_tls::tls::der::der_sequence;
use quiche_tls::tls::handshake::keep_session;
use quiche_tls::tls::handshake::ExData;
use quiche_tls::tls::handshake::Handshake;
use quiche_tls::tls::identity::Identity;
use quiche_tls::tls::legacy::legacy_v1_server_identity_valid;
use quiche_tls::tls::session_registry::RUSTLS_SESSION_TOKEN_LEN;
use quiche_tls::tls::roots::subjects_have_room;
use quiche_tls::tls::roots::RootAnchor;
use quiche_tls::tls::roots::MAX_SUBJECTS_LEN;
use quiche_tls::tls::setup::hello_room;
use quiche_tls::tls::setup::ClientAuth;
use quiche_tls::tls::setup::TicketSource;
use quiche_tls::tls::setup::Trust;
use quiche_tls::tls::setup::HELLO_ROOM;
use quiche_tls::tls::setup::MAX_CLIENT_DATA_LEN;
use quiche_tls::tls::setup::MAX_HELLO_LEN;
use quiche_tls::tls::ticket::TICKET_KEY_LEN;
use quiche_tls::tls::verify::HandshakeRecord;
use quiche_tls::tls::verify::NoCertificateVerification;
use quiche_tls::tls::verify::RecordingClientVerifier;
use rustls::client::danger::ServerVerifier;
use rustls::crypto::TicketProducer;
use rustls::server::danger::ClientVerifier;

const TRANSPORT_PARAMS: &[u8] = &[0x01, 0x04, 0x80, 0x00, 0x75, 0x30];

/// A root, and a certificate that it signed.
struct Example {
    cert: Vec<u8>,
    cert_pem: Vec<u8>,
    key_pem: Vec<u8>,
    root_pem: Vec<u8>,
}

fn tlv(tag: u8, parts: &[&[u8]]) -> Vec<u8> {
    let value = parts.concat();
    let mut out = vec![tag];
    if value.len() < 0x80 {
        out.push(value.len() as u8);
    } else {
        let len = value.len().to_be_bytes();
        let first = len.iter().position(|b| *b != 0).unwrap();
        out.push(0x80 + (len.len() - first) as u8);
        out.extend_from_slice(&len[first..]);
    }
    out.extend_from_slice(&value);
    out
}

fn base64(data: &[u8]) -> String {
    let digits: Vec<char> = ('A'..='Z').chain('a'..='z').chain('0'..='9').chain(['+', '/']).collect();
    let mut out = String::new();
    for chunk in data.chunks(3) {
        let mut group: u32 = 0;
        for i in 0..3 {
            group = group << 8 | u32::from(*chunk.get(i).unwrap_or(&0));
        }
        for i in 0..4 {
            if i <= chunk.len() {
                out.push(digits[(group >> (18 - 6 * i) & 0x3f) as usize]);
            } else {
                out.push('=');
            }
        }
    }
    out
}

fn pem(label: &str, der: &[u8]) -> Vec<u8> {
    let mut out = format!("-----BEGIN {label}-----\n");
    for line in base64(der).as_bytes().chunks(64) {
        out.push_str(std::str::from_utf8(line).unwrap());
        out.push('\n');
    }
    out.push_str(&format!("-----END {label}-----\n"));
    out.into_bytes()
}

fn name(common_name: &[u8]) -> Vec<u8> {
    let attribute = tlv(0x30, &[&tlv(0x06, &[&[0x55, 0x04, 0x03]]), &tlv(0x0c, &[common_name])]);
    tlv(0x30, &[&tlv(0x31, &[&attribute])])
}

fn public_key(key: &RsaKeyPair) -> Vec<u8> {
    let der: PublicKeyX509Der<'_> = key.public_key().as_der().unwrap();
    der.as_ref().to_vec()
}

/// A certificate from 2020 to 2040. Without extensions it is of version 1.
fn signed(signer: &RsaKeyPair, key: &RsaKeyPair, common_name: &[u8], extensions: &[u8]) -> Vec<u8> {
    let oid = [0x2a, 0x86, 0x48, 0x86, 0xf7, 0x0d, 0x01, 0x01, 0x0b];
    let algorithm = tlv(0x30, &[&tlv(0x06, &[&oid]), &tlv(0x05, &[])]);
    let validity = tlv(
        0x30,
        &[&tlv(0x17, &[b"200101000000Z"]), &tlv(0x17, &[b"401231235959Z"])],
    );
    let mut version = Vec::new();
    let mut tail = Vec::new();
    if !extensions.is_empty() {
        version = tlv(0xa0, &[&tlv(0x02, &[&[2]])]);
        tail = tlv(0xa3, &[&tlv(0x30, &[extensions])]);
    }
    let tbs = tlv(
        0x30,
        &[
            &version,
            &tlv(0x02, &[&[0x4d, 0x21, 0x07]]),
            &algorithm,
            &name(b"Example Root"),
            &validity,
            &name(common_name),
            &public_key(key),
            &tail,
        ],
    );
    let mut signature = vec![0; signer.public_modulus_len()];
    signer.sign(&RSA_PKCS1_SHA256, &SystemRandom::new(), &tbs, &mut signature).unwrap();
    tlv(0x30, &[&tbs, &algorithm, &tlv(0x03, &[&[0], &signature])])
}

fn example_with(extensions: &[u8]) -> Example {
    let root = RsaKeyPair::generate(KeySize::Rsa2048).unwrap();
    let key = RsaKeyPair::generate(KeySize::Rsa2048).unwrap();
    let ca = tlv(
        0x30,
        &[
            &tlv(0x06, &[&[0x55, 0x1d, 0x13]]),
            &tlv(0x01, &[&[0xff]]),
            &tlv(0x04, &[&tlv(0x30, &[&tlv(0x01, &[&[0xff]])])]),
        ],
    );
    let root_cert = signed(&root, &root, b"Example Root", &ca);
    let cert = signed(&root, &key, b"quic.tech", extensions);
    let der: Pkcs8V1Der<'_> = key.as_der().unwrap();
    Example {
        cert_pem: pem("CERTIFICATE", &cert),
        cert,
        key_pem: pem("PRIVATE KEY", der.as_ref()),
        root_pem: pem("CERTIFICATE", &root_cert),
    }
}

fn example() -> Example {
    example_with(&[])
}

fn context(registry: &Arc<SessionRegistry>) -> Context {
    Context::new(registry.clone()).unwrap()
}

fn registry() -> Arc<SessionRegistry> {
    Arc::new(SessionRegistry::new())
}

fn handshake_from(ctx: &mut Context, is_server: bool) -> (Handshake, ExData) {
    let mut handshake = ctx.new_handshake().unwrap();
    handshake.init(is_server).unwrap();
    if !is_server {
        handshake.set_host_name("example.com").unwrap();
    }
    handshake.set_quic_transport_params(TRANSPORT_PARAMS).unwrap();
    let ex_data = ExData {
        application_protos: vec![b"h3".to_vec()],
        crypto_ctx: CryptoContexts::new(),
        session: None,
        keylog: None,
        is_server,
    };
    (handshake, ex_data)
}

fn client(registry: &Arc<SessionRegistry>) -> (Handshake, ExData) {
    let mut ctx = context(registry);
    ctx.set_verify(false);
    ctx.set_alpn(&[b"h3"]).unwrap();
    handshake_from(&mut ctx, false)
}

fn server_context(registry: &Arc<SessionRegistry>, example: &Example) -> Context {
    let mut ctx = context(registry);
    ctx.set_verify(false);
    ctx.set_alpn(&[b"h3"]).unwrap();
    ctx.use_certificate_chain_file(&example.cert_pem).unwrap();
    ctx.use_privkey_file(&example.key_pem).unwrap();
    ctx
}

fn server(registry: &Arc<SessionRegistry>, example: &Example) -> (Handshake, ExData) {
    handshake_from(&mut server_context(registry, example), true)
}

fn server_with_ticket_key(registry: &Arc<SessionRegistry>, example: &Example) -> (Handshake, ExData) {
    let mut ctx = server_context(registry, example);
    ctx.set_ticket_key(&[0x0a; TICKET_KEY_LEN]).unwrap();
    handshake_from(&mut ctx, true)
}

fn drain(ex_data: &mut ExData, epoch: Epoch) -> Vec<u8> {
    let mut data = vec![0; 8192];
    let send = match epoch {
        Epoch::Initial => &mut ex_data.crypto_ctx.initial.crypto_stream.send,
        Epoch::Handshake => &mut ex_data.crypto_ctx.handshake.crypto_stream.send,
        Epoch::Application => &mut ex_data.crypto_ctx.application.crypto_stream.send,
    };
    let len = send.emit(&mut data).unwrap().0;
    data.truncate(len);
    data
}

fn step(handshake: &mut Handshake, ex_data: &mut ExData) {
    assert!(matches!(handshake.do_handshake(ex_data), Ok(()) | Err(Error::Done)));
}

/// Runs a handshake to its end. Gives the session that the client exported.
fn drive(
    client: &mut Handshake,
    client_ex: &mut ExData,
    server: &mut Handshake,
    server_ex: &mut ExData,
) -> Option<Vec<u8>> {
    step(client, client_ex);
    let initial = drain(client_ex, Epoch::Initial);
    server.provide_data(Level::Initial, &initial).unwrap();
    step(server, server_ex);
    let server_initial = drain(server_ex, Epoch::Initial);
    let server_handshake = drain(server_ex, Epoch::Handshake);
    let mut server_application = drain(server_ex, Epoch::Application);
    client.provide_data(Level::Initial, &server_initial).unwrap();
    client.provide_data(Level::Handshake, &server_handshake).unwrap();
    step(client, client_ex);
    let client_handshake = drain(client_ex, Epoch::Handshake);
    if !client_handshake.is_empty() {
        server.provide_data(Level::Handshake, &client_handshake).unwrap();
        step(server, server_ex);
        server_application.extend_from_slice(&drain(server_ex, Epoch::Application));
    }
    if !server_application.is_empty() {
        client.provide_data(Level::OneRTT, &server_application).unwrap();
        step(client, client_ex);
        client.process_post_handshake(client_ex).unwrap();
    }
    client_ex.session.take()
}

fn read_u64(data: &[u8]) -> usize {
    let mut bytes = [0; 8];
    bytes.copy_from_slice(&data[..8]);
    u64::from_be_bytes(bytes) as usize
}

#[test]
fn certificate_common_name_matches_dns_name() {
    let example = example();

    assert!(common_name_matches_server_name(&example.cert, "quic.tech"));
    assert!(common_name_matches_server_name(&example.cert, "QUIC.Tech"));
    assert!(!common_name_matches_server_name(&example.cert, "example.com"));
}

#[test]
fn legacy_v1_example_cert_verifies_against_root() {
    let example = example();
    let mut ctx = context(&registry());
    ctx.load_verify_locations_from_file(&example.root_pem).unwrap();

    let legacy = legacy_v1_certificate(&example.cert).unwrap();
    let now = 1_800_000_000;

    assert!(valid_at(&legacy, now));
    assert!(legacy_sha256_rsa_signature_algorithm(legacy.signature_algorithm));
    assert!(ctx.root_store.roots.iter().any(|root| {
        let public_key = der_sequence(root.subject_public_key_info.as_ref());
        UnparsedPublicKey::new(&RSA_PKCS1_1024_8192_SHA256_FOR_LEGACY_USE_ONLY, public_key)
            .verify(legacy.tbs, legacy.signature)
            .is_ok()
    }));

    let identity = Identity::X509 { end_entity: example.cert.clone(), intermediates: Vec::new() };
    assert!(legacy_v1_server_identity_valid(&ctx.root_store, &identity, "quic.tech", now));
    assert!(!legacy_v1_server_identity_valid(&ctx.root_store, &identity, "example.com", now));
    assert!(!legacy_v1_server_identity_valid(&ctx.root_store, &identity, "quic.tech", 1));

    let longer = Identity::X509 {
        end_entity: example.cert.clone(),
        intermediates: vec![example.cert.clone()],
    };
    assert!(!legacy_v1_server_identity_valid(&ctx.root_store, &longer, "quic.tech", now));
    let bare = Identity::RawPublicKey(example.cert.clone());
    assert!(!legacy_v1_server_identity_valid(&ctx.root_store, &bare, "quic.tech", now));

    let mut spoilt = example.cert.clone();
    let last = spoilt.len() - 1;
    spoilt[last] ^= 1;
    let spoilt = Identity::X509 { end_entity: spoilt, intermediates: Vec::new() };
    assert!(!legacy_v1_server_identity_valid(&ctx.root_store, &spoilt, "quic.tech", now));

    let empty = context(&registry());
    assert!(!legacy_v1_server_identity_valid(&empty.root_store, &identity, "quic.tech", now));
}

#[test]
fn empty_root_client_verifier_requests_optional_auth() {
    let verifier = RecordingClientVerifier::without_roots(Arc::new(HandshakeRecord::new()));

    assert!(verifier.offer_client_auth());
    assert!(!verifier.client_auth_mandatory());
    assert!(verifier.root_hint_subjects().is_empty());
    assert!(!verifier.supported_verify_schemes().is_empty());
}

#[test]
fn client_handshake_emits_initial_crypto() {
    let (mut handshake, mut ex_data) = client(&registry());

    assert_eq!(handshake.do_handshake(&mut ex_data), Err(Error::Done));
    assert!(ex_data.crypto_ctx.get(Epoch::Initial).data_available());
}

#[test]
fn handshake_clear_restarts_client_initial() {
    let (mut handshake, mut ex_data) = client(&registry());

    assert_eq!(handshake.do_handshake(&mut ex_data), Err(Error::Done));
    assert_eq!(handshake.write_level(), Level::Initial);
    assert!(!drain(&mut ex_data, Epoch::Initial).is_empty());

    handshake.clear().unwrap();

    assert_eq!(handshake.do_handshake(&mut ex_data), Err(Error::Done));
    assert_eq!(handshake.write_level(), Level::Initial);
    assert!(!drain(&mut ex_data, Epoch::Initial).is_empty());
}

#[test]
fn handshake_clear_resets_early_data_state() {
    let (mut handshake, _ex_data) = client(&registry());
    handshake.early_data_active = true;
    handshake.signature_scheme = Some(0x0403);

    assert!(handshake.is_in_early_data());
    assert!(handshake.sigalg().is_some());

    handshake.clear().unwrap();

    assert!(!handshake.is_in_early_data());
    assert!(handshake.sigalg().is_none());
}

#[test]
fn handshake_installs_packet_keys() {
    let example = example();
    let registry = registry();
    let (mut client, mut client_ex) = client(&registry);
    let (mut server, mut server_ex) = server(&registry, &example);

    step(&mut client, &mut client_ex);
    let client_initial = drain(&mut client_ex, Epoch::Initial);
    assert!(!client_initial.is_empty());

    server.provide_data(Level::Initial, &client_initial).unwrap();
    assert_eq!(server.do_handshake(&mut server_ex), Err(Error::Done));

    assert!(server_ex.crypto_ctx.get(Epoch::Handshake).has_keys());
    assert_eq!(server.cipher(), Some(Algorithm::AES128_GCM));
    assert_eq!(server.server_name(), Some("example.com"));
    assert_eq!(server.quic_transport_params(), TRANSPORT_PARAMS);

    let server_initial = drain(&mut server_ex, Epoch::Initial);
    let server_handshake = drain(&mut server_ex, Epoch::Handshake);
    assert!(!server_initial.is_empty());
    assert!(!server_handshake.is_empty());

    client.provide_data(Level::Initial, &server_initial).unwrap();
    client.provide_data(Level::Handshake, &server_handshake).unwrap();
    step(&mut client, &mut client_ex);

    assert!(client_ex.crypto_ctx.get(Epoch::Handshake).has_keys());
    assert!(client_ex.crypto_ctx.get(Epoch::Application).has_keys());
    assert_eq!(client.cipher(), Some(Algorithm::AES128_GCM));
    assert!(client.curve().is_some());
    assert!(client.sigalg().is_some());
    assert!(!client.is_resumed());
    assert!(client.is_completed());
    assert_eq!(client.write_level(), Level::OneRTT);
    assert_eq!(client.alpn_protocol(), b"h3");
    assert_eq!(client.quic_transport_params(), TRANSPORT_PARAMS);

    assert_eq!(client.peer_cert(), Some(example.cert.as_slice()));
    assert_eq!(client.peer_cert_chain(), Some(vec![example.cert.as_slice()]));
    assert!(server.peer_cert().is_none());
    assert!(server.peer_cert_chain().is_none());
}

#[test]
fn server_context_builds_with_optional_client_auth() {
    let example = example();
    let mut ctx = server_context(&registry(), &example);
    ctx.set_verify(true);
    ctx.load_verify_locations_from_file(&example.root_pem).unwrap();

    let (server, _ex_data) = handshake_from(&mut ctx, true);

    assert!(server.build_server_connection().is_ok());
    assert_eq!(server.plan_server().unwrap().client_auth, ClientAuth::Roots);
}

#[test]
fn server_config_enables_stateless_tickets() {
    let (server, _ex_data) = server(&registry(), &example());
    let config = server.build_server_config().unwrap();

    assert!(config.ticketer.is_some());
    assert_eq!(server.plan_server().unwrap().tickets, TicketSource::Rotating);
}

#[test]
fn set_ticket_key_rejects_invalid_lengths() {
    let mut ctx = context(&registry());

    assert_eq!(ctx.set_ticket_key(&[0; TICKET_KEY_LEN - 1]), Err(Error::TlsFail));
    assert_eq!(ctx.set_ticket_key(&[0; TICKET_KEY_LEN + 1]), Err(Error::TlsFail));
}

#[test]
fn set_ticket_key_configures_fixed_ticket_producer() {
    let (server, _ex_data) = server_with_ticket_key(&registry(), &example());
    let config = server.build_server_config().unwrap();
    let ticketer = config.ticketer.as_ref().unwrap();
    let ticket_state = b"ticket state";

    let ciphertext = ticketer.encrypt(ticket_state).unwrap();
    assert_eq!(ticketer.decrypt(&ciphertext).unwrap(), ticket_state);
    assert_eq!(ticketer.lifetime(), std::time::Duration::from_secs(24 * 60 * 60));

    let mut wrong_key_name = ciphertext;
    wrong_key_name[0] ^= 0x01;
    assert!(ticketer.decrypt(&wrong_key_name).is_none());
}

#[test]
fn client_session_token_can_resume_handshake() {
    let example = example();
    let registry = registry();
    let (mut first, mut first_ex) = client(&registry);
    let (mut server, mut server_ex) = server_with_ticket_key(&registry, &example);

    let session = drive(&mut first, &mut first_ex, &mut server, &mut server_ex).unwrap();
    let token_len = read_u64(&session);
    let token = &session[8..8 + token_len];
    let params_len = read_u64(&session[8 + token_len..]);
    let params = &session[16 + token_len..];

    assert_eq!(token_len, RUSTLS_SESSION_TOKEN_LEN);
    assert_eq!(params.len(), params_len);
    assert_eq!(params, TRANSPORT_PARAMS);

    let (mut resumed_client, mut resumed_client_ex) = client(&registry);
    resumed_client.set_session(token).unwrap();
    assert_eq!(resumed_client.set_session(token), Err(Error::TlsFail));
    let (mut resumed_server, mut resumed_server_ex) = server_with_ticket_key(&registry, &example);

    drive(
        &mut resumed_client,
        &mut resumed_client_ex,
        &mut resumed_server,
        &mut resumed_server_ex,
    );

    assert!(resumed_client.is_resumed());
}

#[test]
fn early_data_session_installs_zero_rtt_open_key() {
    let example = example();
    let mut ctx = server_context(&registry(), &example);
    ctx.set_early_data_enabled(true);

    let (mut client, mut client_ex) = handshake_from(&mut ctx, false);
    client.set_host_name("quic.tech").unwrap();
    let (mut server, mut server_ex) = handshake_from(&mut ctx, true);

    let session = drive(&mut client, &mut client_ex, &mut server, &mut server_ex).unwrap();
    let token_len = read_u64(&session);
    let token = &session[8..8 + token_len];

    let (mut resumed_client, mut resumed_client_ex) = handshake_from(&mut ctx, false);
    resumed_client.set_host_name("quic.tech").unwrap();
    resumed_client.set_session(token).unwrap();
    let (mut resumed_server, mut resumed_server_ex) = handshake_from(&mut ctx, true);

    assert_eq!(resumed_client.do_handshake(&mut resumed_client_ex), Err(Error::Done));

    assert!(resumed_client.is_in_early_data());
    assert!(resumed_client_ex.crypto_ctx.application.crypto_seal.is_some());

    let client_initial = drain(&mut resumed_client_ex, Epoch::Initial);
    resumed_server.provide_data(Level::Initial, &client_initial).unwrap();

    assert_eq!(resumed_server.do_handshake(&mut resumed_server_ex), Err(Error::Done));

    assert!(resumed_server.is_resumed());
    assert!(resumed_server.is_in_early_data());
    assert!(resumed_server_ex.crypto_ctx.application.crypto_0rtt_open.is_some());
}

#[test]
fn client_context_loads_certificate_and_private_key() {
    let mut ctx = server_context(&registry(), &example());
    let (mut client, mut ex_data) = handshake_from(&mut ctx, false);

    assert_eq!(client.do_handshake(&mut ex_data), Err(Error::Done));
    assert!(ex_data.crypto_ctx.get(Epoch::Initial).data_available());
    assert!(client.plan_client().unwrap().credentials);
}

#[test]
fn handshake_writes_keylog() {
    let example = example();
    let registry = registry();
    let mut client_ctx = context(&registry);
    client_ctx.set_alpn(&[b"h3"]).unwrap();
    client_ctx.enable_keylog();
    let mut server_ctx = server_context(&registry, &example);
    server_ctx.enable_keylog();
    let (mut client, mut client_ex) = handshake_from(&mut client_ctx, false);
    let (mut server, mut server_ex) = handshake_from(&mut server_ctx, true);
    client_ex.keylog = Some(Vec::new());
    server_ex.keylog = Some(Vec::new());

    step(&mut client, &mut client_ex);
    let client_initial = drain(&mut client_ex, Epoch::Initial);
    server.provide_data(Level::Initial, &client_initial).unwrap();
    assert_eq!(server.do_handshake(&mut server_ex), Err(Error::Done));

    let server_initial = drain(&mut server_ex, Epoch::Initial);
    let server_handshake = drain(&mut server_ex, Epoch::Handshake);
    client.provide_data(Level::Initial, &server_initial).unwrap();
    client.provide_data(Level::Handshake, &server_handshake).unwrap();
    step(&mut client, &mut client_ex);

    let client_log = String::from_utf8(client_ex.keylog.take().unwrap()).unwrap();
    let server_log = String::from_utf8(server_ex.keylog.take().unwrap()).unwrap();

    assert!(client_log.contains("CLIENT_HANDSHAKE_TRAFFIC_SECRET "));
    assert!(client_log.contains("SERVER_HANDSHAKE_TRAFFIC_SECRET "));
    assert!(client_log.contains("CLIENT_TRAFFIC_SECRET_0 "));
    assert!(client_log.contains("SERVER_TRAFFIC_SECRET_0 "));
    assert!(server_log.contains("CLIENT_HANDSHAKE_TRAFFIC_SECRET "));
    assert!(server_log.contains("SERVER_HANDSHAKE_TRAFFIC_SECRET "));
}

#[test]
fn client_verification_requires_loaded_roots() {
    let mut ctx = context(&registry());
    ctx.set_verify(true);
    let (handshake, _ex_data) = handshake_from(&mut ctx, false);

    assert!(matches!(handshake.build_client_connection(), Err(Error::TlsFail)));
}

#[test]
fn client_context_loads_verify_roots() {
    let mut ctx = context(&registry());
    ctx.set_verify(true);
    ctx.load_verify_locations_from_file(&example().root_pem).unwrap();
    let (handshake, _ex_data) = handshake_from(&mut ctx, false);

    assert!(handshake.build_client_connection().is_ok());
    assert_eq!(handshake.plan_client().unwrap().trust, Trust::Roots);
}

#[test]
fn client_context_loads_verify_roots_from_directory() {
    let mut ctx = context(&registry());
    ctx.set_verify(true);
    let files = vec![b"not a certificate".to_vec(), example().root_pem];
    ctx.load_verify_locations_from_directory(&files).unwrap();
    let (handshake, _ex_data) = handshake_from(&mut ctx, false);

    assert!(handshake.build_client_connection().is_ok());
}

#[test]
fn context_copies_early_data_setting_to_handshake() {
    let mut ctx = context(&registry());
    let handshake = ctx.new_handshake().unwrap();
    assert!(!handshake.early_data_enabled);

    ctx.set_early_data_enabled(true);
    let handshake = ctx.new_handshake().unwrap();
    assert!(handshake.early_data_enabled);
}

#[test]
fn early_data_enabled_connections_build() {
    let registry = registry();
    let mut client_ctx = context(&registry);
    client_ctx.set_verify(false);
    client_ctx.set_alpn(&[b"h3"]).unwrap();
    client_ctx.set_early_data_enabled(true);
    let (client, _client_ex) = handshake_from(&mut client_ctx, false);
    assert!(client.build_client_connection().is_ok());

    let mut server_ctx = server_context(&registry, &example());
    server_ctx.set_early_data_enabled(true);
    let (server, _server_ex) = handshake_from(&mut server_ctx, true);
    assert!(server.build_server_connection().is_ok());
    let config = server.build_server_config().unwrap();
    assert_eq!(config.max_early_data_size, u32::MAX);
    assert!(config.ticketer.is_none());
    assert_eq!(server.plan_server().unwrap().tickets, TicketSource::Stored);
}

#[test]
fn server_context_loads_certificate_and_private_key() {
    let example = example();
    let mut ctx = context(&registry());
    ctx.use_certificate_chain_file(&example.cert_pem).unwrap();
    ctx.use_privkey_file(&example.key_pem).unwrap();
    let (handshake, _ex_data) = handshake_from(&mut ctx, true);

    assert!(handshake.build_server_connection().is_ok());
}

#[test]
fn checked_client_accepts_version_1_server() {
    let example = example();
    let registry = registry();
    let mut client_ctx = context(&registry);
    client_ctx.set_verify(true);
    client_ctx.load_verify_locations_from_file(&example.root_pem).unwrap();
    let (mut client, mut client_ex) = handshake_from(&mut client_ctx, false);
    client.set_host_name("quic.tech").unwrap();
    let (mut server, mut server_ex) = server(&registry, &example);

    drive(&mut client, &mut client_ex, &mut server, &mut server_ex);

    assert!(client.is_completed());
    assert!(server.is_completed());
    assert!(client.sigalg().unwrap().starts_with("RSA_"));
}

/// An extension with an alternative name.
fn alternative_name(dns: &[u8]) -> Vec<u8> {
    tlv(
        0x30,
        &[
            &tlv(0x06, &[&[0x55, 0x1d, 0x11]]),
            &tlv(0x04, &[&tlv(0x30, &[&tlv(0x82, &[dns])])]),
        ],
    )
}

fn checked_outcome(host: &str, example: &Example) -> Result<(), Error> {
    let registry = registry();
    let mut client_ctx = context(&registry);
    client_ctx.set_verify(true);
    client_ctx.load_verify_locations_from_file(&example.root_pem).unwrap();
    let (mut client, mut client_ex) = handshake_from(&mut client_ctx, false);
    client.set_host_name(host).unwrap();
    let (mut server, mut server_ex) = server(&registry, example);

    step(&mut client, &mut client_ex);
    let initial = drain(&mut client_ex, Epoch::Initial);
    server.provide_data(Level::Initial, &initial).unwrap();
    step(&mut server, &mut server_ex);
    let server_initial = drain(&mut server_ex, Epoch::Initial);
    let server_handshake = drain(&mut server_ex, Epoch::Handshake);
    client.provide_data(Level::Initial, &server_initial).unwrap();
    client.provide_data(Level::Handshake, &server_handshake)
}

#[test]
fn common_name_stands_in_for_alternative_name() {
    let example = example_with(&alternative_name(b"other.example"));

    assert_eq!(checked_outcome("other.example", &example), Ok(()));
    assert_eq!(checked_outcome("quic.tech", &example), Ok(()));
    assert_eq!(checked_outcome("third.example", &example), Err(Error::TlsFail));
}

#[test]
fn version_1_server_needs_its_name_and_root() {
    let example = example();

    assert_eq!(checked_outcome("quic.tech", &example), Ok(()));
    assert_eq!(checked_outcome("example.com", &example), Err(Error::TlsFail));

    let stranger = Example { root_pem: self::example().root_pem, ..example };
    assert_eq!(checked_outcome("quic.tech", &stranger), Err(Error::TlsFail));
}

#[test]
fn server_records_client_that_it_turns_down() {
    let example = example();
    let registry = registry();
    let mut client_ctx = server_context(&registry, &example);
    let mut server_ctx = server_context(&registry, &example);
    server_ctx.set_verify(true);
    let (mut client, mut client_ex) = handshake_from(&mut client_ctx, false);
    let (mut server, mut server_ex) = handshake_from(&mut server_ctx, true);
    assert_eq!(server.plan_server().unwrap().client_auth, ClientAuth::RecordOnly);

    step(&mut client, &mut client_ex);
    let initial = drain(&mut client_ex, Epoch::Initial);
    server.provide_data(Level::Initial, &initial).unwrap();
    step(&mut server, &mut server_ex);
    let server_initial = drain(&mut server_ex, Epoch::Initial);
    let server_handshake = drain(&mut server_ex, Epoch::Handshake);
    client.provide_data(Level::Initial, &server_initial).unwrap();
    client.provide_data(Level::Handshake, &server_handshake).unwrap();
    step(&mut client, &mut client_ex);
    let client_handshake = drain(&mut client_ex, Epoch::Handshake);

    assert_eq!(
        server.provide_data(Level::Handshake, &client_handshake),
        Err(Error::TlsFail)
    );
    assert_eq!(server.peer_cert(), Some(example.cert.as_slice()));
    assert!(server.sigalg().is_none());
}

#[test]
fn side_must_be_set_before_data() {
    let mut ctx = context(&registry());
    let mut handshake = ctx.new_handshake().unwrap();

    assert_eq!(handshake.provide_data(Level::Initial, &[]), Err(Error::TlsFail));
    assert!(handshake.conn.is_none());
}

#[test]
fn client_needs_a_good_server_name() {
    let mut ctx = context(&registry());
    let (mut handshake, _ex_data) = handshake_from(&mut ctx, false);
    assert!(handshake.build_client_connection().is_ok());

    handshake.set_host_name("not a name").unwrap();
    assert!(matches!(handshake.build_client_connection(), Err(Error::TlsFail)));
    assert_eq!(handshake.server_name(), Some("not a name"));

    handshake.server_name = None;
    assert!(matches!(handshake.build_client_connection(), Err(Error::TlsFail)));
}

#[test]
fn certificate_and_key_go_together() {
    let example = example();
    let mut ctx = context(&registry());
    ctx.use_certificate_chain_file(&example.cert_pem).unwrap();
    let (client, _client_ex) = handshake_from(&mut ctx, false);
    assert!(matches!(client.build_client_connection(), Err(Error::TlsFail)));
    let (server, _server_ex) = handshake_from(&mut ctx, true);
    assert!(matches!(server.build_server_config(), Err(Error::TlsFail)));

    let mut ctx = context(&registry());
    ctx.use_privkey_file(&example.key_pem).unwrap();
    let (server, _server_ex) = handshake_from(&mut ctx, true);
    assert!(matches!(server.build_server_connection(), Err(Error::TlsFail)));
}

#[test]
fn unusable_private_key_is_refused() {
    let example = example();
    let mut ctx = context(&registry());
    ctx.use_certificate_chain_file(&example.cert_pem).unwrap();
    ctx.use_privkey_file(&pem("PRIVATE KEY", &[1, 2, 3])).unwrap();
    let (client, _client_ex) = handshake_from(&mut ctx, false);
    assert!(matches!(client.build_client_connection(), Err(Error::TlsFail)));
    let (server, _server_ex) = handshake_from(&mut ctx, true);
    assert!(matches!(server.build_server_config(), Err(Error::TlsFail)));
}

#[test]
fn bad_files_are_refused() {
    let mut ctx = context(&registry());

    assert_eq!(ctx.use_certificate_chain_file(b""), Err(Error::TlsFail));
    assert!(ctx.certificate_chain.is_none());
    assert_eq!(ctx.use_privkey_file(b""), Err(Error::TlsFail));
    assert_eq!(ctx.load_verify_locations_from_file(b""), Err(Error::TlsFail));
    let unreadable = pem("CERTIFICATE", &[0x30, 0x00]);
    assert_eq!(ctx.load_verify_locations_from_file(&unreadable), Err(Error::TlsFail));
    assert_eq!(
        ctx.load_verify_locations_from_directory(&vec![unreadable]),
        Err(Error::TlsFail)
    );
    assert_eq!(ctx.load_verify_locations_from_directory(&Vec::new()), Err(Error::TlsFail));
}

#[test]
fn roots_of_all_files_are_kept_in_order() {
    let first = example();
    let second = example();
    let mut ctx = context(&registry());
    let files = vec![first.root_pem.clone(), Vec::new(), second.root_pem.clone()];
    ctx.load_verify_locations_from_directory(&files).unwrap();

    assert_eq!(ctx.root_store.roots.len(), 2);
    let mut other = context(&registry());
    other.load_verify_locations_from_file(&first.root_pem).unwrap();
    assert_eq!(ctx.root_store.roots[0], other.root_store.roots[0]);
}

#[test]
fn transport_params_have_a_limit() {
    let mut ctx = context(&registry());
    let mut handshake = ctx.new_handshake().unwrap();

    assert_eq!(handshake.set_quic_transport_params(&[7; 128]), Ok(()));
    assert_eq!(handshake.local_transport_params, vec![7; 128]);
    assert_eq!(handshake.set_quic_transport_params(&[8; 129]), Err(Error::BufferTooShort));
    assert_eq!(handshake.local_transport_params, vec![7; 128]);
}

#[test]
fn unknown_and_misshapen_tokens_are_refused() {
    let mut ctx = context(&registry());
    let mut handshake = ctx.new_handshake().unwrap();

    assert_eq!(handshake.set_session(&[0; 15]), Err(Error::TlsFail));
    assert_eq!(handshake.set_session(&[0; 17]), Err(Error::TlsFail));
    assert_eq!(handshake.set_session(&[0; 16]), Err(Error::TlsFail));
}

#[test]
fn fresh_handshake_reports_nothing() {
    let mut ctx = context(&registry());
    ctx.set_alpn(&[b"h3", b"hq"]).unwrap();
    let mut handshake = ctx.new_handshake().unwrap();

    assert_eq!(handshake.alpn_protocols, vec![b"h3".to_vec(), b"hq".to_vec()]);
    assert_eq!(handshake.quic_transport_params(), b"");
    assert_eq!(handshake.alpn_protocol(), b"");
    assert_eq!(handshake.server_name(), None);
    assert_eq!(handshake.write_level(), Level::Initial);
    assert_eq!(handshake.cipher(), None);
    assert!(!handshake.is_completed());
    assert!(!handshake.is_resumed());
    assert_eq!(handshake.curve(), None);
    assert_eq!(handshake.sigalg(), None);
    assert_eq!(handshake.peer_cert(), None);
    assert_eq!(handshake.early_data_reason(), 0);
    handshake.use_legacy_codepoint(true);
    handshake.set_options(1);
    handshake.set_failing_private_key_method();
    assert!(handshake.conn.is_none());
}

#[test]
fn signature_schemes_print_by_name() {
    let mut ctx = context(&registry());
    let mut handshake = ctx.new_handshake().unwrap();
    handshake.signature_scheme = Some(0x0403);
    assert_eq!(handshake.sigalg(), Some("ECDSA_NISTP256_SHA256".to_string()));
    handshake.signature_scheme = Some(0x0804);
    assert_eq!(handshake.sigalg(), Some("RSA_PSS_SHA256".to_string()));
}

#[test]
fn recorded_identity_shows_when_none_was_accepted() {
    let mut ctx = context(&registry());
    let mut handshake = ctx.new_handshake().unwrap();
    handshake.recorded_peer_identity =
        Some(Identity::X509 { end_entity: vec![1], intermediates: vec![vec![2], vec![3]] });

    assert_eq!(handshake.peer_cert(), Some(&[1][..]));
    assert_eq!(handshake.peer_cert_chain(), Some(vec![&[1][..], &[2], &[3]]));

    handshake.clear().unwrap();
    assert_eq!(handshake.peer_cert(), None);
}

#[test]
fn verifiers_offer_the_schemes_of_the_provider() {
    let expected =
        vec![0x0503, 0x0403, 0x0603, 0x0807, 0x0806, 0x0805, 0x0804, 0x0601, 0x0501, 0x0401];
    let record = Arc::new(HandshakeRecord::new());

    let clients = RecordingClientVerifier::without_roots(Arc::clone(&record));
    let schemes: Vec<u16> =
        clients.supported_verify_schemes().into_iter().map(u16::from).collect();
    assert_eq!(schemes, expected);
    let types: Vec<u8> =
        clients.supported_certificate_types().iter().map(|t| u8::from(*t)).collect();
    assert_eq!(types, vec![0]);

    let servers = NoCertificateVerification::new(record);
    let schemes: Vec<u16> =
        servers.supported_verify_schemes().into_iter().map(u16::from).collect();
    assert_eq!(schemes, expected);
    assert!(!servers.request_ocsp_response());
}

#[test]
fn records_are_kept_by_their_rules() {
    let mut ctx = context(&registry());
    let (mut handshake, mut ex_data) = handshake_from(&mut ctx, true);

    handshake.keep_signature_scheme(None);
    assert_eq!(handshake.signature_scheme, None);
    handshake.keep_signature_scheme(Some(0x0403));
    handshake.keep_signature_scheme(None);
    assert_eq!(handshake.signature_scheme, Some(0x0403));
    handshake.keep_signature_scheme(Some(0x0804));
    assert_eq!(handshake.signature_scheme, Some(0x0804));

    handshake.keep_peer_identity(Some(Identity::RawPublicKey(vec![1])));
    handshake.keep_peer_identity(Some(Identity::RawPublicKey(vec![2])));
    assert_eq!(handshake.peer_cert(), Some(&[1][..]));

    keep_session(&mut ex_data, None);
    assert_eq!(ex_data.session, None);
    keep_session(&mut ex_data, Some(vec![1]));
    keep_session(&mut ex_data, None);
    assert_eq!(ex_data.session, Some(vec![1]));
    keep_session(&mut ex_data, Some(vec![2]));
    assert_eq!(ex_data.session, Some(vec![2]));
}

#[test]
fn first_message_has_room_for_some_protocols() {
    let fits = |protocols: &Vec<Vec<u8>>, params: usize| hello_room(protocols, &vec![0; params]) > 0;

    assert!(fits(&Vec::new(), 0));
    assert!(fits(&Vec::new(), MAX_HELLO_LEN));
    assert!(!fits(&Vec::new(), MAX_HELLO_LEN + 1));
    assert!(!fits(&vec![Vec::new()], 0));
    assert!(fits(&vec![vec![1; 255]], 0));
    assert!(!fits(&vec![vec![1; 256]], 0));
    assert!(fits(&vec![b"h3".to_vec()], MAX_HELLO_LEN - 3));
    assert!(!fits(&vec![b"h3".to_vec()], MAX_HELLO_LEN - 2));
    assert!(fits(&vec![vec![1; 255]; 224], 0));
    assert!(!fits(&vec![vec![1; 255]; 225], 0));
    assert_eq!(hello_room(&vec![b"h3".to_vec()], &[0; 6]), (HELLO_ROOM - 9) / 2);
    assert_eq!(hello_room(&Vec::new(), &vec![0; MAX_HELLO_LEN]), 0x800);
}

#[test]
fn protocols_without_room_are_refused() {
    for protocols in [vec![Vec::new()], vec![vec![1; 256]], vec![vec![1; 255]; 224]] {
        let (mut client, mut ex_data) = client(&registry());
        ex_data.application_protos = protocols;
        assert_eq!(client.do_handshake(&mut ex_data), Err(Error::TlsFail));
        assert!(client.conn.is_none());
        assert!(client.build_client_config().is_ok());
        assert!(client.build_client_connection().is_err());
    }
}

#[test]
fn longest_protocols_are_offered() {
    let (mut client, mut ex_data) = client(&registry());
    ex_data.application_protos = vec![vec![1; 255]; 223];
    assert!(hello_room(&ex_data.application_protos, &client.local_transport_params) > 0);

    assert_eq!(client.do_handshake(&mut ex_data), Err(Error::Done));
    assert!(ex_data.crypto_ctx.get(Epoch::Initial).data_available());
}

#[test]
fn server_name_goes_by_side() {
    let example = example();
    let registry = registry();
    let (mut client, mut client_ex) = client(&registry);
    let (mut server, mut server_ex) = server(&registry, &example);
    server.set_host_name("set.example").unwrap();
    assert_eq!(server.server_name(), Some("set.example"));
    assert_eq!(client.server_name(), Some("example.com"));

    assert_eq!(server.do_handshake(&mut server_ex), Err(Error::Done));
    assert!(server.conn.is_some());
    assert_eq!(server.server_name(), None);
    assert!(!server_ex.crypto_ctx.get(Epoch::Initial).data_available());

    drive(&mut client, &mut client_ex, &mut server, &mut server_ex);

    assert_eq!(server.server_name(), Some("example.com"));
    assert_eq!(client.server_name(), Some("example.com"));
    client.set_host_name("other.example").unwrap();
    assert_eq!(client.server_name(), Some("other.example"));
    server.set_host_name("other.example").unwrap();
    assert_eq!(server.server_name(), Some("example.com"));

    server.clear().unwrap();
    assert_eq!(server.server_name(), Some("other.example"));
}

#[test]
fn completed_client_starts_anew_when_cleared() {
    let example = example();
    let registry = registry();
    let (mut client, mut client_ex) = client(&registry);
    let (mut server, mut server_ex) = server(&registry, &example);
    drive(&mut client, &mut client_ex, &mut server, &mut server_ex);
    assert!(client.is_completed());
    assert_eq!(client.write_level(), Level::OneRTT);
    assert_eq!(client.do_handshake(&mut client_ex), Ok(()));
    drain(&mut client_ex, Epoch::Handshake);

    client.clear().unwrap();
    assert!(!client.is_completed());
    assert_eq!(client.do_handshake(&mut client_ex), Err(Error::Done));

    assert_eq!(client.write_level(), Level::Initial);
    assert!(!client.is_completed());
    assert!(!drain(&mut client_ex, Epoch::Initial).is_empty());
    assert!(!client_ex.crypto_ctx.get(Epoch::Handshake).data_available());
    assert!(!client_ex.crypto_ctx.get(Epoch::Application).data_available());
}

#[test]
fn finished_stream_fails_the_handshake() {
    let (mut handshake, mut ex_data) = client(&registry());
    ex_data.crypto_ctx.initial.crypto_stream.send.write(b"", true).unwrap();

    assert_eq!(handshake.do_handshake(&mut ex_data), Err(Error::TlsFail));
    assert!(handshake.conn.is_some());
    assert_eq!(handshake.write_level(), Level::Initial);
    assert!(!ex_data.crypto_ctx.get(Epoch::Initial).data_available());

    // What was refused is lost. There is nothing more to send, so nothing is refused.
    assert_eq!(handshake.do_handshake(&mut ex_data), Err(Error::Done));

    // A stream that no data goes to may be finished.
    let (mut handshake, mut ex_data) = client(&registry());
    ex_data.crypto_ctx.handshake.crypto_stream.send.write(b"", true).unwrap();
    assert_eq!(handshake.do_handshake(&mut ex_data), Err(Error::Done));
    assert!(ex_data.crypto_ctx.get(Epoch::Initial).data_available());
}

#[test]
fn server_connections_are_made_with_a_ticket_key_or_early_data() {
    let example = example();
    let registry = registry();
    let (handshake, _ex_data) = server_with_ticket_key(&registry, &example);
    assert!(handshake.build_server_connection().is_ok());

    let (handshake, _ex_data) = server(&registry, &example);
    let config = handshake.build_server_config().unwrap();
    let conn = handshake.connect_with(config).unwrap();
    assert!(conn.report.is_server);
    assert!(conn.report.handshaking);

    let mut ctx = server_context(&registry, &example);
    ctx.set_early_data_enabled(true);
    let (mut handshake, mut ex_data) = handshake_from(&mut ctx, true);
    assert!(handshake.build_server_connection().is_ok());
    assert_eq!(handshake.provide_data(Level::Initial, b"no message"), Err(Error::TlsFail));
    assert!(handshake.conn.is_some());
    assert_eq!(handshake.do_handshake(&mut ex_data), Err(Error::Done));
}

#[test]
fn verifiers_print_and_hash_what_they_hold() {
    let record = Arc::new(HandshakeRecord::new());
    let clients = RecordingClientVerifier::without_roots(Arc::clone(&record));
    let text = format!("{clients:?}");
    assert!(text.starts_with("RecordingClientVerifier { inner: None"));
    assert!(text.contains("HandshakeRecord { signature_scheme: None, peer_identity: None }"));

    let servers = NoCertificateVerification::new(record);
    assert!(format!("{servers:?}").starts_with("NoCertificateVerification { supported_schemes: ["));
    let mut hashed = DefaultHasher::new();
    servers.hash_config(&mut hashed);
    let mut expected = DefaultHasher::new();
    expected.write(b"quiche-rustls-no-certificate-verification");
    assert_eq!(hashed.finish(), expected.finish());
    assert_ne!(hashed.finish(), DefaultHasher::new().finish());
}

/// All that waits on a stream.
fn drain_all(ex_data: &mut ExData, epoch: Epoch) -> Vec<u8> {
    let mut data = Vec::new();
    while ex_data.crypto_ctx.get(epoch).data_available() {
        data.extend_from_slice(&drain(ex_data, epoch));
    }
    data
}

#[test]
fn tickets_are_offered_where_there_is_room() {
    let long_name = vec![0x61; 3000];
    let example = example_with(&alternative_name(&long_name));
    let registry = registry();

    for (fill, resumed) in [(0, true), (223, false)] {
        let (mut first, mut first_ex) = client(&registry);
        let (mut server, mut server_ex) = server_with_ticket_key(&registry, &example);
        let session = drive(&mut first, &mut first_ex, &mut server, &mut server_ex).unwrap();

        let (mut client, mut client_ex) = client(&registry);
        client_ex.application_protos.resize(1 + fill, vec![1; 255]);
        client.set_session(&session[8..8 + RUSTLS_SESSION_TOKEN_LEN]).unwrap();
        let (mut server, mut server_ex) = server_with_ticket_key(&registry, &example);
        step(&mut client, &mut client_ex);
        let initial = drain_all(&mut client_ex, Epoch::Initial);
        server.provide_data(Level::Initial, &initial).unwrap();
        step(&mut server, &mut server_ex);
        client.provide_data(Level::Initial, &drain_all(&mut server_ex, Epoch::Initial)).unwrap();
        client.provide_data(Level::Handshake, &drain_all(&mut server_ex, Epoch::Handshake)).unwrap();
        step(&mut client, &mut client_ex);
        assert!(client.is_completed());
        assert_eq!(client.is_resumed(), resumed);
    }
}

#[test]
fn data_that_leaves_no_room_for_answers_is_refused() {
    let example = example();
    let registry = registry();
    let (mut client, mut client_ex) = client(&registry);
    let (mut server, mut server_ex) = server(&registry, &example);
    step(&mut client, &mut client_ex);
    let room = (HELLO_ROOM - 9) / 2;
    assert!(client.conn.as_ref().unwrap().has_room(room));
    assert!(!client.conn.as_ref().unwrap().has_room(room + 1));
    assert_eq!(client.provide_data(Level::Initial, &vec![0; room + 1]), Err(Error::TlsFail));

    // What was refused did not reach the connection.
    server.provide_data(Level::Initial, &drain(&mut client_ex, Epoch::Initial)).unwrap();
    step(&mut server, &mut server_ex);
    let server_initial = drain(&mut server_ex, Epoch::Initial);
    client.provide_data(Level::Initial, &server_initial).unwrap();
    assert!(client.conn.as_ref().unwrap().has_room(usize::MAX));
    client.provide_data(Level::Handshake, &drain(&mut server_ex, Epoch::Handshake)).unwrap();
    step(&mut client, &mut client_ex);
    assert!(client.is_completed());
    assert!(server.conn.as_ref().unwrap().has_room(usize::MAX));

    let mut ctx = server_context(&registry, &example);
    ctx.set_verify(true);
    ctx.load_verify_locations_from_file(&example.root_pem).unwrap();
    let (mut server, _server_ex) = handshake_from(&mut ctx, true);
    assert_eq!(server.plan_server().unwrap().client_auth, ClientAuth::Roots);
    assert_eq!(
        server.provide_data(Level::Initial, &vec![0; MAX_CLIENT_DATA_LEN + 1]),
        Err(Error::TlsFail)
    );
    assert!(server.conn.as_ref().unwrap().has_room(MAX_CLIENT_DATA_LEN));
    assert!(!server.conn.as_ref().unwrap().has_room(MAX_CLIENT_DATA_LEN + 1));
}

#[test]
fn names_and_chains_without_room_are_refused() {
    let root = |len: usize| RootAnchor {
        subject: vec![0; len],
        public_key: Vec::new(),
        constrained: false,
    };
    assert!(subjects_have_room(Vec::new()));
    assert!(subjects_have_room(vec![root(MAX_SUBJECTS_LEN - 8)]));
    assert!(!subjects_have_room(vec![root(MAX_SUBJECTS_LEN - 7)]));
    assert!(subjects_have_room(vec![root(100), root(MAX_SUBJECTS_LEN - 116)]));
    assert!(!subjects_have_room(vec![root(100), root(MAX_SUBJECTS_LEN - 115)]));

    let example = example();
    let registry = registry();
    let (mut handshake, mut ex_data) = server(&registry, &example);
    assert!(handshake.build_server_config().is_ok());
    handshake.certificate_chain.as_mut().unwrap().push(vec![0; 0xff_0000]);
    assert!(matches!(handshake.build_server_config(), Err(Error::TlsFail)));
    assert_eq!(handshake.do_handshake(&mut ex_data), Err(Error::TlsFail));

    let mut ctx = server_context(&registry, &example);
    let (mut handshake, _ex_data) = handshake_from(&mut ctx, false);
    assert!(handshake.build_client_connection().is_ok());
    handshake.certificate_chain.as_mut().unwrap().push(vec![0; 0xff_0000]);
    assert!(matches!(handshake.build_client_connection(), Err(Error::TlsFail)));
}

#[test]
fn client_configurations_need_a_plan_and_a_good_key() {
    let example = example();
    let registry = registry();
    let (mut handshake, _ex_data) = client(&registry);
    assert!(handshake.build_client_config().is_ok());
    handshake.server_name = None;
    assert!(matches!(handshake.build_client_config(), Err(Error::TlsFail)));

    let mut ctx = server_context(&registry, &example);
    let (mut handshake, _ex_data) = handshake_from(&mut ctx, false);
    assert!(handshake.build_client_config().is_ok());
    handshake.private_key.as_mut().unwrap().der.clear();
    assert!(matches!(handshake.build_client_config(), Err(Error::TlsFail)));
}
