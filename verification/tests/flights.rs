//! What flights do to keys, levels and streams.

use quiche_tls::crypto::rustls_provider::initial_keys;
use quiche_tls::crypto::Level;
use quiche_tls::error::Error;
use quiche_tls::packet::CryptoContexts;
use quiche_tls::tls::flight::apply_flight;
use quiche_tls::tls::flight::install_zero_rtt_keys;
use quiche_tls::tls::flight::Flight;
use quiche_tls::tls::flight::KeyChange;
use rustls::quic::DirectionalKeys;

fn keys() -> (DirectionalKeys, DirectionalKeys) {
    let keys = initial_keys(b"12345678", 1, false).unwrap();
    (keys.local, keys.remote)
}

fn handshake_change() -> Option<KeyChange> {
    let (local, remote) = keys();
    Some(KeyChange::Handshake { local, remote })
}

fn flight(data: &[u8], change: Option<KeyChange>) -> Flight {
    Flight { data: data.to_vec(), change, zero_rtt: None }
}

#[test]
fn client_sends_under_the_keys_that_came() {
    let mut ctx = CryptoContexts::new();
    let (mut level, mut early) = (Level::Initial, false);

    let r = apply_flight(&mut ctx, &mut level, &mut early, false, flight(b"hi", handshake_change()));
    assert_eq!(r, Ok(true));
    assert_eq!(level, Level::Handshake);
    assert!(ctx.handshake.has_keys());
    assert!(ctx.handshake.data_available());
    assert!(!ctx.initial.data_available());
    assert!(!ctx.initial.has_keys() && !ctx.application.has_keys());

    let r = apply_flight(&mut ctx, &mut level, &mut early, false, flight(b"", None));
    assert_eq!(r, Ok(false));
    assert_eq!(level, Level::Handshake);
    assert!(ctx.handshake.has_keys());
}

#[test]
fn server_sends_under_the_keys_it_had() {
    let mut ctx = CryptoContexts::new();
    let (mut level, mut early) = (Level::Initial, false);

    let r = apply_flight(&mut ctx, &mut level, &mut early, true, flight(b"hi", handshake_change()));
    assert_eq!(r, Ok(true));
    assert_eq!(level, Level::Handshake);
    assert!(ctx.initial.data_available());
    assert!(!ctx.handshake.data_available());
    assert!(ctx.handshake.has_keys());

    let r = apply_flight(&mut ctx, &mut level, &mut early, true, flight(b"ho", None));
    assert_eq!(r, Ok(false));
    assert!(ctx.handshake.data_available());
    assert!(!ctx.application.data_available());
}

#[test]
fn finished_streams_take_no_flights() {
    let mut ctx = CryptoContexts::new();
    let (mut level, mut early) = (Level::OneRTT, false);
    ctx.application.crypto_stream.send.write(b"", true).unwrap();

    let r = apply_flight(&mut ctx, &mut level, &mut early, true, flight(b"hi", handshake_change()));
    assert_eq!(r, Err(Error::TlsFail));
    assert_eq!(level, Level::OneRTT);
    assert!(!ctx.handshake.has_keys());

    let r = apply_flight(&mut ctx, &mut level, &mut early, true, flight(b"", handshake_change()));
    assert_eq!(r, Ok(true));
    assert_eq!(level, Level::Handshake);
    assert!(ctx.handshake.has_keys());
}

#[test]
fn early_keys_open_for_servers_and_seal_for_clients() {
    let mut ctx = CryptoContexts::new();
    let mut early = false;
    install_zero_rtt_keys(&mut ctx, &mut early, true, None);
    assert!(!early);
    install_zero_rtt_keys(&mut ctx, &mut early, true, Some(keys().0));
    assert!(early);
    assert!(ctx.application.crypto_0rtt_open.is_some());
    assert!(ctx.application.crypto_seal.is_none());

    let mut ctx = CryptoContexts::new();
    let mut early = false;
    install_zero_rtt_keys(&mut ctx, &mut early, false, Some(keys().0));
    assert!(early);
    assert!(ctx.application.crypto_0rtt_open.is_none());
    assert!(ctx.application.crypto_seal.is_some());

    early = false;
    install_zero_rtt_keys(&mut ctx, &mut early, false, Some(keys().1));
    assert!(!early);
}
