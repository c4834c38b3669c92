//! Session stores, tickets and key logs.

use quiche_tls::error::Error;
use quiche_tls::tls::client_store::can_offer_ticket;
use quiche_tls::tls::client_store::MAX_TICKET_AGE_SECS;
use quiche_tls::tls::client_sessions::make_session_key;
use quiche_tls::tls::client_sessions::ClientSessions;
use quiche_tls::tls::client_sessions::MAX_TLS13_TICKETS_PER_SERVER;
use quiche_tls::tls::key_log::drain_into;
use quiche_tls::tls::key_log::key_log_line;
use quiche_tls::tls::key_log::LogLines;
use quiche_tls::tls::key_log::QuicheKeyLog;
use quiche_tls::tls::server_sessions::QuicheServerSessionStore;
use quiche_tls::tls::server_sessions::ServerSessions;
use quiche_tls::tls::session_registry::encode_quiche_session;
use quiche_tls::tls::session_registry::export_ticket;
use quiche_tls::tls::session_registry::import_ticket;
use quiche_tls::tls::session_registry::Registry;
use quiche_tls::tls::session_registry::MAX_RUSTLS_SESSIONS;
use quiche_tls::tls::ticket::QuicheTicketProducer;
use quiche_tls::tls::ticket::MAX_TICKET_CIPHERTEXT_LEN;
use quiche_tls::tls::ticket::TICKET_KEY_LEN;
use rustls::crypto::TicketProducer;
use rustls::server::StoresServerSessions;
use rustls::KeyLog;

fn token(n: u16) -> [u8; 16] {
    let mut token = [0; 16];
    token[..2].copy_from_slice(&n.to_be_bytes());
    token
}

#[test]
fn stored_sessions_are_found_and_taken() {
    let mut sessions = ServerSessions::new(2);
    sessions.put(b"a".to_vec(), b"1".to_vec());
    sessions.put(b"b".to_vec(), b"2".to_vec());

    assert_eq!(sessions.get(b"a"), Some(b"1".to_vec()));
    assert_eq!(sessions.get(b"c"), None);
    assert_eq!(sessions.take(b"a"), Some(b"1".to_vec()));
    assert_eq!(sessions.take(b"a"), None);
    assert_eq!(sessions.get(b"b"), Some(b"2".to_vec()));
    assert!(sessions.can_cache());
    assert!(!ServerSessions::new(0).can_cache());
}

#[test]
fn full_store_gives_up_the_oldest_session() {
    let mut sessions = ServerSessions::new(2);
    sessions.put(b"a".to_vec(), b"1".to_vec());
    sessions.put(b"b".to_vec(), b"2".to_vec());
    sessions.put(b"a".to_vec(), b"3".to_vec());
    sessions.put(b"c".to_vec(), b"4".to_vec());

    assert_eq!(sessions.get(b"b"), None);
    assert_eq!(sessions.get(b"a"), Some(b"3".to_vec()));
    assert_eq!(sessions.get(b"c"), Some(b"4".to_vec()));
}

#[test]
fn shared_store_keeps_sessions() {
    let store = QuicheServerSessionStore::new(1);

    assert!(store.put(b"a".to_vec(), b"1".to_vec()));
    assert_eq!(store.get(b"a"), Some(b"1".to_vec()));
    assert!(store.put(b"b".to_vec(), b"2".to_vec()));
    assert_eq!(store.get(b"a"), None);
    assert_eq!(store.take(b"b"), Some(b"2".to_vec()));
    assert_eq!(store.take(b"b"), None);
    assert!(store.can_cache());
    assert!(!QuicheServerSessionStore::new(0).can_cache());
    assert_eq!(format!("{store:?}"), "QuicheServerSessionStore { capacity: 1, .. }");
}

#[test]
fn client_remembers_each_server() {
    let mut sessions: ClientSessions<u8, u8> = ClientSessions::new();
    let a = make_session_key(&[1; 32], "Example.com");
    let b = make_session_key(&[2; 32], "example.com");
    assert_eq!(a, make_session_key(&[1; 32], "EXAMPLE.COM"));
    assert_ne!(a, b);

    assert_eq!(sessions.kx_hint(&a), None);
    sessions.set_kx_hint(a.clone(), 0x001d);
    assert_eq!(sessions.kx_hint(&a), Some(0x001d));
    assert_eq!(sessions.kx_hint(&b), None);

    sessions.set_tls12_session(a.clone(), 7);
    assert_eq!(sessions.tls12_session(&a), Some(&7));
    assert_eq!(sessions.tls12_session(&b), None);
    sessions.remove_tls12_session(&b);
    sessions.remove_tls12_session(&a);
    assert_eq!(sessions.tls12_session(&a), None);
    assert_eq!(sessions.kx_hint(&a), Some(0x001d));
}

#[test]
fn newest_ticket_is_taken_first_and_oldest_dropped() {
    let mut sessions: ClientSessions<u8, u8> = ClientSessions::new();
    let key = b"key".to_vec();
    assert_eq!(sessions.take_tls13_ticket(&key), None);
    for ticket in 0..10 {
        sessions.insert_tls13_ticket(key.clone(), ticket);
    }
    sessions.insert_tls13_ticket(b"other".to_vec(), 99);
    for ticket in (2..10).rev() {
        assert_eq!(sessions.take_tls13_ticket(&key), Some(ticket));
    }
    assert_eq!(sessions.take_tls13_ticket(&key), None);
    assert_eq!(sessions.take_tls13_ticket(b"other"), Some(99));
    assert_eq!(MAX_TLS13_TICKETS_PER_SERVER, 8);
}

#[test]
fn tokens_work_once() {
    let mut registry: Registry<u8> = Registry::new();
    let mut sessions: ClientSessions<u8, u8> = ClientSessions::new();
    let exported = export_ticket(&mut registry, token(5), b"key".to_vec(), 42, b"params");
    assert_eq!(exported, encode_quiche_session(&token(5), b"params"));

    assert_eq!(import_ticket(&mut registry, &mut sessions, &token(5)[..15]), Err(Error::TlsFail));
    assert_eq!(import_ticket(&mut registry, &mut sessions, &token(6)), Err(Error::TlsFail));
    assert_eq!(import_ticket(&mut registry, &mut sessions, &token(5)), Ok(()));
    assert_eq!(import_ticket(&mut registry, &mut sessions, &token(5)), Err(Error::TlsFail));
    assert_eq!(sessions.take_tls13_ticket(b"key"), Some(42));
}

#[test]
fn full_registry_gives_up_one_session() {
    let mut registry: Registry<u16> = Registry::new();
    let count = MAX_RUSTLS_SESSIONS as u16;
    for n in 0..count {
        registry.insert(token(n), Vec::new(), n);
    }
    registry.insert(token(count), Vec::new(), count);

    let mut found = 0;
    for n in 0..=count {
        if let Some((_, value)) = registry.take(&token(n)) {
            assert_eq!(value, n);
            found += 1;
        }
    }
    assert_eq!(found, count);
}

#[test]
fn registered_session_can_be_replaced() {
    let mut registry: Registry<u8> = Registry::new();
    registry.insert(token(1), b"old".to_vec(), 1);
    registry.insert(token(1), b"new".to_vec(), 2);

    assert_eq!(registry.take(&token(1)), Some((b"new".to_vec(), 2)));
    assert_eq!(registry.take(&token(1)), None);
}

#[test]
fn encoded_session_carries_both_lengths() {
    assert_eq!(
        encode_quiche_session(b"tok", b"ab"),
        b"\0\0\0\0\0\0\0\x03tok\0\0\0\0\0\0\0\x02ab"
    );
    assert_eq!(encode_quiche_session(b"", b""), vec![0; 16]);
}

#[test]
fn tickets_open_to_their_message() {
    let producer = QuicheTicketProducer::new(&[0x0a; TICKET_KEY_LEN]).unwrap();
    for len in [0, 1, 15, 16, 17, 1000] {
        let message = vec![0x33; len];
        let ticket = producer.encrypt(&message).unwrap();
        assert_eq!(ticket.len(), (len / 16 + 1) * 16 + 64);
        assert_eq!(ticket[..16], [0x0a; 16]);
        assert_eq!(producer.decrypt(&ticket), Some(message.clone()));
        assert_ne!(producer.encrypt(&message).unwrap(), ticket);
    }
    assert_eq!(producer.lifetime_secs(), 24 * 60 * 60);
    assert_eq!(TicketProducer::lifetime(&producer).as_secs(), 24 * 60 * 60);
}

#[test]
fn changed_tickets_do_not_open() {
    let producer = QuicheTicketProducer::new(&[0x0a; TICKET_KEY_LEN]).unwrap();
    let ticket = producer.encrypt(b"ticket state").unwrap();
    for i in 0..ticket.len() {
        let mut changed = ticket.clone();
        changed[i] ^= 1;
        assert_eq!(producer.decrypt(&changed), None);
    }
    for len in [0, 15, 16, 31, 32, 63] {
        assert_eq!(producer.decrypt(&ticket[..len]), None);
    }
    let mut key = [0x0a; TICKET_KEY_LEN];
    key[47] = 0;
    let other = QuicheTicketProducer::new(&key).unwrap();
    assert_ne!(other.decrypt(&ticket), Some(b"ticket state".to_vec()));
    key[20] = 0;
    let other = QuicheTicketProducer::new(&key).unwrap();
    assert_eq!(other.decrypt(&ticket), None);
}

#[test]
fn long_messages_get_no_usable_ticket() {
    let producer = QuicheTicketProducer::new(&[1; TICKET_KEY_LEN]).unwrap();

    assert_eq!(producer.encrypt(&vec![0; 65_520]), None);
    assert_eq!(producer.encrypt(&vec![0; 65_456]), None);
    let longest = producer.assemble(&[0; 16], &vec![0; 65_535]).unwrap();
    assert!(longest.len() > MAX_TICKET_CIPHERTEXT_LEN);
    assert_eq!(producer.decrypt(&longest), None);
    let message = vec![0; 65_455];
    let ticket = producer.encrypt(&message).unwrap();
    assert_eq!(ticket.len(), 65_520);
    assert_eq!(producer.decrypt(&ticket), Some(message));
    assert!(producer.assemble(&[0; 16], &vec![0; 65_536]).is_none());
    assert_eq!(producer.assemble(&[2; 16], &[3; 16]).unwrap()[..48], {
        let mut front = vec![1; 16];
        front.extend_from_slice(&[2; 16]);
        front.extend_from_slice(&[3; 16]);
        front
    }[..]);
}

#[test]
fn ticket_keys_have_one_size() {
    assert!(matches!(QuicheTicketProducer::new(&[]), Err(Error::TlsFail)));
    assert!(matches!(QuicheTicketProducer::new(&[0; 47]), Err(Error::TlsFail)));
    assert!(matches!(QuicheTicketProducer::new(&[0; 49]), Err(Error::TlsFail)));
}

#[test]
fn log_lines_are_in_hexadecimal() {
    assert_eq!(
        key_log_line("LABEL", &[0x00, 0x9f, 0xa0], &[0xff]),
        b"LABEL 009fa0 ff\n"
    );
    assert_eq!(key_log_line("", &[], &[]), b"  \n");

    let mut lines = LogLines::new();
    lines.add_line("A", &[1], &[2]);
    lines.add_line("B", &[3], &[4]);
    assert_eq!(lines.into_bytes(), b"A 01 02\nB 03 04\n");
}

#[test]
fn log_is_handed_on_once() {
    let log = QuicheKeyLog::new();
    log.log("A", &[1], &[2]);
    let mut sink = Some(b"before\n".to_vec());
    log.drain(&mut sink);
    assert_eq!(sink, Some(b"before\nA 01 02\n".to_vec()));
    log.drain(&mut sink);
    assert_eq!(sink, Some(b"before\nA 01 02\n".to_vec()));

    log.log("B", &[3], &[4]);
    let mut nowhere = None;
    log.drain(&mut nowhere);
    assert_eq!(nowhere, None);
    log.drain(&mut sink);
    assert_eq!(sink, Some(b"before\nA 01 02\n".to_vec()));
    drain_into(b"C", &mut sink);
    assert_eq!(sink, Some(b"before\nA 01 02\nC".to_vec()));
    assert_eq!(format!("{log:?}"), "QuicheKeyLog { .. }");
}

#[test]
fn old_and_long_tickets_are_not_offered() {
    assert!(can_offer_ticket(100, 100, 1000, 500));
    assert!(can_offer_ticket(100, 100, 1001, 500));
    assert!(!can_offer_ticket(100, 100, 1002, 500));
    assert!(can_offer_ticket(100, 0, 0, 0));
    assert!(can_offer_ticket(100, 100 + MAX_TICKET_AGE_SECS, 0, 0));
    assert!(!can_offer_ticket(100, 101 + MAX_TICKET_AGE_SECS, 0, 0));
    assert!(MAX_TICKET_AGE_SECS * 1000 < u64::from(u32::MAX));
}
