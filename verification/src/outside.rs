//! What the world outside answers: chance, the clock, the process and the TLS stack.
//!
//! Such an answer is not known beforehand. A record of it stays, so that a contract can
//! speak of what was answered. Records come from here alone: no one else can make one.

use crate::crypto::rustls_provider::built_in_provider;
use crate::crypto::rustls_provider::installed_provider;
use crate::crypto::rustls_provider::key_tag_len;
use crate::crypto::rustls_provider::provider_random;
use crate::crypto::rustls_provider::provider_suites;
use crate::crypto::rustls_provider::QuicSuite;
use crate::quic_crypto::system_random_fill;
use crate::tls::client_store::random_token;
use crate::tls::client_store::unix_seconds;
use crate::tls::connection;
use crate::tls::setup;
use crate::tls::setup::connect_client;
use crate::tls::setup::use_rotating_tickets;
use crate::tls::setup::Made;
use crate::tls::setup::ServerSetup;
use crate::tls::setup::Tickets;
use crate::tls::ticket;
use crate::tls::ticket::cbc_encrypt;
use aws_lc_rs::error::Unspecified;
use rustls::crypto::CryptoProvider;
use rustls::quic::Connection;
use rustls::quic::PacketKeySet;
use rustls::ClientConfig;
use rustls::Error as TlsError;
use rustls::ServerConfig;
use std::sync::Arc;
use vstd::prelude::*;

verus! {

/// Asks, and gives the answer as it came.
fn ask<R, F: Fn() -> R>(question: F) -> (r: R)
    requires
        question.requires(()),
    ensures
        question.ensures((), r),
{
    question()
}

/// Asks something of one thing, and gives the answer as it came.
pub(crate) fn ask_of<A, R, F: Fn(A) -> R>(question: F, a: A) -> (r: R)
    requires
        question.requires((a,)),
    ensures
        question.ensures((a,), r),
{
    question(a)
}

/// Asks something of two things, and gives the answer as it came.
pub(crate) fn ask_about<A, B, R, F: Fn(A, B) -> R>(question: F, a: A, b: B) -> (r: R)
    requires
        question.requires((a, b)),
    ensures
        question.ensures((a, b), r),
{
    question(a, b)
}

/// Asks something of three things, and gives the answer as it came.
pub(crate) fn ask_with<A, B, C, R, F: Fn(A, B, C) -> R>(question: F, a: A, b: B, c: C) -> (r: R)
    requires
        question.requires((a, b, c)),
    ensures
        question.ensures((a, b, c), r),
{
    question(a, b, c)
}

/// A record of a draw of random bytes.
pub struct Draw {
    source: Option<CryptoProvider>,
    bytes: Option<Seq<u8>>,
}

impl Draw {
    /// The provider that was asked, or none if the system was.
    pub closed spec fn source(self) -> Option<CryptoProvider> {
        self.source
    }

    /// The bytes that were drawn, if there were any.
    pub closed spec fn bytes(self) -> Option<Seq<u8>> {
        self.bytes
    }
}

/// Draws bytes from the system. Gives whether there were any.
pub(crate) fn draw_from_system(buf: &mut [u8]) -> (r: (bool, Ghost<Draw>))
    ensures
        r.1@.source() is None,
        final(buf)@.len() == old(buf)@.len(),
        r.1@.bytes() == if r.0 {
            Some(final(buf)@)
        } else {
            None
        },
        exists|given: &mut [u8], answer: Result<(), Unspecified>| #[trigger]
            call_ensures(system_random_fill, (given,), answer) && r.0 == answer is Ok
                && final(given)@ == final(buf)@,
{
    let answer: Result<(), Unspecified> = ask_of(system_random_fill, buf);
    let drawn: bool = answer.is_ok();
    let ghost bytes = if drawn {
        Some(buf@)
    } else {
        None
    };
    (drawn, Ghost(Draw { source: None, bytes }))
}

/// Draws bytes from a provider. Gives whether there were any.
pub(crate) fn draw_from_provider(provider: &CryptoProvider, buf: &mut [u8]) -> (r: (
    bool,
    Ghost<Draw>,
))
    ensures
        r.1@.source() == Some(*provider),
        final(buf)@.len() == old(buf)@.len(),
        r.1@.bytes() == if r.0 {
            Some(final(buf)@)
        } else {
            None
        },
        exists|given: &mut [u8], answer: bool| #[trigger]
            call_ensures(provider_random, (provider, given), answer) && r.0 == answer
                && final(given)@ == final(buf)@,
{
    let drawn: bool = ask_about(provider_random, provider, buf);
    let ghost bytes = if drawn {
        Some(buf@)
    } else {
        None
    };
    (drawn, Ghost(Draw { source: Some(*provider), bytes }))
}

/// Draws a token.
pub(crate) fn draw_token() -> (r: (Option<[u8; 16]>, Ghost<Draw>))
    ensures
        r.1@.source() is None,
        r.1@.bytes() == match r.0 {
            Some(token) => Some(token@),
            None => None,
        },
        exists|answer: Result<[u8; 16], Unspecified>| #[trigger]
            call_ensures(random_token, (), answer) && match answer {
                Ok(token) => r.0 == Some(token),
                Err(_) => r.0 is None,
            },
{
    let answer: Result<[u8; 16], Unspecified> = ask(random_token);
    proof {
        assert(call_ensures(random_token, (), answer));
    }
    match answer {
        Ok(token) => (Some(token), Ghost(Draw { source: None, bytes: Some(token@) })),
        Err(_) => (None, Ghost(Draw { source: None, bytes: None })),
    }
}

/// A record of a look at the clock.
pub struct Reading {
    seconds: Option<u64>,
}

impl Reading {
    /// The seconds since the Unix epoch, unless the clock is before it.
    pub closed spec fn seconds(self) -> Option<u64> {
        self.seconds
    }
}

/// Looks at the clock.
pub(crate) fn read_clock() -> (r: (Option<u64>, Ghost<Reading>))
    ensures
        r.1@.seconds() == r.0,
        call_ensures(unix_seconds, (), r.0),
{
    let seconds: Option<u64> = ask(unix_seconds);
    (seconds, Ghost(Reading { seconds }))
}

/// A record of which providers there are.
pub struct Providers {
    installed: Option<Arc<CryptoProvider>>,
    built_in: Arc<CryptoProvider>,
}

impl Providers {
    /// The one that the process installed, if it did.
    pub closed spec fn installed(self) -> Option<Arc<CryptoProvider>> {
        self.installed
    }

    /// The one that is built in.
    pub closed spec fn built_in(self) -> Arc<CryptoProvider> {
        self.built_in
    }
}

/// Asks which providers there are.
pub(crate) fn ask_providers() -> (r: (
    Option<Arc<CryptoProvider>>,
    Arc<CryptoProvider>,
    Ghost<Providers>,
))
    ensures
        r.2@.installed() == r.0,
        r.2@.built_in() == r.1,
        call_ensures(installed_provider, (), r.0),
        call_ensures(built_in_provider, (), r.1),
{
    let installed: Option<Arc<CryptoProvider>> = ask(installed_provider);
    let built_in: Arc<CryptoProvider> = ask(built_in_provider);
    let ghost record = Providers { installed, built_in };
    (installed, built_in, Ghost(record))
}

/// A record of which suites a provider has.
pub struct Suites {
    provider: CryptoProvider,
    list: Seq<QuicSuite>,
}

impl Suites {
    /// The provider.
    pub closed spec fn provider(self) -> CryptoProvider {
        self.provider
    }

    /// Its suites.
    pub closed spec fn list(self) -> Seq<QuicSuite> {
        self.list
    }
}

/// Asks a provider for its suites.
pub(crate) fn ask_suites(provider: &CryptoProvider) -> (r: (Vec<QuicSuite>, Ghost<Suites>))
    ensures
        forall|i: int| 0 <= i < r.0@.len() ==> (#[trigger] r.0@[i]).well_formed(),
        r.1@.provider() == *provider,
        r.1@.list() == r.0@,
        call_ensures(provider_suites, (provider,), r.0),
{
    let list: Vec<QuicSuite> = ask_of(provider_suites, provider);
    let ghost record = Suites { provider: *provider, list: list@ };
    (list, Ghost(record))
}

/// A record of an attempt to make a client's connection.
pub struct Attempt {
    made: Made,
    succeeded: bool,
}

impl Attempt {
    /// What the connection was to be made of.
    pub closed spec fn made(self) -> Made {
        self.made
    }

    /// Whether it was made.
    pub closed spec fn succeeded(self) -> bool {
        self.succeeded
    }
}

/// Tries to make a client's connection.
pub(crate) fn try_client(config: ClientConfig, name: &str, params: Vec<u8>) -> (r: (
    Option<Connection>,
    Ghost<Attempt>,
))
    requires
        setup::is_server_name(name@),
        setup::hello_fits(setup::client_config(config).alpn, params@.len()),
        setup::client_config(config).store is Some,
        setup::client_config(config).store->0.room() <= setup::hello_rest(
            setup::client_config(config).alpn,
            params@.len(),
        ),
    ensures
        r.1@.made() == (Made::Client {
            client: setup::client_config(config),
            name: name@,
            params: params@,
        }),
        r.1@.succeeded() == r.0 is Some,
        r.0 matches Some(conn) ==> connection::starts(
            connection::connection_state(conn),
            r.1@.made(),
        ),
        exists|own: Vec<u8>| #[trigger]
            call_ensures(connect_client, (config, name, own), r.0) && own@ == params@,
{
    let ghost made = Made::Client {
        client: setup::client_config(config),
        name: name@,
        params: params@,
    };
    let conn: Option<Connection> = ask_with(connect_client, config, name, params);
    let ghost succeeded = conn is Some;
    (conn, Ghost(Attempt { made, succeeded }))
}

/// A record of how long the tags of packet keys are.
pub struct TagSize {
    keys: PacketKeySet,
    size: nat,
}

impl TagSize {
    /// The keys.
    pub closed spec fn keys(self) -> PacketKeySet {
        self.keys
    }

    /// How many bytes a tag has.
    pub closed spec fn size(self) -> nat {
        self.size
    }
}

/// Asks packet keys how long their tags are.
pub(crate) fn ask_tag_size(keys: &PacketKeySet) -> (r: (usize, Ghost<TagSize>))
    ensures
        r.1@.keys() == *keys,
        r.1@.size() == r.0,
        call_ensures(key_tag_len, (keys,), r.0),
{
    let size: usize = ask_of(key_tag_len, keys);
    (size, Ghost(TagSize { keys: *keys, size: size as nat }))
}

/// A record of an attempt to make random keys for tickets.
pub struct TicketKeys {
    made: bool,
}

impl TicketKeys {
    /// Whether there are any.
    pub closed spec fn made(self) -> bool {
        self.made
    }
}

/// Tries to give a server's configuration tickets of random keys.
pub(crate) fn try_rotating_tickets(config: &mut ServerConfig) -> (r: (bool, Ghost<TicketKeys>))
    ensures
        r.1@.made() == r.0,
        r.0 ==> setup::server_config(*final(config)) == (ServerSetup {
            tickets: Tickets::Rotating,
            ..setup::server_config(*old(config))
        }),
        exists|given: &mut ServerConfig, answer: Result<(), TlsError>| #[trigger]
            call_ensures(use_rotating_tickets, (given,), answer) && r.0 == answer is Ok
                && *final(given) == *final(config),
{
    let answer: Result<(), TlsError> = ask_of(use_rotating_tickets, config);
    let made: bool = answer.is_ok();
    (made, Ghost(TicketKeys { made }))
}

/// A record of an attempt to encrypt a message.
pub struct Encryption {
    key: Seq<u8>,
    message: Seq<u8>,
    succeeded: bool,
}

impl Encryption {
    /// The key.
    pub closed spec fn key(self) -> Seq<u8> {
        self.key
    }

    /// The message.
    pub closed spec fn message(self) -> Seq<u8> {
        self.message
    }

    /// Whether it was encrypted.
    pub closed spec fn succeeded(self) -> bool {
        self.succeeded
    }
}

/// Tries to encrypt a message under a random initialisation vector. Gives the vector and
/// the ciphertext.
pub(crate) fn try_encrypt(key: &[u8], message: &[u8]) -> (r: (
    Option<(Vec<u8>, Vec<u8>)>,
    Ghost<Encryption>,
))
    requires
        key@.len() == 16,
    ensures
        r.1@.key() == key@,
        r.1@.message() == message@,
        r.1@.succeeded() == r.0 is Some,
        r.0 matches Some((iv, ciphertext)) ==> {
            &&& iv@.len() == ticket::TICKET_IV_LEN
            &&& ciphertext@.len() == ticket::padded_len(message@.len())
            &&& ticket::cbc_decrypted(key@, iv@, ciphertext@) == Some(message@)
        },
        match r.0 {
            Some(parts) => call_ensures(cbc_encrypt, (key, message), Ok(parts)),
            None => exists|e: Unspecified| call_ensures(cbc_encrypt, (key, message), Err(e)),
        },
{
    match ask_about(cbc_encrypt, key, message) {
        Ok(parts) => (
            Some(parts),
            Ghost(Encryption { key: key@, message: message@, succeeded: true }),
        ),
        Err(_) => (None, Ghost(Encryption { key: key@, message: message@, succeeded: false })),
    }
}

} // verus!
