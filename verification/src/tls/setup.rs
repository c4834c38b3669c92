//! Configurations and connections of the TLS stack.

use crate::bytes;
use crate::bytes::list_len;
use crate::tls::client_store::QuicheClientSessionStore;
use crate::tls::connection;
use crate::tls::credentials;
use crate::tls::credentials::OwnIdentity;
use crate::tls::identity;
use crate::tls::key_log::QuicheKeyLog;
use crate::tls::roots;
use crate::tls::roots::Anchor;
use crate::tls::server_sessions::QuicheServerSessionStore;
use crate::tls::ticket::QuicheTicketProducer;
use crate::tls::verify;
use crate::tls::verify::ClientCheck;
use crate::tls::verify::NoCertificateVerification;
use crate::tls::verify::RecordingClientVerifier;
use crate::tls::verify::RecordingServerVerifier;
use crate::tls::verify::ServerCheck;
use rustls::client::Resumption;
use rustls::client::WebPkiServerVerifier;
use rustls::crypto::Credentials;
use rustls::crypto::SingleCredential;
use rustls::enums::ApplicationProtocol;
use rustls::pki_types::InvalidDnsNameError;
use rustls::pki_types::ServerName;
use rustls::quic::ClientConnection;
use rustls::quic::Connection;
use rustls::quic::ServerConnection;
use rustls::quic::Version;
use rustls::server::VerifierBuilderError;
use rustls::server::WebPkiClientVerifier;
use rustls::ClientConfig;
use rustls::Error as TlsError;
use rustls::RootCertStore;
use rustls::ServerConfig;
use std::sync::Arc;
use vstd::prelude::*;

verus! {

/// A client's configuration.
#[verifier::external_type_specification]
#[verifier::external_body]
pub struct ExClientConfig(ClientConfig);

/// A server's configuration.
#[verifier::external_type_specification]
#[verifier::external_body]
pub struct ExServerConfig(ServerConfig);

/// A connection.
#[verifier::external_type_specification]
#[verifier::external_body]
pub struct ExConnection(Connection);

/// The name of a server.
#[verifier::external_type_specification]
#[verifier::external_body]
pub struct ExServerName<'a>(ServerName<'a>);

/// The error of reading a server's name.
#[verifier::external_type_specification]
#[verifier::external_body]
pub struct ExInvalidDnsNameError(InvalidDnsNameError);

/// The error of making a check.
#[verifier::external_type_specification]
#[verifier::external_body]
pub struct ExVerifierBuilderError(VerifierBuilderError);

/// Whom a client trusts.
#[derive(Clone, Copy, Debug, PartialEq, Eq, Structural)]
pub enum Trust {
    /// Any server.
    Anyone,
    /// Servers that lead to a root.
    Roots,
}

/// What a server asks of clients.
#[derive(Clone, Copy, Debug, PartialEq, Eq, Structural)]
pub enum ClientAuth {
    /// Nothing.
    NotAsked,
    /// An identity, which is recorded and turned down.
    RecordOnly,
    /// An identity that leads to a root, or none.
    Roots,
}

/// Where a server's tickets come from.
#[derive(Clone, Copy, Debug, PartialEq, Eq, Structural)]
pub enum TicketSource {
    /// A fixed key.
    Fixed,
    /// Nowhere: sessions are stored instead.
    Stored,
    /// Random keys.
    Rotating,
}

/// What is decided of a client's connection.
#[derive(Clone, Copy, Debug, PartialEq, Eq, Structural)]
pub struct ClientPlan {
    pub trust: Trust,
    /// Whether the client shows a certificate when asked.
    pub credentials: bool,
    pub early_data: bool,
    pub key_log: bool,
}

/// What is decided of a server's connection.
#[derive(Clone, Copy, Debug, PartialEq, Eq, Structural)]
pub struct ServerPlan {
    pub client_auth: ClientAuth,
    pub max_early_data_size: u32,
    pub tickets: TicketSource,
    pub key_log: bool,
}

/// What a client's configuration holds.
pub struct ClientSetup {
    /// How servers are checked.
    pub check: ServerCheck,
    /// What the client shows when asked.
    pub own: Option<OwnIdentity>,
    /// The application protocols that are offered.
    pub alpn: Seq<Seq<u8>>,
    /// Where sessions are kept, if that was set.
    pub store: Option<QuicheClientSessionStore>,
    pub early_data: bool,
    /// Where keys are logged, if that was set.
    pub key_log: Option<Arc<QuicheKeyLog>>,
}

/// What makes a server's tickets.
pub enum Tickets {
    /// What the TLS stack came with.
    Unset,
    /// A fixed key.
    Fixed(Arc<QuicheTicketProducer>),
    /// Nothing: sessions are stored instead.
    Stored,
    /// Random keys.
    Rotating,
}

/// What a server's configuration holds.
pub struct ServerSetup {
    /// Whether it came from the builder of the TLS 1.3 provider, and nothing was set
    /// but what is here.
    pub complete: bool,
    /// How clients are checked.
    pub check: ClientCheck,
    /// What the server shows.
    pub own: OwnIdentity,
    /// The application protocols that are offered.
    pub alpn: Seq<Seq<u8>>,
    pub max_early_data_size: u32,
    /// Where sessions are kept, if that was set.
    pub storage: Option<Arc<QuicheServerSessionStore>>,
    pub tickets: Tickets,
    /// Where keys are logged, if that was set.
    pub key_log: Option<Arc<QuicheKeyLog>>,
}

/// What a connection was made of.
pub enum Made {
    /// A configuration, the server's name, and the endpoint's transport parameters.
    Client { client: ClientSetup, name: Seq<char>, params: Seq<u8> },
    /// A configuration, and the endpoint's transport parameters.
    Server { server: ServerSetup, params: Seq<u8> },
}

/// What a `ClientConfig` holds of what the library sets.
pub uninterp spec fn client_config(config: ClientConfig) -> ClientSetup;

/// What a `ServerConfig` holds of what the library sets.
pub uninterp spec fn server_config(config: ServerConfig) -> ServerSetup;

/// A client's configuration with a check and credentials, and nothing else set.
pub open spec fn plain_client(check: ServerCheck, own: Option<OwnIdentity>) -> ClientSetup {
    ClientSetup {
        check,
        own,
        alpn: Seq::empty(),
        store: None,
        early_data: false,
        key_log: None,
    }
}

/// A server's configuration with a check and credentials, and nothing else set.
pub open spec fn plain_server(check: ClientCheck, own: OwnIdentity) -> ServerSetup {
    ServerSetup {
        complete: true,
        check,
        own,
        alpn: Seq::empty(),
        max_early_data_size: 0,
        storage: None,
        tickets: Tickets::Unset,
        key_log: None,
    }
}

/// How many bytes of a client's first message there are for what is not the TLS stack's
/// own. The extensions of the message have room for 65535 bytes, and what the TLS stack
/// adds to those that are counted here takes fewer than 4096 of them.
pub const HELLO_ROOM: usize = 0xf000;

/// The most bytes that the offered protocols and the transport parameters may have.
/// The rest of the room is shared by the ticket of an earlier session and the cookie
/// that a server may ask to get back.
pub const MAX_HELLO_LEN: usize = 0xe000;

/// The most bytes of handshake data that a server takes which puts the identity of a
/// client into tickets of random keys. The length of a ticket takes two bytes.
pub const MAX_CLIENT_DATA_LEN: usize = 0xf000;

/// How many bytes of a client's first message protocols and transport parameters take.
pub open spec fn hello_len(protocols: Seq<Seq<u8>>, params_len: nat) -> nat {
    bytes::listed_len(protocols, 1) + params_len
}

/// Whether a client's first message can hold protocols and transport parameters: each
/// protocol has 1 to 255 bytes, and all together leave room for the rest.
pub open spec fn hello_fits(protocols: Seq<Seq<u8>>, params_len: nat) -> bool {
    &&& forall|i: int| 0 <= i < protocols.len() ==> 1 <= (#[trigger] protocols[i]).len() <= 255
    &&& hello_len(protocols, params_len) <= MAX_HELLO_LEN
}

/// How many bytes there are for the ticket of an earlier session, and as many for a
/// cookie, in a message that has room for the protocols and the transport parameters.
pub open spec fn hello_rest(protocols: Seq<Seq<u8>>, params_len: nat) -> nat {
    if hello_fits(protocols, params_len) {
        ((HELLO_ROOM - hello_len(protocols, params_len)) / 2) as nat
    } else {
        0
    }
}

/// How many bytes there are for the ticket of an earlier session, and as many for a
/// cookie: none if there is no room for the protocols and the transport parameters.
pub fn hello_room(protocols: &Vec<Vec<u8>>, params: &[u8]) -> (r: usize)
    ensures
        r == hello_rest(identity::views(protocols@), params@.len()),
        r > 0 <==> hello_fits(identity::views(protocols@), params@.len()),
        r <= HELLO_ROOM,
{
    let ghost all: Seq<Seq<u8>> = identity::views(protocols@);
    let mut i: usize = 0;
    while i < protocols.len()
        invariant
            i <= protocols@.len(),
            all == identity::views(protocols@),
            forall|j: int| 0 <= j < i ==> 1 <= (#[trigger] all[j]).len() <= 255,
        decreases protocols@.len() - i,
    {
        let n: usize = protocols[i].len();
        proof {
            assert(all[i as int].len() == n);
        }
        if n < 1 || n > 255 {
            return 0;
        }
        i = i + 1;
    }
    proof {
        assert(all =~= protocols@.map_values(|item: Vec<u8>| item@));
    }
    match list_len(protocols, 1, MAX_HELLO_LEN) {
        None => 0,
        Some(len) => {
            if params.len() > MAX_HELLO_LEN - len {
                0
            } else {
                (HELLO_ROOM - len - params.len()) / 2
            }
        },
    }
}

/// Whether the messages that a connection sends have room for what they are to hold,
/// apart from what the peer asks for: protocols, transport parameters and a ticket, the
/// endpoint's certificate chain, and the names of authorities.
pub open spec fn messages_fit(made: Made) -> bool {
    match made {
        Made::Client { client, params, .. } => {
            &&& hello_fits(client.alpn, params.len())
            &&& client.store is Some
            &&& client.store->0.room() <= hello_rest(client.alpn, params.len())
            &&& client.own matches Some(own) ==> credentials::chain_fits(own.chain)
        },
        Made::Server { server, params } => {
            &&& params.len() <= MAX_HELLO_LEN
            &&& credentials::chain_fits(server.own.chain)
            &&& server.check matches ClientCheck::Roots { inner, .. } ==> roots::subjects_fit(
                inner,
            )
        },
    }
}

/// How many bytes of the peer's data a connection may be handed in all, so that its
/// answers have room for what comes back of them. A client gives a cookie back as long
/// as the server's first message is missing. A server puts the identity of a client into
/// tickets, if it asks for one.
pub open spec fn data_room(made: Made) -> Option<nat> {
    match made {
        Made::Client { client, params, .. } => Some(hello_rest(client.alpn, params.len())),
        Made::Server { server, .. } => if server.check is Roots && server.tickets is Rotating {
            Some(MAX_CLIENT_DATA_LEN as nat)
        } else {
            None
        },
    }
}

/// Whether `ServerName::try_from` takes a name.
pub uninterp spec fn is_server_name(name: Seq<char>) -> bool;

/// `ServerName::try_from` on a name.
#[verifier::external_body]
pub(crate) fn parse_server_name(name: &str) -> (r: Result<
    ServerName<'static>,
    InvalidDnsNameError,
>)
    ensures
        r is Ok == is_server_name(name@),
{
    Ok(ServerName::try_from(name)?.to_owned())
}

/// The roots that a `WebPkiServerVerifier` leads servers to.
pub uninterp spec fn server_roots(check: WebPkiServerVerifier) -> Seq<Anchor>;

/// The roots that a `WebPkiClientVerifier` leads clients to.
pub uninterp spec fn client_roots(check: WebPkiClientVerifier) -> Seq<Anchor>;

/// `WebPkiServerVerifier::builder` and its `build`, which fails exactly when there are
/// no roots. The check takes the schemes of the TLS 1.3 provider.
#[verifier::external_body]
pub(crate) fn server_check(root_store: RootCertStore) -> (r: Result<
    WebPkiServerVerifier,
    VerifierBuilderError,
>)
    ensures
        r is Ok == (roots::anchors(root_store).len() > 0),
        r matches Ok(check) ==> server_roots(check) == roots::anchors(root_store)
            && verify::server_schemes(check) == verify::provider_scheme_numbers(),
{
    let provider = rustls_aws_lc_rs::DEFAULT_TLS13_PROVIDER;
    WebPkiServerVerifier::builder(Arc::new(root_store), &provider).build()
}

/// `WebPkiClientVerifier::builder` and its `build` for clients that may stay anonymous,
/// which fails exactly when there are no roots. The check takes the schemes of the TLS
/// 1.3 provider. With debug assertions it panics on a root whose name takes more than
/// 65535 bytes.
#[verifier::external_body]
pub(crate) fn client_check(root_store: RootCertStore) -> (r: Result<
    WebPkiClientVerifier,
    VerifierBuilderError,
>)
    requires
        roots::subjects_fit(roots::anchors(root_store)),
    ensures
        r is Ok == (roots::anchors(root_store).len() > 0),
        r matches Ok(check) ==> client_roots(check) == roots::anchors(root_store)
            && verify::client_schemes(check) == verify::provider_scheme_numbers()
            && !verify::must_show(check),
{
    let provider = rustls_aws_lc_rs::DEFAULT_TLS13_PROVIDER;
    WebPkiClientVerifier::builder(Arc::new(root_store), &provider).allow_unauthenticated().build()
}

/// `ClientConfig::builder` of the TLS 1.3 provider up to
/// `with_client_credential_resolver`, with a check of servers and with credentials.
/// The provider is complete, so it does not fail. Fields are as the builder leaves
/// them: no protocols, no early data, and no log.
#[verifier::external_body]
pub(crate) fn checking_client_with(check: RecordingServerVerifier, own: Credentials) -> (r: Result<
    ClientConfig,
    TlsError,
>)
    ensures
        r is Ok,
        client_config(r->Ok_0) == plain_client(
            check@,
            Some(credentials::held_identity(own)),
        ),
{
    ClientConfig::builder(Arc::new(rustls_aws_lc_rs::DEFAULT_TLS13_PROVIDER))
        .dangerous()
        .with_custom_certificate_verifier(Arc::new(check))
        .with_client_credential_resolver(Arc::new(SingleCredential::from(own)))
}

/// `ClientConfig::builder` of the TLS 1.3 provider up to `with_no_client_auth`, with a
/// check of servers. The provider is complete, so it does not fail. Fields are as the
/// builder leaves them: no protocols, no early data, and no log.
#[verifier::external_body]
pub(crate) fn checking_client(check: RecordingServerVerifier) -> (r: Result<
    ClientConfig,
    TlsError,
>)
    ensures
        r is Ok,
        client_config(r->Ok_0) == plain_client(check@, None),
{
    ClientConfig::builder(Arc::new(rustls_aws_lc_rs::DEFAULT_TLS13_PROVIDER))
        .dangerous()
        .with_custom_certificate_verifier(Arc::new(check))
        .with_no_client_auth()
}

/// `ClientConfig::builder` of the TLS 1.3 provider up to
/// `with_client_credential_resolver`, for any server and with credentials. The
/// provider is complete, so it does not fail. Fields are as the builder leaves them:
/// no protocols, no early data, and no log.
#[verifier::external_body]
pub(crate) fn trusting_client_with(check: NoCertificateVerification, own: Credentials) -> (r: Result<
    ClientConfig,
    TlsError,
>)
    ensures
        r is Ok,
        client_config(r->Ok_0) == plain_client(
            check@,
            Some(credentials::held_identity(own)),
        ),
{
    ClientConfig::builder(Arc::new(rustls_aws_lc_rs::DEFAULT_TLS13_PROVIDER))
        .dangerous()
        .with_custom_certificate_verifier(Arc::new(check))
        .with_client_credential_resolver(Arc::new(SingleCredential::from(own)))
}

/// `ClientConfig::builder` of the TLS 1.3 provider up to `with_no_client_auth`, for any
/// server. The provider is complete, so it does not fail. Fields are as the builder
/// leaves them: no protocols, no early data, and no log.
#[verifier::external_body]
pub(crate) fn trusting_client(check: NoCertificateVerification) -> (r: Result<
    ClientConfig,
    TlsError,
>)
    ensures
        r is Ok,
        client_config(r->Ok_0) == plain_client(check@, None),
{
    ClientConfig::builder(Arc::new(rustls_aws_lc_rs::DEFAULT_TLS13_PROVIDER))
        .dangerous()
        .with_custom_certificate_verifier(Arc::new(check))
        .with_no_client_auth()
}

/// Sets the fields `alpn_protocols`, `resumption` and `enable_early_data` of a
/// `ClientConfig`.
#[verifier::external_body]
pub(crate) fn configure_client(
    config: &mut ClientConfig,
    alpn: &Vec<Vec<u8>>,
    store: Arc<QuicheClientSessionStore>,
    early_data: bool,
)
    ensures
        client_config(*final(config)) == (ClientSetup {
            alpn: identity::views(alpn@),
            store: Some(*store),
            early_data,
            ..client_config(*old(config))
        }),
{
    config.alpn_protocols = alpn.iter().cloned().map(ApplicationProtocol::from).collect();
    config.resumption = Resumption::store(store);
    config.enable_early_data = early_data;
}

/// Sets the field `key_log` of a `ClientConfig`.
#[verifier::external_body]
pub(crate) fn log_client_keys(config: &mut ClientConfig, log: Arc<QuicheKeyLog>)
    ensures
        client_config(*final(config)) == (ClientSetup {
            key_log: Some(log),
            ..client_config(*old(config))
        }),
{
    config.key_log = log;
}

/// `quic::ClientConnection::new` for the server of that name, which makes the first
/// flight and may fail. It offers the ticket that `take_tls13_ticket` of the store hands
/// on, if it does.
///
/// With debug assertions it panics on a protocol that is empty or has more than 255
/// bytes, and when the first message does not fit. So there must be room for protocols,
/// transport parameters and any ticket that the store hands on. With overflow checks it
/// panics on a ticket older than the store hands on.
#[verifier::external_body]
pub(crate) fn connect_client(config: ClientConfig, name: &str, params: Vec<u8>) -> (r: Option<
    Connection,
>)
    requires
        is_server_name(name@),
        hello_fits(client_config(config).alpn, params@.len()),
        client_config(config).store is Some,
        client_config(config).store->0.room() <= hello_rest(
            client_config(config).alpn,
            params@.len(),
        ),
    ensures
        r matches Some(conn) ==> connection::starts(
            connection::connection_state(conn),
            (Made::Client { client: client_config(config), name: name@, params: params@ }),
        ),
{
    let name = ServerName::try_from(name).ok()?.to_owned();
    let conn = ClientConnection::new(Arc::new(config), Version::V1, name, params).ok()?;
    Some(Connection::from(conn))
}

/// `ServerConfig::builder` of the TLS 1.3 provider up to
/// `with_server_credential_resolver`, which asks clients for nothing. The provider is
/// complete, so it does not fail. Fields are as the builder leaves them: no protocols,
/// no early data, and no log.
#[verifier::external_body]
pub(crate) fn open_server(own: Credentials) -> (r: Result<ServerConfig, TlsError>)
    ensures
        r is Ok,
        server_config(r->Ok_0) == plain_server(
            ClientCheck::NotAsked,
            credentials::held_identity(own),
        ),
{
    ServerConfig::builder(Arc::new(rustls_aws_lc_rs::DEFAULT_TLS13_PROVIDER))
        .with_no_client_auth()
        .with_server_credential_resolver(Arc::new(SingleCredential::from(own)))
}

/// `ServerConfig::builder` of the TLS 1.3 provider up to
/// `with_server_credential_resolver`, with a check of clients. The provider is
/// complete, so it does not fail. Fields are as the builder leaves them: no protocols,
/// no early data, and no log.
#[verifier::external_body]
pub(crate) fn checking_server(check: RecordingClientVerifier, own: Credentials) -> (r: Result<
    ServerConfig,
    TlsError,
>)
    ensures
        r is Ok,
        server_config(r->Ok_0) == plain_server(
            check@,
            credentials::held_identity(own),
        ),
{
    ServerConfig::builder(Arc::new(rustls_aws_lc_rs::DEFAULT_TLS13_PROVIDER))
        .with_client_cert_verifier(Arc::new(check))
        .with_server_credential_resolver(Arc::new(SingleCredential::from(own)))
}

/// Sets the fields `alpn_protocols`, `max_early_data_size` and `session_storage` of a
/// `ServerConfig`.
#[verifier::external_body]
pub(crate) fn configure_server(
    config: &mut ServerConfig,
    alpn: &Vec<Vec<u8>>,
    max_early_data_size: u32,
    storage: Arc<QuicheServerSessionStore>,
)
    ensures
        server_config(*final(config)) == (ServerSetup {
            alpn: identity::views(alpn@),
            max_early_data_size,
            storage: Some(storage),
            ..server_config(*old(config))
        }),
{
    config.alpn_protocols = alpn.iter().cloned().map(ApplicationProtocol::from).collect();
    config.max_early_data_size = max_early_data_size;
    config.session_storage = storage;
}

/// Sets the field `ticketer` of a `ServerConfig` to a fixed key.
#[verifier::external_body]
pub(crate) fn use_fixed_tickets(config: &mut ServerConfig, producer: Arc<QuicheTicketProducer>)
    ensures
        server_config(*final(config)) == (ServerSetup {
            tickets: Tickets::Fixed(producer),
            ..server_config(*old(config))
        }),
{
    config.ticketer = Some(producer);
}

/// Clears the field `ticketer` of a `ServerConfig`.
#[verifier::external_body]
pub(crate) fn use_no_tickets(config: &mut ServerConfig)
    ensures
        server_config(*final(config)) == (ServerSetup {
            tickets: Tickets::Stored,
            ..server_config(*old(config))
        }),
{
    config.ticketer = None;
}

/// Sets the field `ticketer` of a `ServerConfig` to what `TicketerFactory::ticketer` of
/// the TLS 1.3 provider makes from random keys. It fails when there are none.
#[verifier::external_body]
pub(crate) fn use_rotating_tickets(config: &mut ServerConfig) -> (r: Result<(), TlsError>)
    ensures
        r is Ok ==> server_config(*final(config)) == (ServerSetup {
            tickets: Tickets::Rotating,
            ..server_config(*old(config))
        }),
{
    let ticketer = rustls_aws_lc_rs::DEFAULT_TLS13_PROVIDER.ticketer_factory.ticketer()?;
    config.ticketer = Some(ticketer);
    Ok(())
}

/// Sets the field `key_log` of a `ServerConfig`.
#[verifier::external_body]
pub(crate) fn log_server_keys(config: &mut ServerConfig, log: Arc<QuicheKeyLog>)
    ensures
        server_config(*final(config)) == (ServerSetup {
            key_log: Some(log),
            ..server_config(*old(config))
        }),
{
    config.key_log = log;
}

/// `quic::ServerConnection::new`. It fails when no suite of the provider can protect
/// packets, when the amount of early data is neither 0 nor unlimited, and on a
/// fragment size that is out of range. So it does not fail on a complete configuration
/// with one of those amounts.
#[verifier::external_body]
pub(crate) fn connect_server(config: ServerConfig, params: Vec<u8>) -> (r: Result<
    Connection,
    TlsError,
>)
    ensures
        server_config(config).complete && (server_config(config).max_early_data_size == 0
            || server_config(config).max_early_data_size == u32::MAX) ==> r is Ok,
        r matches Ok(conn) ==> connection::starts(
            connection::connection_state(conn),
            (Made::Server { server: server_config(config), params: params@ }),
        ),
{
    ServerConnection::new(Arc::new(config), Version::V1, params).map(Connection::from)
}

/// A client's first message has room for protocols of 1 to 255 bytes each, if they, one
/// byte more for each and the transport parameters have at most 57344 bytes. Of 61440
/// bytes, what is left is shared by a ticket and a cookie. Without room there is none for
/// these either.
pub proof fn law_hello_room_is_shared(protocols: Seq<Seq<u8>>, params_len: nat)
    ensures
        ({
            let used = bytes::listed_len(protocols, 1) + params_len;
            let rest = hello_rest(protocols, params_len);
            &&& hello_fits(protocols, params_len) <==> used <= 57_344 && forall|i: int|
                0 <= i < protocols.len() ==> 1 <= (#[trigger] protocols[i]).len()
                    && protocols[i].len() <= 255
            &&& hello_fits(protocols, params_len) ==> rest > 0 && used + 2 * rest <= 61_440
                && used + 2 * rest >= 61_439
            &&& !hello_fits(protocols, params_len) ==> rest == 0
        }),
        MAX_CLIENT_DATA_LEN == 61_440,
{
}

/// The messages of a client fit when its first one does, with any ticket that its store
/// hands on, and its certificate chain does, if it shows one. Those of a server fit when
/// its transport parameters, its certificate chain, and the names of the authorities that
/// it tells clients of do.
pub proof fn law_messages_that_fit(made: Made)
    ensures
        made is Client ==> (messages_fit(made) <==> {
            let client = made->client;
            &&& hello_fits(client.alpn, made->Client_params.len())
            &&& client.store is Some
            &&& client.store->0.room() <= hello_rest(client.alpn, made->Client_params.len())
            &&& client.own is Some ==> credentials::chain_fits(client.own->0.chain)
        }),
        made is Server ==> (messages_fit(made) <==> {
            let server = made->server;
            &&& made->Server_params.len() <= 57_344
            &&& credentials::chain_fits(server.own.chain)
            &&& server.check is Roots ==> roots::subjects_fit(server.check->inner)
        }),
{
}

/// A client is handed no more data than there is room for a cookie. A server is handed at
/// most 61440 bytes if it asks clients for an identity that leads to a root and makes
/// tickets of random keys, and any amount otherwise.
pub proof fn law_data_room(made: Made)
    ensures
        made is Client ==> data_room(made) == Some(
            hello_rest(made->client.alpn, made->Client_params.len()),
        ),
        made is Server && made->server.check is Roots && made->server.tickets is Rotating
            ==> data_room(made) == Some(61_440nat),
        made is Server && !(made->server.check is Roots && made->server.tickets is Rotating)
            ==> data_room(made) is None,
{
}

/// A new configuration has a check and credentials, and nothing else: no protocols, no
/// early data, no store, no tickets of its own and no log.
pub proof fn law_plain_configurations(
    check: ServerCheck,
    shown: Option<OwnIdentity>,
    client: ClientCheck,
    own: OwnIdentity,
)
    ensures
        plain_client(check, shown).check == check,
        plain_client(check, shown).own == shown,
        plain_client(check, shown).alpn.len() == 0,
        plain_client(check, shown).store is None,
        !plain_client(check, shown).early_data,
        plain_client(check, shown).key_log is None,
        plain_server(client, own).complete,
        plain_server(client, own).check == client,
        plain_server(client, own).own == own,
        plain_server(client, own).alpn.len() == 0,
        plain_server(client, own).max_early_data_size == 0,
        plain_server(client, own).storage is None,
        plain_server(client, own).tickets is Unset,
        plain_server(client, own).key_log is None,
{
}

} // verus!
