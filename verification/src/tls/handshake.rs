//! A handshake: its settings, its connection and what comes of it.

use crate::crypto::keys::Open;
use crate::crypto::keys::Seal;
use crate::crypto::Algorithm;
use crate::crypto::Level;
use crate::bytes::list_len;
use crate::error::Error;
use crate::outside::try_client;
use crate::outside::try_rotating_tickets;
use crate::outside::Attempt;
use crate::outside::TicketKeys;
use crate::packet::CryptoContexts;
use crate::shared::Change;
use crate::tls::client_store;
use crate::tls::client_store::QuicheClientSessionStore;
use crate::tls::connection;
use crate::tls::connection::print_scheme;
use crate::tls::connection::rustls_cipher_to_algorithm;
use crate::tls::connection::ConnectionView;
use crate::tls::connection::HandshakeKind;
use crate::tls::connection::TlsConnection;
use crate::tls::credentials;
use crate::tls::credentials::load_credentials;
use crate::tls::credentials::OwnIdentity;
use crate::tls::credentials::PrivateKey;
use crate::tls::flight;
use crate::tls::flight::apply_flight;
use crate::tls::flight::install_zero_rtt_keys;
use crate::tls::flight::Flight;
use crate::tls::flight::FlightState;
use crate::tls::flight::FlightView;
use crate::tls::flight::KeyChange;
use crate::tls::identity;
use crate::tls::identity::copy_all;
use crate::tls::identity::copy_bytes;
use crate::tls::identity::peer_cert;
use crate::tls::identity::peer_cert_chain;
use crate::tls::identity::Identity;
use crate::tls::identity::IdentityView;
use crate::tls::key_log;
use crate::tls::key_log::QuicheKeyLog;
use crate::tls::roots;
use crate::tls::roots::copy_roots;
use crate::tls::roots::has_no_roots;
use crate::tls::roots::root_list;
use crate::tls::roots::subjects_have_room;
use crate::tls::server_sessions::QuicheServerSessionStore;
use crate::tls::setup;
use crate::tls::setup::ClientAuth;
use crate::tls::setup::ClientPlan;
use crate::tls::setup::ClientSetup;
use crate::tls::setup::Made;
use crate::tls::setup::ServerPlan;
use crate::tls::setup::ServerSetup;
use crate::tls::setup::TicketSource;
use crate::tls::setup::Tickets;
use crate::tls::setup::Trust;
use crate::tls::ticket::QuicheTicketProducer;
use crate::tls::verify;
use crate::tls::verify::ClientCheck;
use crate::tls::verify::HandshakeRecord;
use crate::tls::verify::NoCertificateVerification;
use crate::tls::verify::RecordingClientVerifier;
use crate::tls::verify::RecordingServerVerifier;
use crate::tls::verify::ServerCheck;
use rustls::crypto::Credentials;
use rustls::quic::Connection;
use rustls::quic::DirectionalKeys;
use rustls::ClientConfig;
use rustls::Error as TlsError;
use rustls::RootCertStore;
use rustls::ServerConfig;
use std::sync::Arc;
use vstd::prelude::*;

verus! {

/// The longest encoding of transport parameters.
pub const MAX_TRANSPORT_PARAMS_LEN: usize = 128;

/// What a handshake works on besides its own state.
pub struct ExData {
    /// The application protocols that are offered.
    pub application_protos: Vec<Vec<u8>>,
    /// Keys and streams.
    pub crypto_ctx: CryptoContexts,
    /// The session that was exported last.
    pub session: Option<Vec<u8>>,
    /// Where logged keys go, if anywhere.
    pub keylog: Option<Vec<u8>>,
    /// Whether this is the server's side.
    pub is_server: bool,
}

/// A handshake.
pub struct Handshake {
    /// The certificates that the endpoint shows, its own first.
    pub certificate_chain: Option<Vec<Vec<u8>>>,
    /// The key that goes with its own certificate.
    pub private_key: Option<PrivateKey>,
    /// The roots that the peer must lead to.
    pub root_store: RootCertStore,
    /// Whether the peer is checked.
    pub verify: bool,
    /// Where the connection logs keys, if it does.
    pub key_log: Option<Arc<QuicheKeyLog>>,
    /// Whether early data is used.
    pub early_data_enabled: bool,
    /// The sessions that a server keeps.
    pub server_session_storage: Arc<QuicheServerSessionStore>,
    /// What makes a server's tickets, if a key was set for them.
    pub ticket_producer: Option<Arc<QuicheTicketProducer>>,
    /// The application protocols that are offered, the preferred ones first.
    pub alpn_protocols: Vec<Vec<u8>>,
    /// Which side this is, once that is known.
    pub is_server: Option<bool>,
    /// The server that a client wants to talk to.
    pub server_name: Option<String>,
    /// The endpoint's own transport parameters, encoded.
    pub local_transport_params: Vec<u8>,
    /// The connection, once it is needed.
    pub conn: Option<TlsConnection>,
    /// The level that data is sent at.
    pub write_level: Level,
    /// Whether early data is in use.
    pub early_data_active: bool,
    /// The scheme of the peer's signature, by its number.
    pub signature_scheme: Option<u16>,
    /// The identity that a client presented, accepted or not.
    pub recorded_peer_identity: Option<Identity>,
    /// What the connection's verifiers saw.
    pub record: Arc<HandshakeRecord>,
    /// The sessions of a client.
    pub session_store: Arc<QuicheClientSessionStore>,
}

/// Whether two handshakes have the same settings: what a connection is made with.
pub open spec fn same_settings(a: Handshake, b: Handshake) -> bool {
    &&& a.certificate_chain == b.certificate_chain
    &&& a.private_key == b.private_key
    &&& a.root_store == b.root_store
    &&& a.verify == b.verify
    &&& a.key_log == b.key_log
    &&& a.early_data_enabled == b.early_data_enabled
    &&& a.server_session_storage == b.server_session_storage
    &&& a.ticket_producer == b.ticket_producer
    &&& a.is_server == b.is_server
    &&& a.server_name == b.server_name
    &&& a.local_transport_params == b.local_transport_params
    &&& a.record == b.record
    &&& a.session_store == b.session_store
}

impl Handshake {
    /// A certificate chain that was set is not empty, transport parameters are no
    /// longer than they may be, data is never sent at the level of early data, and
    /// the connection is well formed.
    pub open spec fn well_formed(&self) -> bool {
        &&& self.certificate_chain matches Some(chain) ==> chain@.len() > 0
        &&& self.local_transport_params@.len() <= MAX_TRANSPORT_PARAMS_LEN
        &&& self.write_level != Level::ZeroRTT
        &&& self.conn matches Some(conn) ==> conn.well_formed()
    }

    /// Whether the endpoint has both a certificate chain and a private key.
    pub open spec fn has_credentials(&self) -> bool {
        self.certificate_chain is Some && self.private_key is Some
    }

    /// Whether the TLS stack can use the private key.
    pub open spec fn key_loads(&self) -> bool {
        self.private_key matches Some(key) && credentials::private_key_loads(key.kind, key.der@)
    }

    /// What is decided of a server's connection. A server needs credentials.
    pub open spec fn server_plan(&self) -> Option<ServerPlan> {
        if self.has_credentials() {
            Some(
                ServerPlan {
                    client_auth: if !self.verify {
                        ClientAuth::NotAsked
                    } else if roots::anchors(self.root_store).len() == 0 {
                        ClientAuth::RecordOnly
                    } else {
                        ClientAuth::Roots
                    },
                    max_early_data_size: if self.early_data_enabled {
                        u32::MAX
                    } else {
                        0
                    },
                    tickets: if self.ticket_producer is Some {
                        TicketSource::Fixed
                    } else if self.early_data_enabled {
                        TicketSource::Stored
                    } else {
                        TicketSource::Rotating
                    },
                    key_log: self.key_log is Some,
                },
            )
        } else {
            None
        }
    }

    /// What is decided of a client's connection. A client needs the name of its
    /// server, roots if it checks the server, and both or neither of a certificate
    /// chain and a private key.
    pub open spec fn client_plan(&self) -> Option<ClientPlan> {
        if self.server_name is None || !setup::is_server_name(self.server_name->0@) {
            None
        } else if self.verify && roots::anchors(self.root_store).len() == 0 {
            None
        } else if self.certificate_chain is Some != self.private_key is Some {
            None
        } else {
            Some(
                ClientPlan {
                    trust: if self.verify {
                        Trust::Roots
                    } else {
                        Trust::Anyone
                    },
                    credentials: self.has_credentials(),
                    early_data: self.early_data_enabled,
                    key_log: self.key_log is Some,
                },
            )
        }
    }

    /// What the endpoint shows of itself, if it has both a certificate chain and a
    /// private key.
    pub open spec fn own_identity(&self) -> Option<OwnIdentity> {
        match (self.certificate_chain, self.private_key) {
            (Some(chain), Some(key)) => Some(
                OwnIdentity { chain: identity::views(chain@), key: key@ },
            ),
            _ => None,
        }
    }

    /// What the configuration of a server with credentials holds.
    pub open spec fn server_setup(&self) -> ServerSetup {
        let anchors = roots::anchors(self.root_store);
        ServerSetup {
            complete: true,
            check: if !self.verify {
                ClientCheck::NotAsked
            } else if anchors.len() == 0 {
                ClientCheck::RecordOnly { record: self.record }
            } else {
                ClientCheck::Roots { inner: anchors, record: self.record }
            },
            own: self.own_identity()->0,
            alpn: identity::views(self.alpn_protocols@),
            max_early_data_size: if self.early_data_enabled {
                u32::MAX
            } else {
                0
            },
            storage: Some(self.server_session_storage),
            tickets: match self.ticket_producer {
                Some(producer) => Tickets::Fixed(producer),
                None => if self.early_data_enabled {
                    Tickets::Stored
                } else {
                    Tickets::Rotating
                },
            },
            key_log: self.key_log,
        }
    }

    /// What a client's configuration holds.
    pub open spec fn client_setup(&self) -> ClientSetup {
        let anchors = roots::anchors(self.root_store);
        ClientSetup {
            check: if self.verify {
                ServerCheck::Roots { inner: anchors, legacy: anchors, record: self.record }
            } else {
                ServerCheck::Anyone { record: self.record }
            },
            own: self.own_identity(),
            alpn: identity::views(self.alpn_protocols@),
            store: Some(
                self.session_store.limited(
                    setup::hello_rest(
                        identity::views(self.alpn_protocols@),
                        self.local_transport_params@.len(),
                    ) as usize,
                ),
            ),
            early_data: self.early_data_enabled,
            key_log: self.key_log,
        }
    }

    /// What a connection is made of, if one can be made.
    pub open spec fn made(&self) -> Option<Made> {
        match self.is_server {
            Some(true) => if self.server_plan() is Some {
                Some(
                    Made::Server {
                        server: self.server_setup(),
                        params: self.local_transport_params@,
                    },
                )
            } else {
                None
            },
            Some(false) => if self.client_plan() is Some {
                Some(
                    Made::Client {
                        client: self.client_setup(),
                        name: self.server_name->0@,
                        params: self.local_transport_params@,
                    },
                )
            } else {
                None
            },
            None => None,
        }
    }

    /// Whether the messages of a server have room for its certificate chain, and for the
    /// names of the authorities that it tells clients of.
    pub open spec fn server_fits(&self) -> bool {
        &&& self.certificate_chain matches Some(chain) ==> credentials::chain_fits(
            identity::views(chain@),
        )
        &&& self.verify ==> roots::subjects_fit(roots::anchors(self.root_store))
    }

    /// Whether the messages of a client have room for the protocols that it offers, and
    /// for its certificate chain.
    pub open spec fn client_fits(&self) -> bool {
        &&& setup::hello_fits(
            identity::views(self.alpn_protocols@),
            self.local_transport_params@.len(),
        )
        &&& self.certificate_chain matches Some(chain) ==> credentials::chain_fits(
            identity::views(chain@),
        )
    }

    /// Whether a connection can be made for certain: a server that can use its private
    /// key, whose messages have room, and that needs no random keys for its tickets.
    pub open spec fn surely_connects(&self) -> bool {
        &&& self.is_server == Some(true)
        &&& self.key_loads()
        &&& self.server_fits()
        &&& self.server_plan() matches Some(plan)
        &&& plan.tickets != TicketSource::Rotating
    }

    /// Whether no connection can be made: the settings name none, the TLS stack cannot use
    /// the private key, or messages have no room. If it is none of these, the TLS stack
    /// was asked for just this connection and did not make it, or there were no random
    /// keys for the tickets that a server needs them for.
    pub open spec fn cannot_connect(&self) -> bool {
        ||| self.made() is None
        ||| self.has_credentials() && !self.key_loads()
        ||| self.is_server == Some(true) && !self.server_fits()
        ||| self.is_server == Some(false) && !self.client_fits()
        ||| exists|attempt: Attempt| #[trigger]
            attempt.made() == self.made()->0 && !attempt.succeeded()
        ||| self.is_server == Some(true) && self.server_setup().tickets is Rotating && exists|
            keys: TicketKeys,
        | !(#[trigger] keys.made())
    }

    /// The handshake that starts over: no connection, and the same settings.
    pub open spec fn cleared(self) -> Handshake {
        Handshake {
            conn: None,
            write_level: Level::Initial,
            early_data_active: false,
            signature_scheme: None,
            recorded_peer_identity: None,
            ..self
        }
    }

    /// The handshake data that the connection was handed, each with whether it took
    /// it.
    pub open spec fn received(&self) -> Seq<(Seq<u8>, bool)> {
        match self.conn {
            Some(conn) => conn@.received,
            None => Seq::empty(),
        }
    }

    /// The handshake data that the connection gave, each with the keys that follow
    /// it.
    pub open spec fn sent(&self) -> Seq<(Seq<u8>, Option<KeyChange>)> {
        match self.conn {
            Some(conn) => conn@.sent,
            None => Seq::empty(),
        }
    }

    /// Sets which side this is.
    pub fn init(&mut self, is_server: bool) -> (r: Result<(), Error>)
        ensures
            r is Ok,
            *final(self) == (Handshake { is_server: Some(is_server), ..*old(self) }),
    {
        self.is_server = Some(is_server);
        Ok(())
    }

    /// Changes nothing: the code point of transport parameters is fixed.
    pub fn use_legacy_codepoint(&mut self, _use_legacy: bool)
        ensures
            *final(self) == *old(self),
    {
    }

    /// Sets the server that a client wants to talk to.
    pub fn set_host_name(&mut self, name: &str) -> (r: Result<(), Error>)
        ensures
            r is Ok,
            final(self).server_name matches Some(n) && n@ == name@,
            *final(self) == (Handshake { server_name: final(self).server_name, ..*old(self) }),
    {
        self.server_name = Some(name.to_owned());
        Ok(())
    }

    /// Sets the endpoint's own transport parameters, encoded in at most 128 bytes.
    pub fn set_quic_transport_params(&mut self, encoded: &[u8]) -> (r: Result<(), Error>)
        ensures
            if encoded@.len() <= MAX_TRANSPORT_PARAMS_LEN {
                r is Ok && final(self).local_transport_params@ == encoded@
            } else {
                r == Err::<(), Error>(Error::BufferTooShort) && *final(self) == *old(self)
            },
            *final(self) == (Handshake {
                local_transport_params: final(self).local_transport_params,
                ..*old(self)
            }),
    {
        if encoded.len() > MAX_TRANSPORT_PARAMS_LEN {
            return Err(Error::BufferTooShort);
        }
        self.local_transport_params = copy_bytes(encoded);
        Ok(())
    }

    /// The peer's transport parameters, none before they came.
    pub fn quic_transport_params(&self) -> (r: &[u8])
        ensures
            r@ == match self.conn {
                Some(conn) => match conn.report.transport_params {
                    Some(params) => params@,
                    None => Seq::<u8>::empty(),
                },
                None => Seq::empty(),
            },
    {
        match &self.conn {
            Some(conn) => match &conn.report.transport_params {
                Some(params) => params.as_slice(),
                None => &[],
            },
            None => &[],
        }
    }

    /// The application protocol that was agreed on, empty before that.
    pub fn alpn_protocol(&self) -> (r: &[u8])
        ensures
            r@ == match self.conn {
                Some(conn) => match conn.report.alpn {
                    Some(alpn) => alpn@,
                    None => Seq::<u8>::empty(),
                },
                None => Seq::empty(),
            },
    {
        match &self.conn {
            Some(conn) => match &conn.report.alpn {
                Some(alpn) => alpn.as_slice(),
                None => &[],
            },
            None => &[],
        }
    }

    /// The server's name: on a server's connection the one that the client asked
    /// for, otherwise the one that was set.
    pub open spec fn known_server_name(&self) -> Option<Seq<char>> {
        let name = match self.conn {
            Some(conn) => if conn.report.is_server {
                conn.report.requested_name
            } else {
                self.server_name
            },
            None => self.server_name,
        };
        match name {
            Some(name) => Some(name@),
            None => None,
        }
    }

    /// The server's name.
    pub fn server_name(&self) -> (r: Option<&str>)
        ensures
            match self.known_server_name() {
                Some(name) => r matches Some(n) && n@ == name,
                None => r is None,
            },
    {
        let name: &Option<String> = match &self.conn {
            Some(conn) => if conn.report.is_server {
                &conn.report.requested_name
            } else {
                &self.server_name
            },
            None => &self.server_name,
        };
        match name {
            Some(name) => Some(name.as_str()),
            None => None,
        }
    }

    /// The level that data is sent at.
    pub fn write_level(&self) -> (r: Level)
        ensures
            r == self.write_level,
    {
        self.write_level
    }

    /// The cipher that was agreed on.
    pub fn cipher(&self) -> (r: Option<Algorithm>)
        ensures
            r == match self.conn {
                Some(conn) => match conn.report.cipher_suite {
                    Some(suite) => connection::suite_algorithm(suite),
                    None => None::<Algorithm>,
                },
                None => None,
            },
    {
        match &self.conn {
            Some(conn) => match conn.report.cipher_suite {
                Some(suite) => rustls_cipher_to_algorithm(suite),
                None => None,
            },
            None => None,
        }
    }

    /// Changes nothing: there are no options.
    pub fn set_options(&mut self, _opts: u32)
        ensures
            *final(self) == *old(self),
    {
    }

    /// Whether the handshake is over.
    pub open spec fn completed(&self) -> bool {
        self.conn matches Some(conn) && !conn.report.handshaking
    }

    /// Whether the handshake is over.
    pub fn is_completed(&self) -> (r: bool)
        ensures
            r == self.completed(),
    {
        match &self.conn {
            Some(conn) => !conn.report.handshaking,
            None => false,
        }
    }

    /// Whether an earlier session was resumed.
    pub fn is_resumed(&self) -> (r: bool)
        ensures
            r == (self.conn matches Some(conn) && (conn.report.kind == Some(HandshakeKind::Resumed)
                || conn.report.kind == Some(HandshakeKind::ResumedWithHelloRetryRequest))),
    {
        match &self.conn {
            Some(conn) => match conn.report.kind {
                Some(HandshakeKind::Resumed) => true,
                Some(HandshakeKind::ResumedWithHelloRetryRequest) => true,
                _ => false,
            },
            None => false,
        }
    }

    /// Starts over: the connection and what came of it is forgotten, the settings
    /// stay.
    pub fn clear(&mut self) -> (r: Result<(), Error>)
        ensures
            r is Ok,
            *final(self) == old(self).cleared(),
            exists|scheme: Option<u16>| #[trigger]
                verify::gave_up_scheme(*old(self).record, scheme),
            exists|shown: Option<Identity>| #[trigger]
                verify::gave_up_identity(*old(self).record, shown),
    {
        self.conn = None;
        self.write_level = Level::Initial;
        self.early_data_active = false;
        let scheme: Option<u16> = self.record.take_signature_scheme();
        self.signature_scheme = None;
        let shown: Option<Identity> = self.record.take_peer_identity();
        self.recorded_peer_identity = None;
        proof {
            assert(verify::gave_up_scheme(*old(self).record, scheme));
            assert(verify::gave_up_identity(*old(self).record, shown));
        }
        Ok(())
    }

    /// Takes over an exported session, given its token. A token has 16 bytes, and
    /// the registry must know it.
    pub fn set_session(&mut self, session: &[u8]) -> (r: Result<(), Error>)
        ensures
            client_store::imported(*old(self).session_store.registry(), session@, r),
            client_store::imported_into(*old(self).session_store, session@, r),
            *final(self) == *old(self),
    {
        self.session_store.import_session(session)
    }

    /// The key exchange group that was agreed on.
    pub fn curve(&self) -> (r: Option<String>)
        ensures
            match self.conn {
                Some(conn) => match conn.report.group {
                    Some(group) => r matches Some(text) && text@ == group@,
                    None => r is None,
                },
                None => r is None,
            },
    {
        match &self.conn {
            Some(conn) => match &conn.report.group {
                Some(group) => Some(group.clone()),
                None => None,
            },
            None => None,
        }
    }

    /// The scheme of the peer's signature.
    pub fn sigalg(&self) -> (r: Option<String>)
        ensures
            match self.signature_scheme {
                Some(scheme) => r matches Some(text) && text@ == connection::scheme_text(scheme),
                None => r is None,
            },
    {
        match self.signature_scheme {
            Some(scheme) => Some(print_scheme(scheme)),
            None => None,
        }
    }

    /// The identity that the peer showed: the one that the connection accepted, or
    /// else the one that was recorded.
    pub open spec fn shown_identity(&self) -> Option<IdentityView> {
        match self.conn {
            Some(conn) => match conn.report.peer_identity {
                Some(identity) => Some(identity@),
                None => match self.recorded_peer_identity {
                    Some(identity) => Some(identity@),
                    None => None,
                },
            },
            None => match self.recorded_peer_identity {
                Some(identity) => Some(identity@),
                None => None,
            },
        }
    }

    /// The identity that the peer showed.
    fn peer_identity(&self) -> (r: Option<&Identity>)
        ensures
            match self.shown_identity() {
                Some(identity) => r matches Some(i) && i@ == identity,
                None => r is None,
            },
    {
        let accepted: Option<&Identity> = match &self.conn {
            Some(conn) => match &conn.report.peer_identity {
                Some(identity) => Some(identity),
                None => None,
            },
            None => None,
        };
        match accepted {
            Some(identity) => Some(identity),
            None => match &self.recorded_peer_identity {
                Some(identity) => Some(identity),
                None => None,
            },
        }
    }

    /// The certificates that the peer showed, its own first, or its bare key.
    pub fn peer_cert_chain(&self) -> (r: Option<Vec<&[u8]>>)
        ensures
            match self.shown_identity() {
                Some(identity) => match identity.chain() {
                    Some(chain) => r matches Some(v) && identity::slice_views(v@) == chain,
                    None => r is None,
                },
                None => r is None,
            },
    {
        match self.peer_identity() {
            Some(identity) => peer_cert_chain(identity),
            None => None,
        }
    }

    /// The peer's own certificate, or its bare key.
    pub fn peer_cert(&self) -> (r: Option<&[u8]>)
        ensures
            match self.shown_identity() {
                Some(identity) => match identity.leaf() {
                    Some(leaf) => r matches Some(v) && v@ == leaf,
                    None => r is None,
                },
                None => r is None,
            },
    {
        match self.peer_identity() {
            Some(identity) => peer_cert(identity),
            None => None,
        }
    }

    /// Changes nothing: private keys do not fail on demand.
    pub fn set_failing_private_key_method(&mut self)
        ensures
            *final(self) == *old(self),
    {
    }

    /// Whether early data is in use.
    pub fn is_in_early_data(&self) -> (r: bool)
        ensures
            r == self.early_data_active,
    {
        self.early_data_active
    }

    /// Why early data was not used: no reason is ever given.
    pub fn early_data_reason(&self) -> (r: u32)
        ensures
            r == 0,
    {
        0
    }

    /// What is decided of a server's connection.
    pub fn plan_server(&self) -> (r: Result<ServerPlan, Error>)
        ensures
            match self.server_plan() {
                Some(plan) => r == Ok::<ServerPlan, Error>(plan),
                None => r == Err::<ServerPlan, Error>(Error::TlsFail),
            },
    {
        if self.certificate_chain.is_none() || self.private_key.is_none() {
            return Err(Error::TlsFail);
        }
        let client_auth: ClientAuth = if !self.verify {
            ClientAuth::NotAsked
        } else if has_no_roots(&self.root_store) {
            ClientAuth::RecordOnly
        } else {
            ClientAuth::Roots
        };
        let max_early_data_size: u32 = if self.early_data_enabled {
            u32::MAX
        } else {
            0
        };
        let tickets: TicketSource = if self.ticket_producer.is_some() {
            TicketSource::Fixed
        } else if self.early_data_enabled {
            TicketSource::Stored
        } else {
            TicketSource::Rotating
        };
        Ok(
            ServerPlan {
                client_auth,
                max_early_data_size,
                tickets,
                key_log: self.key_log.is_some(),
            },
        )
    }

    /// What is decided of a client's connection.
    pub fn plan_client(&self) -> (r: Result<ClientPlan, Error>)
        ensures
            match self.client_plan() {
                Some(plan) => r == Ok::<ClientPlan, Error>(plan),
                None => r == Err::<ClientPlan, Error>(Error::TlsFail),
            },
    {
        match &self.server_name {
            None => {
                return Err(Error::TlsFail);
            },
            Some(name) => {
                if setup::parse_server_name(name.as_str()).is_err() {
                    return Err(Error::TlsFail);
                }
            },
        }
        if self.verify && has_no_roots(&self.root_store) {
            return Err(Error::TlsFail);
        }
        if self.certificate_chain.is_some() != self.private_key.is_some() {
            return Err(Error::TlsFail);
        }
        let trust: Trust = if self.verify {
            Trust::Roots
        } else {
            Trust::Anyone
        };
        Ok(
            ClientPlan {
                trust,
                credentials: self.certificate_chain.is_some(),
                early_data: self.early_data_enabled,
                key_log: self.key_log.is_some(),
            },
        )
    }

    /// The endpoint's certificate chain and private key, ready to sign.
    fn credentials(&self) -> (r: Result<Credentials, Error>)
        requires
            self.well_formed(),
        ensures
            r is Ok == (self.has_credentials() && self.key_loads()),
            r matches Ok(own) ==> self.own_identity() == Some(credentials::held_identity(own)),
            r matches Err(e) ==> e == Error::TlsFail,
    {
        match (&self.certificate_chain, &self.private_key) {
            (Some(chain), Some(key)) => match load_credentials(chain, key) {
                Ok(own) => Ok(own),
                Err(_) => Err(Error::TlsFail),
            },
            _ => Err(Error::TlsFail),
        }
    }

    /// Whether the message that shows the certificate chain has room for it. Without a
    /// chain there is nothing to show.
    fn chain_has_room(&self) -> (r: bool)
        ensures
            r == (self.certificate_chain matches Some(chain) ==> credentials::chain_fits(
                identity::views(chain@),
            )),
    {
        match &self.certificate_chain {
            None => true,
            Some(chain) => {
                proof {
                    assert(identity::views(chain@) =~= chain@.map_values(
                        |item: Vec<u8>| item@,
                    ));
                }
                list_len(
                    chain,
                    credentials::CERTIFICATE_HEADER_LEN,
                    credentials::MAX_CHAIN_LEN,
                ).is_some()
            },
        }
    }

    /// Makes a server's configuration. It cannot be made without a plan, with a private
    /// key that the TLS stack cannot use, or where its messages have no room. Otherwise
    /// it can, unless tickets need random keys and there are none.
    pub fn build_server_config(&self) -> (r: Result<ServerConfig, Error>)
        requires
            self.well_formed(),
        ensures
            r matches Err(e) ==> e == Error::TlsFail,
            self.server_plan() is None || !self.key_loads() || !self.server_fits() ==> r is Err,
            self.server_plan() matches Some(plan) ==> self.key_loads() && self.server_fits()
                && plan.tickets != TicketSource::Rotating ==> r is Ok,
            r is Err ==> self.server_plan() is None || !self.key_loads() || !self.server_fits()
                || exists|keys: TicketKeys| !(#[trigger] keys.made()),
            r matches Ok(config) ==> setup::server_config(config) == self.server_setup(),
    {
        let plan: ServerPlan = match self.plan_server() {
            Err(e) => {
                return Err(e);
            },
            Ok(plan) => plan,
        };
        let own: Credentials = match self.credentials() {
            Err(e) => {
                return Err(e);
            },
            Ok(own) => own,
        };
        if !self.chain_has_room() {
            return Err(Error::TlsFail);
        }
        if self.verify && !subjects_have_room(root_list(&self.root_store)) {
            return Err(Error::TlsFail);
        }
        let built: Result<ServerConfig, TlsError> = match plan.client_auth {
            ClientAuth::NotAsked => setup::open_server(own),
            ClientAuth::RecordOnly => setup::checking_server(
                RecordingClientVerifier::without_roots(Arc::clone(&self.record)),
                own,
            ),
            ClientAuth::Roots => match setup::client_check(copy_roots(&self.root_store)) {
                Err(_) => {
                    return Err(Error::TlsFail);
                },
                Ok(check) => setup::checking_server(
                    RecordingClientVerifier::new(check, Arc::clone(&self.record)),
                    own,
                ),
            },
        };
        let mut config: ServerConfig = match built {
            Err(_) => {
                return Err(Error::TlsFail);
            },
            Ok(config) => config,
        };
        setup::configure_server(
            &mut config,
            &self.alpn_protocols,
            plan.max_early_data_size,
            Arc::clone(&self.server_session_storage),
        );
        match &self.ticket_producer {
            Some(producer) => setup::use_fixed_tickets(&mut config, Arc::clone(producer)),
            None => {
                if self.early_data_enabled {
                    setup::use_no_tickets(&mut config);
                } else {
                    let (made, keys): (bool, Ghost<TicketKeys>) = try_rotating_tickets(&mut config);
                    if !made {
                        proof {
                            assert(!keys@.made());
                        }
                        return Err(Error::TlsFail);
                    }
                }
            },
        }
        match &self.key_log {
            Some(log) => setup::log_server_keys(&mut config, Arc::clone(log)),
            None => {},
        }
        Ok(config)
    }

    /// Makes a connection with a server's configuration, once that is made.
    pub fn connect_with(&self, config: ServerConfig) -> (r: Result<TlsConnection, Error>)
        requires
            self.well_formed(),
            self.has_credentials(),
            self.server_fits(),
            setup::server_config(config) == self.server_setup(),
        ensures
            r is Ok,
            r->Ok_0.well_formed(),
            connection::starts(
                r->Ok_0@,
                (Made::Server {
                    server: self.server_setup(),
                    params: self.local_transport_params@,
                }),
            ),
    {
        let asks: bool = self.verify && !has_no_roots(&self.root_store);
        let rotating: bool = self.ticket_producer.is_none() && !self.early_data_enabled;
        let room: Option<usize> = if asks && rotating {
            Some(setup::MAX_CLIENT_DATA_LEN)
        } else {
            None
        };
        match setup::connect_server(config, copy_bytes(&self.local_transport_params)) {
            Ok(conn) => Ok(TlsConnection::new(conn, room)),
            Err(_) => Err(Error::TlsFail),
        }
    }

    /// Makes a server's connection. It cannot be made without a plan, with a private key
    /// that the TLS stack cannot use, or where its messages have no room. Otherwise it
    /// can, unless tickets need random keys and there are none.
    pub fn build_server_connection(&self) -> (r: Result<TlsConnection, Error>)
        requires
            self.well_formed(),
        ensures
            r matches Err(e) ==> e == Error::TlsFail,
            self.server_plan() matches Some(plan) ==> self.key_loads() && self.server_fits()
                && plan.tickets != TicketSource::Rotating ==> r is Ok,
            r is Err ==> self.server_plan() is None || !self.key_loads() || !self.server_fits()
                || exists|keys: TicketKeys| !(#[trigger] keys.made()),
            r matches Ok(conn) ==> {
                &&& self.server_plan() is Some
                &&& self.key_loads()
                &&& self.server_fits()
                &&& conn.well_formed()
                &&& connection::starts(
                    conn@,
                    (Made::Server {
                        server: self.server_setup(),
                        params: self.local_transport_params@,
                    }),
                )
            },
    {
        match self.build_server_config() {
            Ok(config) => self.connect_with(config),
            Err(e) => Err(e),
        }
    }

    /// A client's configuration before its fields are set. It can be made unless the
    /// client is to show a certificate and the TLS stack cannot use the private key.
    fn start_client_config(&self, plan: ClientPlan) -> (r: Result<ClientConfig, Error>)
        requires
            self.well_formed(),
            self.client_plan() == Some(plan),
        ensures
            r is Ok == (plan.credentials ==> self.key_loads()),
            r matches Ok(config) ==> setup::client_config(config) == setup::plain_client(
                self.client_setup().check,
                self.own_identity(),
            ),
            r matches Err(e) ==> e == Error::TlsFail,
    {
        let built: Result<ClientConfig, TlsError> = match plan.trust {
            Trust::Roots => {
                let check: RecordingServerVerifier = match setup::server_check(
                    copy_roots(&self.root_store),
                ) {
                    Err(_) => {
                        return Err(Error::TlsFail);
                    },
                    Ok(inner) => RecordingServerVerifier::new(
                        inner,
                        Arc::clone(&self.record),
                        copy_roots(&self.root_store),
                    ),
                };
                if plan.credentials {
                    match self.credentials() {
                        Err(e) => {
                            return Err(e);
                        },
                        Ok(own) => setup::checking_client_with(check, own),
                    }
                } else {
                    setup::checking_client(check)
                }
            },
            Trust::Anyone => {
                let check: NoCertificateVerification = NoCertificateVerification::new(
                    Arc::clone(&self.record),
                );
                if plan.credentials {
                    match self.credentials() {
                        Err(e) => {
                            return Err(e);
                        },
                        Ok(own) => setup::trusting_client_with(check, own),
                    }
                } else {
                    setup::trusting_client(check)
                }
            },
        };
        match built {
            Ok(config) => Ok(config),
            Err(_) => Err(Error::TlsFail),
        }
    }

    /// Makes a client's configuration. It can be made exactly when there is a plan, and
    /// the TLS stack can use the private key if there is a certificate to show.
    pub fn build_client_config(&self) -> (r: Result<ClientConfig, Error>)
        requires
            self.well_formed(),
        ensures
            r is Ok == (self.client_plan() is Some && (self.has_credentials()
                ==> self.key_loads())),
            r matches Ok(config) ==> setup::client_config(config) == self.client_setup(),
            r matches Err(e) ==> e == Error::TlsFail,
    {
        let plan: ClientPlan = match self.plan_client() {
            Err(e) => {
                return Err(e);
            },
            Ok(plan) => plan,
        };
        let mut config: ClientConfig = match self.start_client_config(plan) {
            Err(e) => {
                return Err(e);
            },
            Ok(config) => config,
        };
        let room: usize = setup::hello_room(&self.alpn_protocols, &self.local_transport_params);
        setup::configure_client(
            &mut config,
            &self.alpn_protocols,
            Arc::new(self.session_store.with_room(room)),
            plan.early_data,
        );
        match &self.key_log {
            Some(log) => setup::log_client_keys(&mut config, Arc::clone(log)),
            None => {},
        }
        Ok(config)
    }

    /// Makes a client's connection. It cannot be made without a configuration, or where
    /// its messages have no room.
    pub fn build_client_connection(&self) -> (r: Result<TlsConnection, Error>)
        requires
            self.well_formed(),
        ensures
            r matches Err(e) ==> e == Error::TlsFail,
            r is Err ==> {
                ||| self.client_plan() is None
                ||| self.has_credentials() && !self.key_loads()
                ||| !self.client_fits()
                ||| exists|attempt: Attempt| #[trigger]
                    attempt.made() == (Made::Client {
                        client: self.client_setup(),
                        name: self.server_name->0@,
                        params: self.local_transport_params@,
                    }) && !attempt.succeeded()
            },
            r matches Ok(conn) ==> {
                &&& self.client_plan() is Some
                &&& self.client_fits()
                &&& self.has_credentials() ==> self.key_loads()
                &&& conn.well_formed()
                &&& connection::starts(
                    conn@,
                    (Made::Client {
                        client: self.client_setup(),
                        name: self.server_name->0@,
                        params: self.local_transport_params@,
                    }),
                )
            },
    {
        let config: ClientConfig = match self.build_client_config() {
            Err(e) => {
                return Err(e);
            },
            Ok(config) => config,
        };
        let name: &str = match &self.server_name {
            None => {
                return Err(Error::TlsFail);
            },
            Some(name) => name.as_str(),
        };
        let room: usize = setup::hello_room(&self.alpn_protocols, &self.local_transport_params);
        if room == 0 || !self.chain_has_room() {
            return Err(Error::TlsFail);
        }
        proof {
            self.session_store.lemma_limited(room);
        }
        let (made, attempt): (Option<Connection>, Ghost<Attempt>) = try_client(
            config,
            name,
            copy_bytes(&self.local_transport_params),
        );
        proof {
            assert(attempt@.made() == (Made::Client {
                client: self.client_setup(),
                name: self.server_name->0@,
                params: self.local_transport_params@,
            }));
        }
        match made {
            Some(conn) => Ok(TlsConnection::new(conn, Some(room))),
            None => Err(Error::TlsFail),
        }
    }

    /// Makes a connection for the side that was set.
    fn build_connection(&self) -> (r: Result<TlsConnection, Error>)
        requires
            self.well_formed(),
        ensures
            r matches Err(e) ==> e == Error::TlsFail && !self.surely_connects()
                && self.cannot_connect(),
            r is Ok ==> self.has_credentials() ==> self.key_loads(),
            r matches Ok(conn) ==> conn.well_formed() && self.made() == Some(conn@.made)
                && connection::starts(conn@, conn@.made),
    {
        match self.is_server {
            None => Err(Error::TlsFail),
            Some(true) => self.build_server_connection(),
            Some(false) => self.build_client_connection(),
        }
    }

    /// Makes the connection, if there is none yet.
    fn connection(&mut self) -> (r: Result<(), Error>)
        requires
            old(self).well_formed(),
        ensures
            old(self).conn is Some ==> r is Ok && *final(self) == *old(self),
            *final(self) == (Handshake { conn: final(self).conn, ..*old(self) }),
            old(self).conn is None && final(self).conn is Some ==> connection::starts(
                final(self).conn->0@,
                final(self).conn->0@.made,
            ),
            match r {
                Ok(_) => final(self).conn is Some,
                Err(e) => e == Error::TlsFail && final(self).conn is None
                    && !old(self).surely_connects() && old(self).cannot_connect(),
            },
            final(self).well_formed(),
            keeps_connection(*old(self), *final(self)),
            final(self).received() == old(self).received(),
            final(self).sent() == old(self).sent(),
    {
        if self.conn.is_none() {
            match self.build_connection() {
                Err(e) => {
                    return Err(e);
                },
                Ok(conn) => {
                    self.conn = Some(conn);
                },
            }
        }
        Ok(())
    }

    /// Keeps a recorded scheme in the place of an earlier one.
    pub fn keep_signature_scheme(&mut self, recorded: Option<u16>)
        ensures
            *final(self) == (Handshake {
                signature_scheme: if recorded is Some {
                    recorded
                } else {
                    old(self).signature_scheme
                },
                ..*old(self)
            }),
    {
        if recorded.is_some() {
            self.signature_scheme = recorded;
        }
    }

    /// Keeps the scheme that the connection's verifiers recorded, if they did.
    fn flush_signature_scheme(&mut self)
        ensures
            *final(self) == (Handshake {
                signature_scheme: final(self).signature_scheme,
                ..*old(self)
            }),
            old(self).signature_scheme is Some ==> final(self).signature_scheme is Some,
            record_follows(*old(self), *final(self)),
            scheme_followed(*old(self), *final(self)),
    {
        let recorded: Option<u16> = self.record.take_signature_scheme();
        self.keep_signature_scheme(recorded);
    }

    /// Keeps a recorded identity, unless one is kept already.
    pub fn keep_peer_identity(&mut self, recorded: Option<Identity>)
        ensures
            *final(self) == (Handshake {
                recorded_peer_identity: if old(self).recorded_peer_identity is Some {
                    old(self).recorded_peer_identity
                } else {
                    recorded
                },
                ..*old(self)
            }),
    {
        if self.recorded_peer_identity.is_none() {
            self.recorded_peer_identity = recorded;
        }
    }

    /// Keeps the identity that the connection's verifiers recorded, unless one is
    /// kept already.
    fn flush_recorded_peer_identity(&mut self)
        ensures
            *final(self) == (Handshake {
                recorded_peer_identity: final(self).recorded_peer_identity,
                ..*old(self)
            }),
            old(self).recorded_peer_identity is Some ==> *final(self) == *old(self),
            record_follows(*old(self), *final(self)),
            identity_followed(*old(self), *final(self)),
    {
        if self.recorded_peer_identity.is_some() {
            return;
        }
        let recorded: Option<Identity> = self.record.take_peer_identity();
        self.keep_peer_identity(recorded);
    }

    /// Hands handshake data of the peer to the connection, which is made if there is
    /// none yet. Without a connection nothing changes. Data is turned down that would
    /// leave the connection's answers without room.
    pub fn provide_data(&mut self, _level: Level, buf: &[u8]) -> (r: Result<(), Error>)
        requires
            old(self).well_formed(),
        ensures
            old(self).surely_connects() ==> final(self).conn is Some,
            r matches Err(e) ==> e == Error::TlsFail,
            final(self).well_formed(),
            same_settings(*final(self), *old(self)),
            final(self).alpn_protocols == old(self).alpn_protocols,
            final(self).write_level == old(self).write_level,
            final(self).early_data_active == old(self).early_data_active,
            keeps_connection(*old(self), *final(self)),
            match final(self).conn {
                Some(_) => {
                    &&& final(self).sent() == old(self).sent()
                    &&& if takes(*old(self), *final(self), buf@.len()) {
                        final(self).received() == old(self).received().push((buf@, r is Ok))
                    } else {
                        r is Err && final(self).received() == old(self).received()
                    }
                },
                None => r is Err && *final(self) == *old(self),
            },
            old(self).conn is Some && r is Err && final(self).received() == old(self).received()
                ==> final(self).conn == old(self).conn,
            record_follows(*old(self), *final(self)),
            final(self).conn is None ==> old(self).cannot_connect(),
            final(self).conn is Some ==> scheme_followed(*old(self), *final(self))
                && identity_followed(*old(self), *final(self)),
    {
        match self.connection() {
            Err(e) => {
                return Err(e);
            },
            Ok(_) => {},
        }
        let r: Result<(), Error> = match &mut self.conn {
            Some(conn) => {
                if conn.has_room(buf.len()) {
                    match conn.read(buf) {
                        Ok(_) => Ok(()),
                        Err(_) => Err(Error::TlsFail),
                    }
                } else {
                    Err(Error::TlsFail)
                }
            },
            None => Err(Error::TlsFail),
        };
        self.flush_signature_scheme();
        self.flush_recorded_peer_identity();
        r
    }

    /// Sends the next flight. Gives whether another may follow, and the flight.
    fn send_flight(&mut self, ex_data: &mut ExData) -> (r: (
        Result<bool, Error>,
        Ghost<FlightView>,
    ))
        requires
            old(self).well_formed(),
            old(self).conn is Some,
        ensures
            final(self).well_formed(),
            same_settings(*final(self), *old(self)),
            final(self).alpn_protocols == old(self).alpn_protocols,
            final(self).recorded_peer_identity == old(self).recorded_peer_identity,
            record_follows(*old(self), *final(self)),
            scheme_followed(*old(self), *final(self)),
            *final(ex_data) == (ExData { crypto_ctx: final(ex_data).crypto_ctx, ..*old(ex_data) }),
            final(self).conn is Some,
            final(self).conn->0@ == (ConnectionView {
                sent: old(self).conn->0@.sent.push((r.1@.data, r.1@.change)),
                ..old(self).conn->0@
            }),
            r.1@.zero_rtt == old(self).conn->0@.early_keys,
            connection::gives_first(old(self).conn->0@, r.1@.data, r.1@.change),
            ({
                let before = now_at(*old(self), *old(ex_data));
                let is_server = old(ex_data).is_server;
                if flight::can_send(before, is_server, r.1@) {
                    &&& r.0 == Ok::<bool, Error>(r.1@.change is Some)
                    &&& now_at(*final(self), *final(ex_data)) == flight::after_flight(
                        before,
                        is_server,
                        r.1@,
                    )
                } else {
                    &&& r.0 == Err::<bool, Error>(Error::TlsFail)
                    &&& now_at(*final(self), *final(ex_data)) == flight::after_flight(
                        before,
                        is_server,
                        flight::without_data(before.level, is_server, r.1@),
                    )
                }
            }),
    {
        let next: Flight = match &mut self.conn {
            Some(conn) => conn.write(),
            None => Flight { data: Vec::new(), change: None, zero_rtt: None },
        };
        self.flush_signature_scheme();
        let ghost view: FlightView = next@;
        let is_server: bool = ex_data.is_server;
        let r: Result<bool, Error> = apply_flight(
            &mut ex_data.crypto_ctx,
            &mut self.write_level,
            &mut self.early_data_active,
            is_server,
            next,
        );
        (r, Ghost(view))
    }

    /// Sends what the connection has to send, flight by flight, and takes the keys
    /// that come with it, until a flight brings no more keys.
    ///
    /// Keys for early data that are there at the start are taken first.
    fn flush_handshake_data(&mut self, ex_data: &mut ExData) -> (r: Result<(), Error>)
        requires
            old(self).well_formed(),
        ensures
            final(self).well_formed(),
            r matches Err(e) ==> e == Error::TlsFail,
            r is Err ==> cannot_flush(*old(self), *old(ex_data), *final(self), *final(ex_data)),
            r is Ok ==> final(self).conn is Some && flushed(
                *old(self),
                *old(ex_data),
                *final(self),
                *final(ex_data),
            ),
            old(self).surely_connects() ==> final(self).conn is Some,
            final(self).conn is None ==> *final(self) == *old(self) && *final(ex_data) == *old(
                ex_data,
            ),
            keeps_connection(*old(self), *final(self)),
            keeps_report(*old(self), *final(self)),
            final(self).received() == old(self).received(),
            same_settings(*final(self), *old(self)),
            final(self).alpn_protocols == old(self).alpn_protocols,
            final(self).recorded_peer_identity == old(self).recorded_peer_identity,
            record_follows(*old(self), *final(self)),
            final(self).conn is None ==> old(self).cannot_connect(),
            final(self).conn is Some ==> scheme_followed(*old(self), *final(self)),
            *final(ex_data) == (ExData { crypto_ctx: final(ex_data).crypto_ctx, ..*old(ex_data) }),
    {
        match self.connection() {
            Err(e) => {
                return Err(e);
            },
            Ok(_) => {},
        }
        let is_server: bool = ex_data.is_server;
        let zero_rtt: Option<DirectionalKeys> = match &self.conn {
            Some(conn) => conn.zero_rtt_keys(),
            None => None,
        };
        let ghost start = now_at(*self, *ex_data);
        let ghost first = FlightView { data: Seq::empty(), change: None, zero_rtt };
        let ghost mut flights: Seq<FlightView> = seq![first];
        install_zero_rtt_keys(
            &mut ex_data.crypto_ctx,
            &mut self.early_data_active,
            is_server,
            zero_rtt,
        );
        let ghost opened: ConnectionView = self.conn->0@;
        proof {
            lemma_first_flight(start, is_server, first);
            assert(given(flights) =~= Seq::empty());
            assert(opened.sent + given(flights) =~= opened.sent);
        }
        loop
            invariant
                self.well_formed(),
                self.conn is Some,
                self.conn->0@ == (ConnectionView {
                    sent: opened.sent + given(flights),
                    ..opened
                }),
                match old(self).conn {
                    Some(conn) => opened == conn@,
                    None => connection::starts(opened, opened.made) && self.made() == Some(
                        opened.made,
                    ),
                },
                is_server == old(ex_data).is_server,
                same_settings(*self, *old(self)),
                self.alpn_protocols == old(self).alpn_protocols,
                self.recorded_peer_identity == old(self).recorded_peer_identity,
                record_follows(*old(self), *self),
                *ex_data == (ExData { crypto_ctx: ex_data.crypto_ctx, ..*old(ex_data) }),
                start == now_at(*old(self), *old(ex_data)),
                starts_flush(flights, opened.early_keys),
                forall|i: int| 1 <= i < flights.len() ==> (#[trigger] flights[i]).change is Some,
                old(self).conn is None ==> flights.len() == 1,
                if flights.len() > 1 {
                    scheme_followed(*old(self), *self)
                } else {
                    self.signature_scheme == old(self).signature_scheme
                },
                flight::all_sent(start, is_server, flights),
                flight::after_flights(start, is_server, flights) == now_at(*self, *ex_data),
            decreases 2 - connection::key_changes(self.sent()),
        {
            let ghost known: Seq<FlightView> = flights;
            let ghost sent = self.sent();
            let (sending, flight): (Result<bool, Error>, Ghost<FlightView>) = self.send_flight(
                ex_data,
            );
            proof {
                flights = known.push(flight@);
                assert(flights.drop_last() =~= known);
                assert(flights.last() == flight@);
                assert(given(flights) =~= given(known).push((flight@.data, flight@.change)));
                assert(self.sent() =~= opened.sent + given(flights));
                assert(self.sent().drop_last() =~= sent);
                assert(self.sent().last() == (flight@.data, flight@.change));
                assert(old(self).sent() + given(flights) =~= self.sent());
            }
            match sending {
                Err(e) => {
                    proof {
                        assert(round_of(*old(self), *self, flights));
                    }
                    return Err(e);
                },
                Ok(more) => {
                    if !more {
                        proof {
                            assert(round_of(*old(self), *self, flights));
                            assert(flights_of(*old(self), *self, flights));
                        }
                        return Ok(());
                    }
                },
            }
        }
    }

    /// Takes over the application protocols that are offered.
    fn sync_ex_data(&mut self, ex_data: &ExData)
        ensures
            identity::views(final(self).alpn_protocols@) == identity::views(
                ex_data.application_protos@,
            ),
            *final(self) == (Handshake { alpn_protocols: final(self).alpn_protocols, ..*old(self) }),
    {
        self.alpn_protocols = copy_all(&ex_data.application_protos);
    }

    /// Hands logged keys on.
    fn flush_keylog(&self, ex_data: &mut ExData)
        ensures
            *final(ex_data) == (ExData { keylog: final(ex_data).keylog, ..*old(ex_data) }),
            log_grows(old(ex_data).keylog, final(ex_data).keylog),
            self.key_log is None ==> *final(ex_data) == *old(ex_data),
            self.key_log matches Some(log) ==> key_log::handed_on(
                *log,
                old(ex_data).keylog,
                final(ex_data).keylog,
            ),
    {
        match &self.key_log {
            Some(log) => log.drain(&mut ex_data.keylog),
            None => {
                proof {
                    lemma_log_stays(ex_data.keylog);
                }
            },
        }
    }

    /// Hands an exported session on. Without one the last one stays.
    fn flush_session(&self, ex_data: &mut ExData)
        ensures
            *final(ex_data) == (ExData { session: final(ex_data).session, ..*old(ex_data) }),
            session_follows(old(ex_data).session, final(ex_data).session),
            session_handed_on(*self.session_store, old(ex_data).session, final(ex_data).session),
    {
        let exported: Option<Vec<u8>> = self.session_store.take_exported_session();
        keep_session(ex_data, exported);
    }

    /// Goes on with the handshake as far as it can: offers the given application
    /// protocols, makes the connection if there is none yet, sends what there is to
    /// send, and hands keys, logged keys and an exported session on.
    ///
    /// It is done when the handshake is over. It fails when a connection cannot be made,
    /// and when a stream takes no more of the data that is to be sent.
    pub fn do_handshake(&mut self, ex_data: &mut ExData) -> (r: Result<(), Error>)
        requires
            old(self).well_formed(),
        ensures
            final(self).well_formed(),
            goes_on(*old(self), *old(ex_data), *final(self), *final(ex_data), r),
            r matches Err(Error::TlsFail) ==> *final(ex_data) == (ExData {
                crypto_ctx: final(ex_data).crypto_ctx,
                ..*old(ex_data)
            }),
            final(self).conn is None ==> *final(self) == (Handshake {
                alpn_protocols: final(self).alpn_protocols,
                ..*old(self)
            }),
            identity::views(final(self).alpn_protocols@) == identity::views(
                old(ex_data).application_protos@,
            ),
            record_follows(*old(self), *final(self)),
            final(ex_data).application_protos == old(ex_data).application_protos,
            final(ex_data).is_server == old(ex_data).is_server,
            log_grows(old(ex_data).keylog, final(ex_data).keylog),
            session_follows(old(ex_data).session, final(ex_data).session),
            final(self).conn is Some ==> scheme_followed(*old(self), *final(self)),
            r == Err::<(), Error>(Error::TlsFail) ==> final(self).recorded_peer_identity == old(
                self,
            ).recorded_peer_identity,
            r != Err::<(), Error>(Error::TlsFail) ==> {
                &&& identity_followed(*old(self), *final(self))
                &&& old(self).key_log matches Some(log) ==> key_log::handed_on(
                    *log,
                    old(ex_data).keylog,
                    final(ex_data).keylog,
                )
                &&& old(self).key_log is None ==> final(ex_data).keylog == old(ex_data).keylog
                &&& session_handed_on(
                    *old(self).session_store,
                    old(ex_data).session,
                    final(ex_data).session,
                )
            },
    {
        self.sync_ex_data(ex_data);
        let ghost start: Handshake = *self;
        match self.flush_handshake_data(ex_data) {
            Err(e) => {
                proof {
                    lemma_log_stays(ex_data.keylog);
                    lemma_refusal_stands(start, *old(ex_data), *self, *ex_data, *old(self));
                }
                return Err(e);
            },
            Ok(_) => {},
        }
        let ghost end: Handshake = *self;
        let ghost taken: ExData = *ex_data;
        self.flush_recorded_peer_identity();
        self.flush_keylog(ex_data);
        self.flush_session(ex_data);
        proof {
            lemma_flush_stands(start, *old(ex_data), end, taken, *old(self), *self, *ex_data);
        }
        if self.is_completed() {
            Ok(())
        } else {
            Err(Error::Done)
        }
    }

    /// Hands logged keys and an exported session on that came after the handshake.
    pub fn process_post_handshake(&mut self, ex_data: &mut ExData) -> (r: Result<(), Error>)
        ensures
            r is Ok,
            *final(self) == *old(self),
            *final(ex_data) == (ExData {
                keylog: final(ex_data).keylog,
                session: final(ex_data).session,
                ..*old(ex_data)
            }),
            log_grows(old(ex_data).keylog, final(ex_data).keylog),
            session_follows(old(ex_data).session, final(ex_data).session),
            old(self).key_log matches Some(log) ==> key_log::handed_on(
                *log,
                old(ex_data).keylog,
                final(ex_data).keylog,
            ),
            old(self).key_log is None ==> final(ex_data).keylog == old(ex_data).keylog,
            session_handed_on(
                *old(self).session_store,
                old(ex_data).session,
                final(ex_data).session,
            ),
    {
        self.flush_keylog(ex_data);
        self.flush_session(ex_data);
        Ok(())
    }
}

/// Whether flights start as a round of sending does: with keys for early data alone.
pub open spec fn starts_flush(
    flights: Seq<FlightView>,
    early_keys: Option<DirectionalKeys>,
) -> bool {
    &&& flights.len() >= 1
    &&& flights[0] == (FlightView {
        data: Seq::empty(),
        change: None,
        zero_rtt: early_keys,
    })
    &&& forall|i: int| 0 <= i < flights.len() ==> (#[trigger] flights[i]).zero_rtt == early_keys
}

/// What a connection gives in one round of sending, for the flights of the round.
pub open spec fn given(flights: Seq<FlightView>) -> Seq<(Seq<u8>, Option<KeyChange>)> {
    Seq::new(
        (flights.len() - 1) as nat,
        |i: int| (flights[i + 1].data, flights[i + 1].change),
    )
}

/// Whether flights are those of one round of sending on the connection: it gave
/// them, they brought its keys for early data, and each but the last brought other
/// keys. What a new connection gives first ends the round: a client's first message,
/// and nothing of a server.
pub open spec fn round_of(before: Handshake, after: Handshake, flights: Seq<FlightView>) -> bool {
    &&& flights.len() >= 2
    &&& after.sent() == before.sent() + given(flights)
    &&& after.conn matches Some(conn)
    &&& starts_flush(flights, conn@.early_keys)
    &&& forall|i: int| 1 <= i < flights.len() - 1 ==> (#[trigger] flights[i]).change is Some
    &&& before.conn is None ==> {
        &&& flights.len() == 2
        &&& flights[1].change is None
        &&& conn@.made is Client <==> flights[1].data.len() > 0
    }
}

/// Whether flights are those of one whole round of sending on the connection: the last
/// one brought no keys.
pub open spec fn flights_of(before: Handshake, after: Handshake, flights: Seq<FlightView>) -> bool {
    round_of(before, after, flights) && flights.last().change is None
}

/// Whether one whole round of sending was put on the streams, and levels, keys and
/// streams follow from its flights.
pub open spec fn flushed(
    before: Handshake,
    given: ExData,
    after: Handshake,
    taken: ExData,
) -> bool {
    let start = now_at(before, given);
    exists|flights: Seq<FlightView>| #[trigger]
        flights_of(before, after, flights) && flight::all_sent(start, given.is_server, flights)
            && now_at(after, taken) == flight::after_flights(start, given.is_server, flights)
}

/// Whether the last flight of a round of sending could not be put on its stream, and
/// levels, keys and streams follow from those before it.
pub open spec fn stream_refused(
    before: Handshake,
    given: ExData,
    after: Handshake,
    taken: ExData,
) -> bool {
    let start = now_at(before, given);
    exists|flights: Seq<FlightView>| #[trigger]
        round_of(before, after, flights) && flight::last_refused(start, given.is_server, flights)
            && now_at(after, taken) == flight::after_refused(start, given.is_server, flights)
}

/// Where a handshake stands.
pub open spec fn now_at(handshake: Handshake, ex_data: ExData) -> FlightState {
    flight::standing(handshake.write_level, handshake.early_data_active, ex_data.crypto_ctx@)
}

/// Why a round of sending fails: there is no connection, or the stream that a flight
/// goes to takes no more data.
pub open spec fn cannot_flush(
    before: Handshake,
    given: ExData,
    after: Handshake,
    taken: ExData,
) -> bool {
    after.conn is None || stream_refused(before, given, after, taken)
}

/// Whether a connection that was there reports the same as before, and a new one that
/// its handshake goes on.
pub open spec fn keeps_report(before: Handshake, after: Handshake) -> bool {
    match (before.conn, after.conn) {
        (Some(a), Some(b)) => a@.report == b@.report && a@.early_keys == b@.early_keys,
        (None, Some(b)) => b@.report.handshaking,
        _ => true,
    }
}

/// Whether the connection may be handed that many bytes of the peer's data: the one
/// that was there, or else a new one that got nothing yet.
pub open spec fn takes(before: Handshake, after: Handshake, len: nat) -> bool {
    match before.conn {
        Some(conn) => connection::can_take(conn@, len),
        None => after.conn matches Some(conn) && match setup::data_room(conn@.made) {
            Some(room) => len <= room,
            None => true,
        },
    }
}

/// Whether a connection that was there stays, and a new one was made of the settings.
pub open spec fn keeps_connection(before: Handshake, after: Handshake) -> bool {
    match (before.conn, after.conn) {
        (Some(a), Some(b)) => a@.made == b@.made,
        (None, Some(b)) => after.made() == Some(b@.made),
        (None, None) => true,
        (Some(_), None) => false,
    }
}

/// What a round of sending did does not depend on what it leaves alone.
proof fn lemma_flush_stands(
    start: Handshake,
    given: ExData,
    end: Handshake,
    taken: ExData,
    before: Handshake,
    after: Handshake,
    left: ExData,
)
    requires
        flushed(start, given, end, taken),
        before.conn == start.conn,
        before.write_level == start.write_level,
        before.early_data_active == start.early_data_active,
        after.conn == end.conn,
        after.write_level == end.write_level,
        after.early_data_active == end.early_data_active,
        left.crypto_ctx == taken.crypto_ctx,
    ensures
        flushed(before, given, after, left),
{
    let flights = choose|flights: Seq<FlightView>| #[trigger]
        flights_of(start, end, flights) && flight::all_sent(
            now_at(start, given),
            given.is_server,
            flights,
        ) && now_at(end, taken) == flight::after_flights(
            now_at(start, given),
            given.is_server,
            flights,
        );
    assert(round_of(before, after, flights));
    assert(flights_of(before, after, flights));
}

/// Why a round of sending failed does not depend on what it leaves alone.
proof fn lemma_refusal_stands(
    start: Handshake,
    given: ExData,
    end: Handshake,
    taken: ExData,
    before: Handshake,
)
    requires
        cannot_flush(start, given, end, taken),
        before.conn == start.conn,
        before.write_level == start.write_level,
        before.early_data_active == start.early_data_active,
    ensures
        cannot_flush(before, given, end, taken),
{
    if end.conn is Some {
        let flights = choose|flights: Seq<FlightView>| #[trigger]
            round_of(start, end, flights) && flight::last_refused(
                now_at(start, given),
                given.is_server,
                flights,
            ) && now_at(end, taken) == flight::after_refused(
                now_at(start, given),
                given.is_server,
                flights,
            );
        assert(round_of(before, end, flights));
    }
}

/// Settings and application protocols decide what a connection is made of. So a
/// handshake that starts over makes its connection of the same.
pub proof fn law_settings_decide(a: Handshake, b: Handshake)
    requires
        same_settings(a, b),
        a.alpn_protocols == b.alpn_protocols,
    ensures
        a.made() == b.made(),
{
}

/// Without a server's connection the server's name is the one that was set. On a
/// server's connection it is the one that the client asked for, whatever was set.
pub proof fn law_server_name_goes_by_side(handshake: Handshake, set: Option<String>)
    requires
        handshake.well_formed(),
    ensures
        match handshake.conn {
            None => handshake.known_server_name() == connection::text_view(handshake.server_name),
            Some(conn) => match conn@.made {
                Made::Client { .. } => handshake.known_server_name() == connection::text_view(
                    handshake.server_name,
                ),
                Made::Server { .. } => {
                    &&& handshake.known_server_name() == conn@.report.requested_name
                    &&& (Handshake { server_name: set, ..handshake }).known_server_name()
                        == handshake.known_server_name()
                },
            },
        },
{
    if let Some(conn) = handshake.conn {
        assert(conn.report@ == conn@.report);
    }
}

/// A connection that a handshake makes is on the side that was set, so a server's
/// handshake knows the name that the client asked for from then on.
pub proof fn law_new_connection_is_on_its_side(before: Handshake, after: Handshake)
    requires
        before.conn is None,
        after.conn is Some,
        after.well_formed(),
        keeps_connection(before, after),
    ensures
        after.is_server == Some(after.conn->0@.made is Server),
        after.known_server_name() == if after.is_server == Some(true) {
            after.conn->0@.report.requested_name
        } else {
            connection::text_view(after.server_name)
        },
{
    law_server_name_goes_by_side(after, None);
}

/// Whether a handshake went on from one state to another with a result: it is done
/// when it is over, it failed when there is no connection or a stream took no more data,
/// and otherwise one whole round of sending was put on the streams.
pub open spec fn goes_on(
    before: Handshake,
    given: ExData,
    after: Handshake,
    taken: ExData,
    r: Result<(), Error>,
) -> bool {
    &&& match r {
        Ok(_) => after.completed() && flushed(before, given, after, taken),
        Err(Error::TlsFail) => cannot_flush(before, given, after, taken),
        Err(e) => {
            &&& e == Error::Done
            &&& !after.completed()
            &&& flushed(before, given, after, taken)
        },
    }
    &&& after.conn is None ==> taken == given && after.cannot_connect()
    &&& after.completed() == before.completed()
    &&& before.surely_connects() ==> after.conn is Some
    &&& keeps_report(before, after)
    &&& keeps_connection(before, after)
    &&& after.received() == before.received()
    &&& same_settings(after, before)
}

/// The flights of a round of sending are known from what the connection gave.
proof fn lemma_round_is_known(
    before: Handshake,
    after: Handshake,
    a: Seq<FlightView>,
    b: Seq<FlightView>,
)
    requires
        round_of(before, after, a),
        round_of(before, after, b),
    ensures
        a == b,
{
    let n = before.sent().len() as int;
    assert((before.sent() + given(a)).skip(n) =~= given(a));
    assert((before.sent() + given(b)).skip(n) =~= given(b));
    assert(a.len() == given(a).len() + 1);
    assert(b.len() == given(b).len() + 1);
    assert forall|i: int| 0 <= i < a.len() implies a[i] == b[i] by {
        if i > 0 {
            assert(given(a)[i - 1] == (a[i].data, a[i].change));
            assert(given(b)[i - 1] == (b[i].data, b[i].change));
            assert(a[i].zero_rtt == b[i].zero_rtt);
        }
    }
    assert(a =~= b);
}

/// A handshake that goes on fails exactly when there is no connection, or when the stream
/// of the last flight took no more data. So it never fails merely because the handshake
/// is not over. Without a side that was set there is no connection. It is done exactly
/// when it did not fail and the handshake is over.
pub proof fn law_handshake_fails_exactly(
    before: Handshake,
    given: ExData,
    after: Handshake,
    taken: ExData,
    r: Result<(), Error>,
)
    requires
        goes_on(before, given, after, taken, r),
    ensures
        r == Err::<(), Error>(Error::TlsFail) <==> cannot_flush(before, given, after, taken),
        r is Ok <==> after.completed() && !cannot_flush(before, given, after, taken),
        r == Err::<(), Error>(Error::Done) <==> !after.completed() && !cannot_flush(
            before,
            given,
            after,
            taken,
        ),
        before.conn is None && before.is_server is None ==> r == Err::<(), Error>(Error::TlsFail),
{
    if r != Err::<(), Error>(Error::TlsFail) {
        let start = now_at(before, given);
        let sent = choose|flights: Seq<FlightView>| #[trigger]
            flights_of(before, after, flights) && flight::all_sent(
                start,
                given.is_server,
                flights,
            ) && now_at(after, taken) == flight::after_flights(start, given.is_server, flights);
        assert(round_of(before, after, sent));
        if stream_refused(before, given, after, taken) {
            let refused = choose|flights: Seq<FlightView>| #[trigger]
                round_of(before, after, flights) && flight::last_refused(
                    start,
                    given.is_server,
                    flights,
                ) && now_at(after, taken) == flight::after_refused(
                    start,
                    given.is_server,
                    flights,
                );
            lemma_round_is_known(before, after, sent, refused);
        }
    }
}

/// A client that starts over begins a new handshake, however far the old one was. What
/// comes of it goes by whether the TLS stack makes a connection. If it does not, nothing
/// is sent. If it does, there is a new first message. It is put on the first stream,
/// alone and at the first level, and the handshake is not over; or that stream takes no
/// more data, and the handshake fails.
pub proof fn law_cleared_client_starts_anew(
    old_one: Handshake,
    given: ExData,
    after: Handshake,
    taken: ExData,
    r: Result<(), Error>,
)
    requires
        old_one.is_server == Some(false),
        !given.is_server,
        after.well_formed(),
        goes_on(old_one.cleared(), given, after, taken, r),
    ensures
        !after.completed(),
        match after.conn {
            None => r == Err::<(), Error>(Error::TlsFail) && taken == given,
            Some(conn) => {
                &&& Some(conn@.made) == after.made()
                &&& conn@.sent.len() == 1
                &&& conn@.sent[0].0.len() > 0
                &&& conn@.sent[0].1 is None
                &&& after.write_level == Level::Initial
                &&& taken.crypto_ctx@.handshake == given.crypto_ctx@.handshake
                &&& taken.crypto_ctx@.application.pending
                    == given.crypto_ctx@.application.pending
                &&& if given.crypto_ctx@.initial.finished {
                    &&& r == Err::<(), Error>(Error::TlsFail)
                    &&& taken.crypto_ctx@.initial == given.crypto_ctx@.initial
                } else {
                    &&& r == Err::<(), Error>(Error::Done)
                    &&& taken.crypto_ctx@.initial.pending == given.crypto_ctx@.initial.pending
                        + conn@.sent[0].0
                }
            },
        },
{
    let before = old_one.cleared();
    let start = now_at(before, given);
    if after.conn is Some {
        let flights = if r == Err::<(), Error>(Error::TlsFail) {
            choose|flights: Seq<FlightView>| #[trigger]
                round_of(before, after, flights) && flight::last_refused(start, false, flights)
                    && now_at(after, taken) == flight::after_refused(start, false, flights)
        } else {
            choose|flights: Seq<FlightView>| #[trigger]
                flights_of(before, after, flights) && flight::all_sent(start, false, flights)
                    && now_at(after, taken) == flight::after_flights(start, false, flights)
        };
        assert(round_of(before, after, flights));
        assert(flights =~= seq![flights[0]].push(flights[1]));
        assert(flights.drop_last() =~= seq![flights[0]]);
        lemma_first_flight(start, false, flights[0]);
        assert(after.sent() =~= seq![(flights[1].data, flights[1].change)]);
        assert(after.conn->0.report@ == after.conn->0@.report);
        let keyed = flight::after_flights(start, false, flights.drop_last());
        let none = Seq::<u8>::empty();
        assert(keyed.spaces.initial.pending + none =~= keyed.spaces.initial.pending);
    }
}

/// Whether a log only got more whole lines of the log.
pub open spec fn log_grows(before: Option<Vec<u8>>, after: Option<Vec<u8>>) -> bool {
    match (before, after) {
        (Some(a), Some(b)) => exists|lines: Seq<u8>|
            #![trigger key_log::whole_lines(lines)]
            b@ == a@ + lines && key_log::whole_lines(lines),
        (None, None) => true,
        _ => false,
    }
}

/// Hands an exported session on. Without one the last one stays.
pub fn keep_session(ex_data: &mut ExData, exported: Option<Vec<u8>>)
    ensures
        *final(ex_data) == (ExData {
            session: if exported is Some {
                exported
            } else {
                old(ex_data).session
            },
            ..*old(ex_data)
        }),
{
    if exported.is_some() {
        ex_data.session = exported;
    }
}

/// Whether what is kept of the peer stayed, or came from the record: the scheme is
/// one that a peer signed with, and the identity one that a client showed. An
/// identity that was kept stays.
pub open spec fn record_follows(before: Handshake, after: Handshake) -> bool {
    &&& after.signature_scheme != before.signature_scheme ==> after.signature_scheme is Some
        && verify::was_signed_with(after.signature_scheme->0)
    &&& after.recorded_peer_identity != before.recorded_peer_identity ==> {
        &&& before.recorded_peer_identity is None
        &&& after.recorded_peer_identity is Some
        &&& verify::was_shown(after.recorded_peer_identity->0@)
    }
}

/// Whether the scheme that is kept is the one that the record gave up last, or the earlier
/// one if the record had none.
pub open spec fn scheme_followed(before: Handshake, after: Handshake) -> bool {
    ||| after.signature_scheme is Some && verify::gave_up_scheme(
        *before.record,
        after.signature_scheme,
    )
    ||| after.signature_scheme == before.signature_scheme && verify::gave_up_scheme(
        *before.record,
        None,
    )
}

/// Whether an identity that was kept stays, and otherwise what the record gave up is kept.
pub open spec fn identity_followed(before: Handshake, after: Handshake) -> bool {
    if before.recorded_peer_identity is Some {
        after.recorded_peer_identity == before.recorded_peer_identity
    } else {
        verify::gave_up_identity(*before.record, after.recorded_peer_identity)
    }
}

/// Whether the session that waited in a store was handed on, and waits no more. If none
/// did, the earlier one stays.
pub open spec fn session_handed_on(
    store: QuicheClientSessionStore,
    before: Option<Vec<u8>>,
    after: Option<Vec<u8>>,
) -> bool {
    exists|change: Change<Option<Vec<u8>>, client_store::HoldsExported>|
        {
            &&& #[trigger] change.place() == store.exported_place()
            &&& change.after() is None
            &&& after == if change.before() is Some {
                change.before()
            } else {
                before
            }
        }
}

/// Whether a session is the earlier one or an exported one.
pub open spec fn session_follows(before: Option<Vec<u8>>, after: Option<Vec<u8>>) -> bool {
    after == before || (after matches Some(session) && client_store::is_exported_session(session@))
}

/// A log that stays got no lines.
proof fn lemma_log_stays(log: Option<Vec<u8>>)
    ensures
        log_grows(log, log),
{
    if let Some(a) = log {
        let none = Seq::<u8>::empty();
        key_log::lemma_no_lines();
        assert(a@ + none =~= a@);
    }
}

/// A flight that only brings keys for early data does what taking them does.
proof fn lemma_first_flight(s: FlightState, is_server: bool, first: FlightView)
    requires
        first.data.len() == 0,
        first.change is None,
    ensures
        flight::after_flights(s, is_server, seq![first]) == flight::standing(
            s.level,
            s.early || flight::uses_zero_rtt(s.spaces, is_server, first.zero_rtt),
            flight::with_zero_rtt(s.spaces, is_server, first.zero_rtt),
        ),
        flight::all_sent(s, is_server, seq![first]),
{
    let one = seq![first];
    assert(one.drop_last() =~= Seq::<FlightView>::empty());
    reveal_with_fuel(flight::after_flights, 2);
    reveal_with_fuel(flight::all_sent, 2);
    let keyed = flight::with_zero_rtt(s.spaces, is_server, first.zero_rtt);
    assert(keyed.initial.pending + first.data =~= keyed.initial.pending);
    assert(keyed.handshake.pending + first.data =~= keyed.handshake.pending);
    assert(keyed.application.pending + first.data =~= keyed.application.pending);
}

/// What a server's connection is planned and made with. It needs a certificate chain and
/// a private key. It asks clients for an identity if peers are checked, and turns those
/// down that show one if there are no roots. With early data it takes any amount of it. A
/// ticket key that was set makes its tickets. Without one it makes none if it takes early
/// data, and has random keys otherwise.
pub proof fn law_server_settings(h: Handshake)
    ensures
        ({
            let roots = roots::anchors(h.root_store);
            let made = h.server_setup();
            let plan = h.server_plan()->0;
            &&& h.server_plan() is Some <==> h.certificate_chain is Some && h.private_key is Some
            &&& h.server_plan() is Some ==> {
                &&& plan.client_auth == ClientAuth::NotAsked <==> !h.verify
                &&& plan.client_auth == ClientAuth::RecordOnly <==> h.verify && roots.len() == 0
                &&& plan.client_auth == ClientAuth::Roots <==> h.verify && roots.len() > 0
                &&& plan.max_early_data_size == made.max_early_data_size
                &&& plan.tickets == TicketSource::Fixed <==> made.tickets is Fixed
                &&& plan.tickets == TicketSource::Stored <==> made.tickets is Stored
                &&& plan.tickets == TicketSource::Rotating <==> made.tickets is Rotating
                &&& plan.key_log <==> made.key_log is Some
                &&& made.own.chain == identity::views(h.certificate_chain->0@)
                &&& made.own.key == h.private_key->0@
            }
            &&& made.complete
            &&& !h.verify ==> made.check is NotAsked
            &&& h.verify && roots.len() == 0 ==> made.check == (ClientCheck::RecordOnly {
                record: h.record,
            })
            &&& h.verify && roots.len() > 0 ==> made.check == (ClientCheck::Roots {
                inner: roots,
                record: h.record,
            })
            &&& made.alpn == identity::views(h.alpn_protocols@)
            &&& h.early_data_enabled ==> made.max_early_data_size == 0xffff_ffff
            &&& !h.early_data_enabled ==> made.max_early_data_size == 0
            &&& made.storage == Some(h.server_session_storage)
            &&& h.ticket_producer is Some ==> made.tickets == Tickets::Fixed(h.ticket_producer->0)
            &&& h.ticket_producer is None && h.early_data_enabled ==> made.tickets is Stored
            &&& h.ticket_producer is None && !h.early_data_enabled ==> made.tickets is Rotating
            &&& made.key_log == h.key_log
        }),
{
}

/// What a client's connection is planned and made with. It needs the name of its server,
/// roots if it checks the server, and both or neither of a certificate chain and a private
/// key. A server must lead to a root, of its own check and of the one for version 1
/// identities, if peers are checked. Otherwise any server is accepted. Its store is the
/// handshake's, with the room that the first message leaves.
pub proof fn law_client_settings(h: Handshake)
    ensures
        ({
            let roots = roots::anchors(h.root_store);
            let made = h.client_setup();
            let plan = h.client_plan()->0;
            &&& h.client_plan() is Some <==> {
                &&& h.server_name is Some
                &&& setup::is_server_name(h.server_name->0@)
                &&& h.verify ==> roots.len() > 0
                &&& h.certificate_chain is Some <==> h.private_key is Some
            }
            &&& h.client_plan() is Some ==> {
                &&& plan.trust == Trust::Roots <==> h.verify
                &&& plan.trust == Trust::Anyone <==> !h.verify
                &&& plan.credentials <==> made.own is Some
                &&& plan.early_data == made.early_data
                &&& plan.key_log <==> made.key_log is Some
            }
            &&& h.verify ==> made.check == (ServerCheck::Roots {
                inner: roots,
                legacy: roots,
                record: h.record,
            })
            &&& !h.verify ==> made.check == (ServerCheck::Anyone { record: h.record })
            &&& made.own is Some <==> h.certificate_chain is Some && h.private_key is Some
            &&& made.own is Some ==> made.own->0.chain == identity::views(h.certificate_chain->0@)
                && made.own->0.key == h.private_key->0@
            &&& made.alpn == identity::views(h.alpn_protocols@)
            &&& made.early_data == h.early_data_enabled
            &&& made.key_log == h.key_log
            &&& made.store is Some
            &&& made.store->0.room() == setup::hello_rest(
                identity::views(h.alpn_protocols@),
                h.local_transport_params@.len(),
            )
            &&& made.store->0.registry() == h.session_store.registry()
            &&& made.store->0.place() == h.session_store.place()
            &&& made.store->0.exported_place() == h.session_store.exported_place()
        }),
{
    let rest = setup::hello_rest(
        identity::views(h.alpn_protocols@),
        h.local_transport_params@.len(),
    );
    assert(rest <= setup::HELLO_ROOM);
    h.session_store.lemma_limited(rest as usize);
}

/// A connection is made for the side that was set, of the settings of that side, the
/// endpoint's transport parameters and, on a client's side, the server's name. Without a
/// side, or without a plan for it, none is made.
pub proof fn law_connection_is_made_of_settings(h: Handshake)
    ensures
        h.is_server is None ==> h.made() is None,
        h.is_server == Some(true) ==> (h.made() is Some <==> h.certificate_chain is Some
            && h.private_key is Some),
        h.is_server == Some(true) && h.made() is Some ==> h.made()->0 == (Made::Server {
            server: h.server_setup(),
            params: h.local_transport_params@,
        }),
        h.is_server == Some(false) ==> (h.made() is Some <==> h.client_plan() is Some),
        h.is_server == Some(false) && h.made() is Some ==> h.made()->0 == (Made::Client {
            client: h.client_setup(),
            name: h.server_name->0@,
            params: h.local_transport_params@,
        }),
{
}

/// What must have room. A server's certificate chain must, and the names of its roots if
/// it checks clients. A client's first message must, and its certificate chain.
pub proof fn law_what_must_have_room(h: Handshake)
    ensures
        h.server_fits() <==> {
            &&& h.certificate_chain is Some ==> credentials::chain_fits(
                identity::views(h.certificate_chain->0@),
            )
            &&& h.verify ==> roots::subjects_fit(roots::anchors(h.root_store))
        },
        h.client_fits() <==> {
            &&& h.certificate_chain is Some ==> credentials::chain_fits(
                identity::views(h.certificate_chain->0@),
            )
            &&& setup::hello_fits(
                identity::views(h.alpn_protocols@),
                h.local_transport_params@.len(),
            )
        },
        MAX_TRANSPORT_PARAMS_LEN == 128,
{
}

/// A server connects for certain when it has a certificate chain and a private key that
/// the TLS stack can use, its messages have room, and it has a ticket key or takes early
/// data.
pub proof fn law_server_that_connects(h: Handshake)
    ensures
        h.surely_connects() <==> {
            &&& h.is_server == Some(true)
            &&& h.certificate_chain is Some
            &&& h.private_key is Some
            &&& credentials::private_key_loads(h.private_key->0.kind, h.private_key->0.der@)
            &&& h.server_fits()
            &&& h.ticket_producer is Some || h.early_data_enabled
        },
        h.surely_connects() ==> h.made() is Some,
{
}

/// Where no connection can be made, there is a reason: the settings name none, the private
/// key is of no use, a message has no room, the TLS stack was asked for just this
/// connection and did not make it, or there were no random keys for tickets.
pub proof fn law_reasons_for_no_connection(h: Handshake)
    requires
        h.cannot_connect(),
        h.made() is Some,
        h.has_credentials() ==> h.key_loads(),
        h.is_server == Some(true) ==> h.server_fits(),
        h.is_server == Some(false) ==> h.client_fits(),
        forall|attempt: Attempt| #[trigger] attempt.made() == h.made()->0 ==> attempt.succeeded(),
    ensures
        h.is_server == Some(true),
        h.ticket_producer is None,
        !h.early_data_enabled,
        exists|keys: TicketKeys| !(#[trigger] keys.made()),
{
}

/// Starting over forgets the connection and what came of it, and nothing else. So the next
/// connection is made of the same.
pub proof fn law_starting_over_keeps_settings(h: Handshake)
    ensures
        h.cleared().conn is None,
        h.cleared().write_level == Level::Initial,
        !h.cleared().early_data_active,
        h.cleared().signature_scheme is None,
        h.cleared().recorded_peer_identity is None,
        same_settings(h.cleared(), h),
        h.cleared().alpn_protocols == h.alpn_protocols,
        h.cleared().made() == h.made(),
        h.cleared().received().len() == 0,
        h.cleared().sent().len() == 0,
        !h.cleared().completed(),
{
}

/// What a handshake was handed and gave is what its connection was handed and gave. It is
/// over when the connection says so. The identity that the connection accepted is shown
/// before one that was only recorded.
pub proof fn law_handshake_shows_its_connection(h: Handshake)
    ensures
        h.conn is Some ==> h.received() == h.conn->0@.received && h.sent() == h.conn->0@.sent,
        h.conn is None ==> h.received().len() == 0 && h.sent().len() == 0,
        h.completed() <==> h.conn is Some && !h.conn->0.report.handshaking,
        h.conn is Some && h.conn->0.report.peer_identity is Some ==> h.shown_identity() == Some(
            h.conn->0.report.peer_identity->0@,
        ),
        (h.conn is None || h.conn->0.report.peer_identity is None) && h.recorded_peer_identity
            is Some ==> h.shown_identity() == Some(h.recorded_peer_identity->0@),
        (h.conn is None || h.conn->0.report.peer_identity is None) && h.recorded_peer_identity
            is None ==> h.shown_identity() is None,
{
}

/// A connection that is there stays the same one and reports the same while data is sent.
/// A new one is made of the settings, its handshake goes on, and one that is there is
/// never lost.
pub proof fn law_connection_stays(before: Handshake, after: Handshake)
    requires
        keeps_connection(before, after),
        keeps_report(before, after),
    ensures
        before.conn is Some ==> after.conn is Some && after.conn->0@.made == before.conn->0@.made
            && after.conn->0@.report == before.conn->0@.report && after.conn->0@.early_keys
            == before.conn->0@.early_keys,
        before.conn is None && after.conn is Some ==> after.made() == Some(after.conn->0@.made)
            && after.conn->0@.report.handshaking,
{
}

/// Data is handed to a connection that is there if it may take it, and to a new one if it
/// has room for it.
pub proof fn law_data_that_is_taken(before: Handshake, after: Handshake, len: nat)
    ensures
        before.conn is Some ==> takes(before, after, len) == connection::can_take(
            before.conn->0@,
            len,
        ),
        before.conn is None && after.conn is None ==> !takes(before, after, len),
        before.conn is None && after.conn is Some && setup::data_room(after.conn->0@.made) is None
            ==> takes(before, after, len),
        before.conn is None && after.conn is Some && setup::data_room(after.conn->0@.made) is Some
            ==> takes(before, after, len) == (len <= setup::data_room(after.conn->0@.made)->0),
{
}

/// One whole round of sending: the connection gave something, all of it but the last with
/// keys. The level is the one of the last keys, or stays if there were none. These keys are
/// in place, the endpoint's own for sealing and the peer's for opening. A client that got
/// keys for application data is out of early data.
pub proof fn law_round_installs_the_keys_that_came(
    before: Handshake,
    given_data: ExData,
    after: Handshake,
    taken: ExData,
)
    requires
        flushed(before, given_data, after, taken),
    ensures
        ({
            let n = before.sent().len() as int;
            let m = after.sent().len() as int;
            let spaces = taken.crypto_ctx@;
            &&& m > n
            &&& after.sent().take(n) == before.sent()
            &&& after.sent()[m - 1].1 is None
            &&& forall|i: int| n <= i < m - 1 ==> (#[trigger] after.sent()[i]).1 is Some
            &&& m == n + 1 ==> after.write_level == before.write_level
            &&& m > n + 1 ==> match after.sent()[m - 2].1 {
                Some(KeyChange::Handshake { local, remote }) => {
                    &&& after.write_level == Level::Handshake
                    &&& spaces.handshake.seal == Some(Seal { keys: local, next: None })
                    &&& spaces.handshake.open == Some(Open { keys: remote, next: None })
                },
                Some(KeyChange::OneRtt { local, remote, next }) => {
                    &&& after.write_level == Level::OneRTT
                    &&& spaces.application.seal == Some(Seal { keys: local, next: Some(next) })
                    &&& spaces.application.open == Some(Open { keys: remote, next: Some(next) })
                    &&& !given_data.is_server ==> !after.early_data_active
                },
                None => false,
            }
        }),
{
    let start = now_at(before, given_data);
    let is_server = given_data.is_server;
    let flights = choose|flights: Seq<FlightView>| #[trigger]
        flights_of(before, after, flights) && flight::all_sent(start, is_server, flights) && now_at(
            after,
            taken,
        ) == flight::after_flights(start, is_server, flights);
    let n = before.sent().len() as int;
    let m = after.sent().len() as int;
    let k = flights.len() as int;
    assert(m == n + k - 1);
    assert(after.sent().take(n) =~= before.sent());
    assert forall|i: int| n <= i < m implies (#[trigger] after.sent()[i]).1 == flights[i - n
        + 1].change by {
        assert(after.sent()[i] == given(flights)[i - n]);
    }
    assert(flights[k - 1] == flights.last());
    let front = flights.drop_last();
    flight::law_level_follows_keys(
        flight::after_flights(start, is_server, front),
        is_server,
        flights.last(),
    );
    if m == n + 1 {
        assert(front =~= seq![flights[0]]);
        lemma_first_flight(start, is_server, flights[0]);
    } else {
        let earlier = front.drop_last();
        assert(front.last() == flights[k - 2]);
        flight::law_level_follows_keys(
            flight::after_flights(start, is_server, earlier),
            is_server,
            front.last(),
        );
        flight::law_last_keys_of_a_round_stay(start, is_server, flights, k - 2);
        if flights[k - 2].change matches Some(KeyChange::OneRtt { .. }) {
            if !is_server {
                flight::law_round_with_application_keys_ends_early_data(start, flights, k - 2);
            }
        }
    }
}

/// A scheme or an identity that is kept anew came from the record. A scheme gives way to a
/// later one, an identity to none.
pub proof fn law_what_is_kept_came_from_the_record(before: Handshake, after: Handshake)
    ensures
        scheme_followed(before, after) && after.signature_scheme != before.signature_scheme
            ==> after.signature_scheme is Some && verify::gave_up_scheme(
            *before.record,
            after.signature_scheme,
        ),
        scheme_followed(before, after) && before.signature_scheme is Some
            ==> after.signature_scheme is Some,
        scheme_followed(before, after) && after.signature_scheme is None ==> verify::gave_up_scheme(
            *before.record,
            None,
        ),
        identity_followed(before, after) && before.recorded_peer_identity is Some
            ==> after.recorded_peer_identity == before.recorded_peer_identity,
        identity_followed(before, after) && before.recorded_peer_identity is None
            ==> verify::gave_up_identity(*before.record, after.recorded_peer_identity),
        record_follows(before, after) && before.recorded_peer_identity is Some
            ==> after.recorded_peer_identity == before.recorded_peer_identity,
        record_follows(before, after) && before.signature_scheme is Some
            ==> after.signature_scheme is Some,
{
}

/// A session that waited is the one that is kept then. Otherwise the earlier one is.
pub proof fn law_waiting_session_is_handed_on(
    store: QuicheClientSessionStore,
    before: Option<Vec<u8>>,
    after: Option<Vec<u8>>,
)
    requires
        session_handed_on(store, before, after),
    ensures
        before is Some ==> after is Some,
        exists|change: Change<Option<Vec<u8>>, client_store::HoldsExported>|
            {
                &&& #[trigger] change.place() == store.exported_place()
                &&& change.after() is None
                &&& change.before() is Some ==> after == change.before()
                &&& change.before() is None ==> after == before
            },
        session_follows(before, after) && after != before ==> after is Some
            && client_store::is_exported_session(after->0@),
{
}

/// A log that grows keeps what it had, and gets whole lines behind it. Without a log there
/// is none then.
pub proof fn law_log_only_grows(before: Option<Vec<u8>>, after: Option<Vec<u8>>)
    requires
        log_grows(before, after),
    ensures
        before is Some <==> after is Some,
        before is Some ==> {
            &&& before->0@.len() <= after->0@.len()
            &&& after->0@.take(before->0@.len() as int) == before->0@
            &&& key_log::whole_lines(after->0@.skip(before->0@.len() as int))
        },
{
    if before is Some {
        let a = before->0@;
        let b = after->0@;
        let lines = choose|lines: Seq<u8>|
            #![trigger key_log::whole_lines(lines)]
            b == a + lines && key_log::whole_lines(lines);
        assert(b.take(a.len() as int) =~= a);
        assert(b.skip(a.len() as int) =~= lines);
    }
}

} // verus!
