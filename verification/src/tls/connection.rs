//! A connection of the TLS stack, and what it reports of itself.

use crate::crypto::rustls_provider;
use crate::crypto::Algorithm;
use crate::tls::flight::Flight;
use crate::tls::flight::KeyChange;
use crate::tls::identity::Identity;
use crate::tls::identity::IdentityView;
use crate::tls::setup;
use crate::tls::setup::Made;
use crate::tls::verify::plain_identity;
use rustls::crypto::SignatureScheme;
use rustls::quic::Connection;
use rustls::quic::DirectionalKeys;
use rustls::Error as TlsError;
use rustls::SupportedCipherSuite;
use vstd::prelude::*;

verus! {

/// How a handshake went.
#[derive(Clone, Copy, Debug, PartialEq, Eq, Structural)]
pub enum HandshakeKind {
    Full,
    FullWithHelloRetryRequest,
    Resumed,
    ResumedWithHelloRetryRequest,
}

/// What a connection reports of itself.
pub struct ConnectionReport {
    /// Whether this is the server's side.
    pub is_server: bool,
    /// Whether the handshake is still going on.
    pub handshaking: bool,
    /// How the handshake went.
    pub kind: Option<HandshakeKind>,
    /// The application protocol that was agreed on.
    pub alpn: Option<Vec<u8>>,
    /// The peer's transport parameters.
    pub transport_params: Option<Vec<u8>>,
    /// The name that a client asked a server for.
    pub requested_name: Option<String>,
    /// The number of the TLS 1.3 cipher suite that was agreed on.
    pub cipher_suite: Option<u16>,
    /// The key exchange group that was agreed on.
    pub group: Option<String>,
    /// Who the peer is.
    pub peer_identity: Option<Identity>,
}

/// What a connection reports of itself, by contents.
pub struct ReportView {
    pub is_server: bool,
    pub handshaking: bool,
    pub kind: Option<HandshakeKind>,
    pub alpn: Option<Seq<u8>>,
    pub transport_params: Option<Seq<u8>>,
    pub requested_name: Option<Seq<char>>,
    pub cipher_suite: Option<u16>,
    pub group: Option<Seq<char>>,
    pub peer_identity: Option<IdentityView>,
}

/// Bytes that may be missing.
pub open spec fn bytes_view(bytes: Option<Vec<u8>>) -> Option<Seq<u8>> {
    match bytes {
        Some(b) => Some(b@),
        None => None,
    }
}

/// Text that may be missing.
pub open spec fn text_view(text: Option<String>) -> Option<Seq<char>> {
    match text {
        Some(t) => Some(t@),
        None => None,
    }
}

/// An identity that may be missing.
pub open spec fn identity_view(identity: Option<Identity>) -> Option<IdentityView> {
    match identity {
        Some(i) => Some(i@),
        None => None,
    }
}

impl View for ConnectionReport {
    type V = ReportView;

    open spec fn view(&self) -> ReportView {
        ReportView {
            is_server: self.is_server,
            handshaking: self.handshaking,
            kind: self.kind,
            alpn: bytes_view(self.alpn),
            transport_params: bytes_view(self.transport_params),
            requested_name: text_view(self.requested_name),
            cipher_suite: self.cipher_suite,
            group: text_view(self.group),
            peer_identity: identity_view(self.peer_identity),
        }
    }
}

/// What a report shows is what stands in it, each thing for itself.
pub proof fn law_report_shows_its_fields(report: ConnectionReport)
    ensures
        report@.is_server == report.is_server,
        report@.handshaking == report.handshaking,
        report@.kind == report.kind,
        report@.cipher_suite == report.cipher_suite,
        report.alpn is Some <==> report@.alpn is Some,
        report.alpn is Some ==> report@.alpn->0 == report.alpn->0@,
        report.transport_params is Some <==> report@.transport_params is Some,
        report.transport_params is Some ==> report@.transport_params->0
            == report.transport_params->0@,
        report.requested_name is Some <==> report@.requested_name is Some,
        report.requested_name is Some ==> report@.requested_name->0 == report.requested_name->0@,
        report.group is Some <==> report@.group is Some,
        report.group is Some ==> report@.group->0 == report.group->0@,
        report.peer_identity is Some <==> report@.peer_identity is Some,
        report.peer_identity is Some ==> report@.peer_identity->0 == report.peer_identity->0@,
{
}

/// What a connection of the TLS stack holds.
pub struct ConnectionView {
    /// What it was made of.
    pub made: Made,
    /// The handshake data that it was handed, each with whether it took it.
    pub received: Seq<(Seq<u8>, bool)>,
    /// The handshake data that it gave, each with the keys that follow it.
    pub sent: Seq<(Seq<u8>, Option<KeyChange>)>,
    /// What it reports of itself.
    pub report: ReportView,
    /// The keys for early data, once there are any.
    pub early_keys: Option<DirectionalKeys>,
}

/// What a `quic::Connection` holds.
pub uninterp spec fn connection_state(conn: Connection) -> ConnectionView;

/// Whether a connection was made of something, and neither got nor gave any data. Its
/// handshake goes on, on the side that it was made for, and no key exchange group was
/// agreed on.
pub open spec fn starts(state: ConnectionView, made: Made) -> bool {
    &&& state.made == made
    &&& state.received.len() == 0
    &&& state.sent.len() == 0
    &&& state.report.is_server == made is Server
    &&& state.report.handshaking
    &&& state.report.group is None
}

/// How many times keys came with handshake data.
pub open spec fn key_changes(sent: Seq<(Seq<u8>, Option<KeyChange>)>) -> nat
    decreases sent.len(),
{
    if sent.len() == 0 {
        0
    } else {
        key_changes(sent.drop_last()) + if sent.last().1 is Some {
            1nat
        } else {
            0nat
        }
    }
}

/// How many bytes of handshake data a connection was handed.
pub open spec fn received_len(received: Seq<(Seq<u8>, bool)>) -> nat
    decreases received.len(),
{
    if received.len() == 0 {
        0
    } else {
        received_len(received.drop_last()) + received.last().0.len()
    }
}

/// Each time that a connection is handed data, its bytes count, whether it takes them or
/// not. Each time that it gives data with keys, one change of keys counts.
pub proof fn law_data_and_keys_are_counted(
    received: Seq<(Seq<u8>, bool)>,
    data: Seq<u8>,
    took: bool,
    sent: Seq<(Seq<u8>, Option<KeyChange>)>,
    change: Option<KeyChange>,
)
    ensures
        received_len(Seq::empty()) == 0,
        received_len(received.push((data, took))) == received_len(received) + data.len(),
        key_changes(Seq::empty()) == 0,
        change is None ==> key_changes(sent.push((data, change))) == key_changes(sent),
        change is Some ==> key_changes(sent.push((data, change))) == key_changes(sent) + 1,
{
    assert(received.push((data, took)).drop_last() =~= received);
    assert(sent.push((data, change)).drop_last() =~= sent);
}

/// A connection without a limit may be handed any data. So may a client that knows the
/// key exchange group. Otherwise all that it was handed must stay within the limit.
pub proof fn law_data_stays_within_the_limit(state: ConnectionView, len: nat)
    ensures
        setup::data_room(state.made) is None ==> can_take(state, len),
        state.made is Client && state.report.group is Some ==> can_take(state, len),
        setup::data_room(state.made) is Some && !(state.made is Client && state.report.group
            is Some) ==> (can_take(state, len) <==> received_len(state.received) + len
            <= setup::data_room(state.made)->0),
{
}

/// Whether a connection may be handed that many bytes more, so that its answers have
/// room for what comes back of them. A client that knows the key exchange group got the
/// server's first message, and gives nothing back of what follows.
pub open spec fn can_take(state: ConnectionView, len: nat) -> bool {
    match setup::data_room(state.made) {
        Some(room) => (state.made is Client && state.report.group is Some) || received_len(
            state.received,
        ) + len <= room,
        None => true,
    }
}

/// What holds of a connection at all times: it is on the side that it was made for,
/// its messages have room for what they are to hold, its handshake goes on as long as
/// it got no data, and keys came with its data at most twice.
pub open spec fn is_sound(state: ConnectionView) -> bool {
    &&& setup::messages_fit(state.made)
    &&& state.report.is_server == state.made is Server
    &&& state.received.len() == 0 ==> state.report.handshaking
    &&& key_changes(state.sent) <= 2
}

/// Whether data and keys can be what a connection gives next, if it is the first that
/// it gives and nothing came from the peer: no keys, and data on a client's side only.
pub open spec fn gives_first(
    state: ConnectionView,
    data: Seq<u8>,
    change: Option<KeyChange>,
) -> bool {
    state.received.len() == 0 && state.sent.len() == 0 ==> {
        &&& change is None
        &&& state.made is Client <==> data.len() > 0
    }
}

/// Whether the connection is a `quic::Connection::Server`.
#[verifier::external_body]
fn is_server_side(conn: &Connection) -> (r: bool)
    ensures
        r == connection_state(*conn).report.is_server,
{
    matches!(conn, Connection::Server(_))
}

/// `CommonState::is_handshaking`.
#[verifier::external_body]
fn is_handshaking(conn: &Connection) -> (r: bool)
    ensures
        r == connection_state(*conn).report.handshaking,
{
    conn.is_handshaking()
}

/// `CommonState::handshake_kind`.
#[verifier::external_body]
fn handshake_kind(conn: &Connection) -> (r: Option<HandshakeKind>)
    ensures
        r == connection_state(*conn).report.kind,
{
    match conn.handshake_kind()? {
        rustls::HandshakeKind::Full => Some(HandshakeKind::Full),
        rustls::HandshakeKind::FullWithHelloRetryRequest => {
            Some(HandshakeKind::FullWithHelloRetryRequest)
        },
        rustls::HandshakeKind::Resumed => Some(HandshakeKind::Resumed),
        rustls::HandshakeKind::ResumedWithHelloRetryRequest => {
            Some(HandshakeKind::ResumedWithHelloRetryRequest)
        },
        _ => None,
    }
}

/// `CommonState::alpn_protocol`.
#[verifier::external_body]
fn negotiated_alpn(conn: &Connection) -> (r: Option<Vec<u8>>)
    ensures
        bytes_view(r) == connection_state(*conn).report.alpn,
{
    conn.alpn_protocol().map(|proto| proto.as_ref().to_vec())
}

/// `quic::Connection::quic_transport_parameters`.
#[verifier::external_body]
fn peer_transport_params(conn: &Connection) -> (r: Option<Vec<u8>>)
    ensures
        bytes_view(r) == connection_state(*conn).report.transport_params,
{
    conn.quic_transport_parameters().map(|params| params.to_vec())
}

/// `quic::ServerConnection::server_name`, which a client's connection has not.
#[verifier::external_body]
fn requested_name(conn: &Connection) -> (r: Option<String>)
    ensures
        text_view(r) == connection_state(*conn).report.requested_name,
{
    match conn {
        Connection::Server(conn) => conn.server_name().map(|name| name.as_ref().to_owned()),
        Connection::Client(_) => None,
    }
}

/// `CommonState::negotiated_cipher_suite`, the number of a TLS 1.3 suite.
#[verifier::external_body]
fn negotiated_suite(conn: &Connection) -> (r: Option<u16>)
    ensures
        r == connection_state(*conn).report.cipher_suite,
{
    match conn.negotiated_cipher_suite()? {
        SupportedCipherSuite::Tls13(suite) => Some(u16::from(suite.common.suite)),
        _ => None,
    }
}

/// `CommonState::negotiated_key_exchange_group`, the name of the group as it prints.
#[verifier::external_body]
fn negotiated_group(conn: &Connection) -> (r: Option<String>)
    ensures
        text_view(r) == connection_state(*conn).report.group,
{
    conn.negotiated_key_exchange_group().map(|group| format!("{:?}", group.name()))
}

/// `CommonState::peer_identity`.
#[verifier::external_body]
fn verified_identity(conn: &Connection) -> (r: Option<Identity>)
    ensures
        identity_view(r) == connection_state(*conn).report.peer_identity,
{
    conn.peer_identity().map(|identity| plain_identity(identity))
}

/// `quic::Connection::read_hs`. What the connection reports may change, but not its
/// side. Nothing is claimed of when the TLS stack takes the data.
///
/// With debug assertions it panics when its answer does not fit into a message. An answer
/// of a client holds the cookie of a request for another first message, or a certificate
/// chain. One of a server holds the names of authorities, a certificate chain, and a
/// ticket with the identity of the client. So there must be room for all of them.
#[verifier::external_body]
fn read_handshake(conn: &mut Connection, data: &[u8]) -> (r: Result<(), TlsError>)
    requires
        setup::messages_fit(connection_state(*old(conn)).made),
        can_take(connection_state(*old(conn)), data@.len()),
    ensures
        connection_state(*final(conn)).report.is_server == connection_state(
            *old(conn),
        ).report.is_server,
        connection_state(*final(conn)) == (ConnectionView {
            received: connection_state(*old(conn)).received.push((data@, r is Ok)),
            report: connection_state(*final(conn)).report,
            early_keys: connection_state(*final(conn)).early_keys,
            ..connection_state(*old(conn))
        }),
{
    conn.read_hs(data)
}

/// `quic::Connection::write_hs`, with the keys of the change that it gives. It takes
/// from what waits to be sent, and changes nothing that the connection reports.
///
/// Over the life of a connection it gives keys for the rest of the handshake once and
/// keys for application data once. What it gives first, before any data came from the
/// peer, brings no keys: a client's first message, and nothing of a server.
#[verifier::external_body]
fn write_handshake(conn: &mut Connection) -> (r: (Vec<u8>, Option<KeyChange>))
    ensures
        connection_state(*final(conn)) == (ConnectionView {
            sent: connection_state(*old(conn)).sent.push((r.0@, r.1)),
            ..connection_state(*old(conn))
        }),
        key_changes(connection_state(*final(conn)).sent) <= 2,
        gives_first(connection_state(*old(conn)), r.0@, r.1),
{
    let mut data = Vec::new();
    let change = conn.write_hs(&mut data).map(|change| match change {
        rustls::quic::KeyChange::Handshake { keys } => {
            KeyChange::Handshake { local: keys.local, remote: keys.remote }
        },
        rustls::quic::KeyChange::OneRtt { keys, next } => {
            KeyChange::OneRtt { local: keys.local, remote: keys.remote, next }
        },
    });
    (data, change)
}

/// `quic::Connection::zero_rtt_keys`, which derives the same keys each time.
#[verifier::external_body]
fn early_keys(conn: &Connection) -> (r: Option<DirectionalKeys>)
    ensures
        r == connection_state(*conn).early_keys,
{
    conn.zero_rtt_keys()
}

/// What the name of a signature scheme prints as, by its number.
pub uninterp spec fn scheme_text(number: u16) -> Seq<char>;

/// The `Debug` output of `SignatureScheme::from` on a number.
#[verifier::external_body]
pub(crate) fn print_scheme(number: u16) -> (r: String)
    ensures
        r@ == scheme_text(number),
{
    format!("{:?}", SignatureScheme::from(number))
}

/// The cipher of a TLS 1.3 cipher suite.
pub open spec fn suite_algorithm(suite: u16) -> Option<Algorithm> {
    if suite == 0x1301 {
        Some(Algorithm::AES128_GCM)
    } else if suite == 0x1302 {
        Some(Algorithm::AES256_GCM)
    } else if suite == 0x1303 {
        Some(Algorithm::ChaCha20_Poly1305)
    } else {
        None
    }
}

/// Three suites have a cipher, each its own, and a cipher's suite is the one that packets
/// are protected with under it.
pub proof fn law_suites_have_ciphers(suite: u16, alg: Algorithm)
    ensures
        suite_algorithm(0x1301) == Some(Algorithm::AES128_GCM),
        suite_algorithm(0x1302) == Some(Algorithm::AES256_GCM),
        suite_algorithm(0x1303) == Some(Algorithm::ChaCha20_Poly1305),
        suite_algorithm(suite) is Some <==> 0x1301 <= suite <= 0x1303,
        suite_algorithm(suite) == Some(alg) <==> suite == rustls_provider::suite_number(alg),
{
}

/// The cipher of a TLS 1.3 cipher suite.
pub fn rustls_cipher_to_algorithm(suite: u16) -> (r: Option<Algorithm>)
    ensures
        r == suite_algorithm(suite),
{
    match suite {
        0x1301 => Some(Algorithm::AES128_GCM),
        0x1302 => Some(Algorithm::AES256_GCM),
        0x1303 => Some(Algorithm::ChaCha20_Poly1305),
        _ => None,
    }
}

/// What a connection reports of itself now.
fn report_of(conn: &Connection) -> (r: ConnectionReport)
    ensures
        r@ == connection_state(*conn).report,
{
    ConnectionReport {
        is_server: is_server_side(conn),
        handshaking: is_handshaking(conn),
        kind: handshake_kind(conn),
        alpn: negotiated_alpn(conn),
        transport_params: peer_transport_params(conn),
        requested_name: requested_name(conn),
        cipher_suite: negotiated_suite(conn),
        group: negotiated_group(conn),
        peer_identity: verified_identity(conn),
    }
}

/// A connection with its latest report.
///
/// The TLS stack's connection is opaque. What it reports is read again after every
/// call that may change it.
pub struct TlsConnection {
    pub inner: Connection,
    pub report: ConnectionReport,
    /// How many bytes of the peer's data it may be handed in all, if there is a limit.
    pub room: Option<usize>,
    /// How many bytes of the peer's data it was handed, as far as they can be counted.
    pub taken: usize,
}

/// Whether a limit is the one of what a connection was made of.
pub open spec fn is_room(room: Option<usize>, made: Made) -> bool {
    match setup::data_room(made) {
        Some(limit) => room matches Some(n) && n == limit,
        None => room is None,
    }
}

/// A number, or the greatest that can be counted to.
pub open spec fn counted(n: nat) -> nat {
    if n <= usize::MAX {
        n
    } else {
        usize::MAX as nat
    }
}

impl View for TlsConnection {
    type V = ConnectionView;

    open spec fn view(&self) -> ConnectionView {
        connection_state(self.inner)
    }
}

impl TlsConnection {
    /// The report and the limit are the connection's own, the bytes that it was handed
    /// are counted, and what holds of a connection at all times holds of this one.
    pub open spec fn well_formed(&self) -> bool {
        &&& self.report@ == self@.report
        &&& is_room(self.room, self@.made)
        &&& self.taken == counted(received_len(self@.received))
        &&& is_sound(self@)
    }

    /// Takes a connection that was just made, with the limit of what it was made of.
    pub(crate) fn new(inner: Connection, room: Option<usize>) -> (r: Self)
        requires
            starts(connection_state(inner), connection_state(inner).made),
            setup::messages_fit(connection_state(inner).made),
            is_room(room, connection_state(inner).made),
        ensures
            r.well_formed(),
            r@ == connection_state(inner),
    {
        let report: ConnectionReport = report_of(&inner);
        TlsConnection { inner, report, room, taken: 0 }
    }

    /// Whether the connection may be handed that many bytes more.
    pub fn has_room(&self, len: usize) -> (r: bool)
        requires
            self.well_formed(),
        ensures
            r == can_take(self@, len as nat),
    {
        match self.room {
            None => true,
            Some(room) => {
                proof {
                    assert(setup::data_room(self@.made) is Some);
                    assert(room < usize::MAX);
                }
                (!self.report.is_server && self.report.group.is_some()) || (self.taken <= room
                    && len <= room - self.taken)
            },
        }
    }

    /// Hands handshake data of the peer to the TLS stack, which may turn it down.
    pub(crate) fn read(&mut self, data: &[u8]) -> (r: Result<(), TlsError>)
        requires
            old(self).well_formed(),
            can_take(old(self)@, data@.len()),
        ensures
            final(self).well_formed(),
            final(self)@ == (ConnectionView {
                received: old(self)@.received.push((data@, r is Ok)),
                report: final(self)@.report,
                early_keys: final(self)@.early_keys,
                ..old(self)@
            }),
    {
        let r: Result<(), TlsError> = read_handshake(&mut self.inner, data);
        self.report = report_of(&self.inner);
        self.taken = if data.len() > usize::MAX - self.taken {
            usize::MAX
        } else {
            self.taken + data.len()
        };
        proof {
            assert(self@.received.drop_last() =~= old(self)@.received);
        }
        r
    }

    /// The next flight.
    pub(crate) fn write(&mut self) -> (r: Flight)
        requires
            old(self).well_formed(),
        ensures
            final(self).well_formed(),
            final(self)@ == (ConnectionView {
                sent: old(self)@.sent.push((r.data@, r.change)),
                ..old(self)@
            }),
            r.zero_rtt == old(self)@.early_keys,
            gives_first(old(self)@, r.data@, r.change),
    {
        let (data, change): (Vec<u8>, Option<KeyChange>) = write_handshake(&mut self.inner);
        self.report = report_of(&self.inner);
        Flight { data, change, zero_rtt: early_keys(&self.inner) }
    }

    /// The keys for early data, once there are any.
    pub(crate) fn zero_rtt_keys(&self) -> (r: Option<DirectionalKeys>)
        ensures
            r == self@.early_keys,
    {
        early_keys(&self.inner)
    }
}

} // verus!
