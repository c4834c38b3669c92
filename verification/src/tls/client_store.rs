//! The session stores that client connections use.

use crate::error::Error;
use crate::outside::draw_token;
use crate::outside::read_clock;
use crate::outside::Draw;
use crate::outside::Reading;
use crate::shared::Beginning;
use crate::shared::Change;
use crate::shared::Shared;
use crate::shared::Sight;
use crate::tls::client_sessions;
use crate::tls::client_sessions::make_session_key;
use crate::tls::client_sessions::ClientSessions;
use crate::tls::client_sessions::Remembered;
use crate::tls::foreign;
use crate::tls::foreign::print_name;
use crate::tls::session_registry;
use crate::tls::text;
use crate::tls::session_registry::export_ticket;
use crate::tls::session_registry::import_ticket;
use crate::tls::session_registry::Registry;
use crate::tls::session_registry::RUSTLS_SESSION_TOKEN_LEN;
use rustls::client::ClientSessionKey;
use rustls::client::Tls12ClientSessionValue;
use rustls::client::Tls13ClientSessionValue;
use rustls::crypto::kx::NamedGroup;
use std::sync::Arc;
use vstd::prelude::*;
use vstd::rwlock::RwLockPredicate;

verus! {

/// What a `ClientSessionKey` holds: the hash of the configuration, and the server's
/// name as it is written.
pub uninterp spec fn key_parts(key: ClientSessionKey<'_>) -> (Seq<u8>, Seq<char>);

/// The fields of a `ClientSessionKey`: the hash of the configuration, and the
/// server's name as `ServerName::to_str` gives it.
#[verifier::external_body]
fn session_key_parts(key: &ClientSessionKey<'_>) -> (r: ([u8; 32], String))
    ensures
        (r.0@, r.1@) == key_parts(*key),
{
    (key.config_hash, key.server_name.to_str().into_owned())
}

/// The peer's transport parameters that came with a ticket.
pub uninterp spec fn quic_params(value: Tls13ClientSessionValue) -> Seq<u8>;

/// `Tls13ClientSessionValue::quic_params`: the peer's transport parameters that came
/// with a ticket.
#[verifier::external_body]
fn ticket_params(value: &Tls13ClientSessionValue) -> (r: Vec<u8>)
    ensures
        r@ == quic_params(*value),
{
    value.quic_params()
}

/// How many bytes the ticket in a `Tls13ClientSessionValue` has.
pub uninterp spec fn ticket_len(value: Tls13ClientSessionValue) -> nat;

/// How many bytes the `Debug` output of a `Tls13ClientSessionValue` has.
pub uninterp spec fn printed_len(value: Tls13ClientSessionValue) -> nat;

/// The length of the `Debug` output of a `Tls13ClientSessionValue`. The output has two
/// digits for each byte of the ticket, besides all else that it has.
#[verifier::external_body]
fn print_len(value: &Tls13ClientSessionValue) -> (r: usize)
    ensures
        r == printed_len(*value),
        2 * ticket_len(*value) <= r,
{
    format!("{value:?}").len()
}

/// `SystemTime::elapsed` since the Unix epoch, in whole seconds, unless the clock is
/// before it. Time is left to the machine, so nothing is claimed of it.
#[verifier::external_body]
pub(crate) fn unix_seconds() -> Option<u64> {
    std::time::UNIX_EPOCH.elapsed().ok().map(|span| span.as_secs())
}

/// The oldest ticket that is offered, in seconds since it came. The TLS stack counts the
/// age of a ticket in milliseconds of 32 bits, which are over a little later.
pub const MAX_TICKET_AGE_SECS: u64 = 4_294_000;

/// Whether a ticket is not too old to be offered. One from the future is new.
pub open spec fn is_young(stored_at: u64, now: u64) -> bool {
    now - stored_at <= MAX_TICKET_AGE_SECS
}

/// Whether a ticket may be offered: it is not too old, and what it prints as shows that
/// it has no more bytes than there is room for.
pub open spec fn may_offer(stored_at: u64, now: u64, printed: nat, room: nat) -> bool {
    is_young(stored_at, now) && printed / 2 <= room
}

/// Whether a ticket may be offered, given when it came, the time, how long it prints,
/// and the room for it.
pub fn can_offer_ticket(stored_at: u64, now: u64, printed: usize, room: usize) -> (r: bool)
    ensures
        r == may_offer(stored_at, now, printed as nat, room as nat),
{
    (now <= stored_at || now - stored_at <= MAX_TICKET_AGE_SECS) && printed / 2 <= room
}

/// A ticket, and when it came in seconds since the Unix epoch.
pub struct KeptTicket {
    pub value: Tls13ClientSessionValue,
    pub stored_at: u64,
}

/// `Tls12ClientSessionValue::clone`, which derives the copy field by field.
#[verifier::external_body]
fn copy_tls12(value: &Tls12ClientSessionValue) -> (r: Tls12ClientSessionValue)
    ensures
        r == *value,
{
    value.clone()
}

/// The number that stands for a `NamedGroup`.
pub uninterp spec fn group_id(group: NamedGroup) -> u16;

/// `u16::from` on a `NamedGroup`: the number that stands for the group.
#[verifier::external_body]
fn group_number(group: NamedGroup) -> (r: u16)
    ensures
        r == group_id(group),
{
    u16::from(group)
}

/// `NamedGroup::from` on a number: the group that the number stands for.
#[verifier::external_body]
fn group_with_number(number: u16) -> (r: NamedGroup)
    ensures
        group_id(r) == number,
{
    NamedGroup::from(number)
}

/// `rand::fill` on a token: random bytes, or nothing when the system gives none.
#[verifier::external_body]
pub(crate) fn random_token() -> (r: Result<[u8; 16], aws_lc_rs::error::Unspecified>) {
    let mut token = [0; 16];
    aws_lc_rs::rand::fill(&mut token)?;
    Ok(token)
}

/// The registry behind a lock is well formed.
pub struct KeepsRegistry;

impl RwLockPredicate<Registry<KeptTicket>> for KeepsRegistry {
    open spec fn inv(self, v: Registry<KeptTicket>) -> bool {
        v.well_formed()
    }
}

/// Exported sessions that all clients share.
pub struct SessionRegistry {
    sessions: Shared<Registry<KeptTicket>, KeepsRegistry>,
}

impl SessionRegistry {
    /// Whether the registry may hold these sessions while no one changes it.
    pub open spec fn may_hold(&self, held: Registry<KeptTicket>) -> bool {
        held.well_formed()
    }

    /// Where the sessions are.
    pub closed spec fn place(&self) -> Shared<Registry<KeptTicket>, KeepsRegistry> {
        self.sessions
    }

    /// Whether the registry began without sessions.
    pub open spec fn began_empty(&self) -> bool {
        exists|sessions: Registry<KeptTicket>| #[trigger]
            self.place().began_with(sessions) && sessions.size() == 0 && forall|token: Seq<u8>|
                #[trigger] sessions.session(token) is None
    }

    /// An empty registry.
    pub fn new() -> (r: Self)
        ensures
            r.began_empty(),
    {
        let sessions: Registry<KeptTicket> = Registry::new();
        let ghost first: Registry<KeptTicket> = sessions;
        let r: Self = SessionRegistry { sessions: Shared::new(sessions, Ghost(KeepsRegistry)) };
        proof {
            assert(r.place().began_with(first));
        }
        r
    }

    /// Keeps a ticket under a random token, and gives the token with the peer's
    /// transport parameters in one byte string. Without random bytes it keeps
    /// nothing.
    pub(crate) fn register(
        &self,
        key: Vec<u8>,
        value: KeptTicket,
        peer_params: &[u8],
    ) -> (r: Option<Vec<u8>>)
        ensures
            r matches Some(session) ==> exists|token: Seq<u8>|
                token.len() == RUSTLS_SESSION_TOKEN_LEN && session@
                    == session_registry::encoded_session(token, peer_params@),
            registered(*self, key@, value, peer_params@, r),
    {
        let (drawn, draw): (Option<[u8; 16]>, Ghost<Draw>) = draw_token();
        let token: [u8; 16] = match drawn {
            Some(token) => token,
            None => {
                proof {
                    assert(draw@.bytes() is None);
                }
                return None;
            },
        };
        let (mut sessions, vacancy) = self.sessions.take_out();
        let session: Vec<u8> = export_ticket(&mut sessions, token, key, value, peer_params);
        let change: Ghost<Change<Registry<KeptTicket>, KeepsRegistry>> = vacancy.fill(sessions);
        proof {
            assert(token@.len() == 16);
            assert(draw@.bytes() == Some(token@));
            assert(change@.place() == self.place());
        }
        Some(session)
    }
}

/// Whether a ticket was registered: under the token that was drawn, in what the registry
/// held at the moment. The result is the token with the peer's transport parameters, and
/// there is none exactly when no token could be drawn.
pub open spec fn registered(
    registry: SessionRegistry,
    key: Seq<u8>,
    value: KeptTicket,
    peer_params: Seq<u8>,
    r: Option<Vec<u8>>,
) -> bool {
    exists|draw: Draw|
        match #[trigger] draw.bytes() {
            Some(token) => {
                &&& token.len() == RUSTLS_SESSION_TOKEN_LEN
                &&& r is Some
                &&& r->0@ == session_registry::encoded_session(token, peer_params)
                &&& exists|change: Change<Registry<KeptTicket>, KeepsRegistry>| #[trigger]
                    change.place() == registry.place() && session_registry::registers(
                        change.before(),
                        token,
                        key,
                        value,
                        change.after(),
                    )
            },
            None => r is None,
        }
}

/// Whoever gets an exported session finds its ticket in the registry under the token that
/// the session starts with, behind the token's length. While the registry was not full,
/// no other token is lost by it.
pub proof fn law_registered_ticket_joins_the_others(
    registry: &SessionRegistry,
    key: Seq<u8>,
    value: KeptTicket,
    peer_params: Seq<u8>,
    r: Option<Vec<u8>>,
)
    requires
        registered(*registry, key, value, peer_params, r),
        r is Some,
    ensures
        exists|change: Change<Registry<KeptTicket>, KeepsRegistry>|
            {
                let token = r->0@.subrange(8, 24);
                &&& #[trigger] change.place() == registry.place()
                &&& change.after().session(token) == Some((key, value))
                &&& change.before().size() < 1_024 ==> forall|t: Seq<u8>|
                    t != token ==> #[trigger] change.after().session(t) == change.before().session(
                        t,
                    )
            },
        peer_params.len() <= u64::MAX ==> r->0@.skip(32) == peer_params,
{
    let draw = choose|draw: Draw| {
        &&& #[trigger] draw.bytes() is Some
        &&& draw.bytes()->0.len() == RUSTLS_SESSION_TOKEN_LEN
        &&& r->0@ == session_registry::encoded_session(draw.bytes()->0, peer_params)
        &&& exists|change: Change<Registry<KeptTicket>, KeepsRegistry>| #[trigger]
            change.place() == registry.place() && session_registry::registers(
                change.before(),
                draw.bytes()->0,
                key,
                value,
                change.after(),
            )
    };
    let token = draw.bytes()->0;
    assert(r->0@.subrange(8, 24) =~= token);
    if peer_params.len() <= u64::MAX {
        session_registry::law_encoded_session_reads_back(token, peer_params);
    }
}

/// Without random bytes for a token nothing is registered, and with them there is always
/// an exported session.
pub proof fn law_registration_needs_a_token(
    registry: &SessionRegistry,
    key: Seq<u8>,
    value: KeptTicket,
    peer_params: Seq<u8>,
    r: Option<Vec<u8>>,
)
    requires
        registered(*registry, key, value, peer_params, r),
    ensures
        exists|draw: Draw| #[trigger] draw.bytes() is Some <==> r is Some,
{
}

/// The sessions behind a lock are well formed.
pub struct KeepsSessions;

impl RwLockPredicate<ClientSessions<Tls12ClientSessionValue, KeptTicket>>
    for KeepsSessions {
    open spec fn inv(
        self,
        v: ClientSessions<Tls12ClientSessionValue, KeptTicket>,
    ) -> bool {
        v.well_formed()
    }
}

/// Whether `session` is a token with the transport parameters of a ticket.
pub open spec fn is_exported_session(session: Seq<u8>) -> bool {
    exists|token: Seq<u8>, value: Tls13ClientSessionValue|
        token.len() == RUSTLS_SESSION_TOKEN_LEN && session
            == #[trigger] session_registry::encoded_session(token, quic_params(value))
}

/// What waits to be handed on is an exported session.
pub struct HoldsExported;

impl RwLockPredicate<Option<Vec<u8>>> for HoldsExported {
    open spec fn inv(self, v: Option<Vec<u8>>) -> bool {
        v matches Some(session) ==> is_exported_session(session@)
    }
}

/// The sessions of one client, and the last one that it exported.
///
/// The store is shared with the connection, so what it holds may change between
/// any two calls. It hands tickets on only if they have no more bytes than there is room
/// for.
pub struct QuicheClientSessionStore {
    sessions: Arc<Shared<ClientSessions<Tls12ClientSessionValue, KeptTicket>, KeepsSessions>>,
    exported_session: Arc<Shared<Option<Vec<u8>>, HoldsExported>>,
    registry: Arc<SessionRegistry>,
    room: usize,
}

/// Whether sessions were changed under one key alone, to what is given.
pub open spec fn changes_one(
    before: ClientSessions<Tls12ClientSessionValue, KeptTicket>,
    after: ClientSessions<Tls12ClientSessionValue, KeptTicket>,
    key: Seq<u8>,
    now: Remembered<Tls12ClientSessionValue, KeptTicket>,
) -> bool {
    &&& after.remembered(key) == now
    &&& forall|k: Seq<u8>| k != key ==> #[trigger] after.remembered(k) == before.remembered(k)
}

/// What a client's sessions are remembered under.
pub open spec fn remembered_under(key: ClientSessionKey<'_>) -> Seq<u8> {
    client_sessions::session_key(key_parts(key).0, vstd::utf8::encode_utf8(key_parts(key).1))
}

/// What a client's sessions are remembered under.
fn plain_key(key: &ClientSessionKey<'_>) -> (r: Vec<u8>)
    ensures
        r@ == remembered_under(*key),
{
    let (config_hash, server_name): ([u8; 32], String) = session_key_parts(key);
    make_session_key(&config_hash, server_name.as_str())
}

/// Whether `r` says that a token was imported: it has 16 bytes, and stands for a
/// session in what the registry holds at the moment. It stands for nothing in what the
/// registry holds then.
pub open spec fn imported(registry: SessionRegistry, token: Seq<u8>, r: Result<(), Error>) -> bool {
    exists|held: Registry<KeptTicket>, left: Registry<KeptTicket>|
        #![trigger registry.may_hold(held), registry.may_hold(left)]
        registry.may_hold(held) && registry.may_hold(left) && session_registry::takes_over(
            held,
            token,
            left,
            r,
        )
}

/// Whether a token was imported into a store: taken from what the registry held at the
/// moment, and handed over to what the store held then.
pub open spec fn imported_into(
    store: QuicheClientSessionStore,
    token: Seq<u8>,
    r: Result<(), Error>,
) -> bool {
    exists|
        taken: Change<Registry<KeptTicket>, KeepsRegistry>,
        given: Change<ClientSessions<Tls12ClientSessionValue, KeptTicket>, KeepsSessions>,
    |
        #![trigger taken.place(), given.place()]
        {
            &&& taken.place() == store.registry().place()
            &&& given.place() == store.place()
            &&& session_registry::takes_over(taken.before(), token, taken.after(), r)
            &&& session_registry::hands_over(
                taken.before(),
                token,
                given.before(),
                given.after(),
                r,
            )
        }
}

/// Whether a ticket was exported: at the time that the clock showed it went to the
/// registry, and the token with its transport parameters waits to be taken. Without the
/// time, or without a token, there is nothing new.
pub open spec fn exported(
    store: QuicheClientSessionStore,
    key: Seq<u8>,
    value: Tls13ClientSessionValue,
) -> bool {
    exists|reading: Reading|
        match #[trigger] reading.seconds() {
            Some(stored_at) => exists|r: Option<Vec<u8>>|
                {
                    &&& #[trigger] registered(
                        *store.registry(),
                        key,
                        KeptTicket { value, stored_at },
                        quic_params(value),
                        r,
                    )
                    &&& r is Some ==> exists|change: Change<Option<Vec<u8>>, HoldsExported>|
                        #[trigger] change.place() == store.exported_place() && change.after() == r
                },
            None => true,
        }
}

/// A ticket is offered exactly when it is the newest, the clock shows a time, it came at
/// most 4294000 seconds before that time, and half of its printed length is no more than
/// the room for it.
pub proof fn law_newest_fitting_ticket_is_offered(
    tickets: Seq<KeptTicket>,
    now: Option<u64>,
    room: nat,
)
    ensures
        offered(tickets, now, room) is Some <==> {
            &&& tickets.len() > 0
            &&& now is Some
            &&& now->0 <= tickets[tickets.len() - 1].stored_at + 4_294_000
            &&& printed_len(tickets[tickets.len() - 1].value) <= 2 * room + 1
        },
        offered(tickets, now, room) is Some ==> offered(tickets, now, room)->0
            == tickets[tickets.len() - 1].value,
{
}

/// What is handed on of some tickets, from the oldest on: the newest, if it may be
/// offered.
pub open spec fn offered(tickets: Seq<KeptTicket>, now: Option<u64>, room: nat) -> Option<
    Tls13ClientSessionValue,
> {
    if tickets.len() > 0 && now is Some && may_offer(
        tickets.last().stored_at,
        now->0,
        printed_len(tickets.last().value),
        room,
    ) {
        Some(tickets.last().value)
    } else {
        None
    }
}

impl QuicheClientSessionStore {
    /// Where exported sessions go.
    pub closed spec fn registry(&self) -> Arc<SessionRegistry> {
        self.registry
    }

    /// Where the sessions are.
    pub closed spec fn place(&self) -> Shared<
        ClientSessions<Tls12ClientSessionValue, KeptTicket>,
        KeepsSessions,
    > {
        *self.sessions
    }

    /// Where the session that was exported last waits.
    pub closed spec fn exported_place(&self) -> Shared<Option<Vec<u8>>, HoldsExported> {
        *self.exported_session
    }

    /// How many bytes a ticket may have that is handed on.
    pub closed spec fn room(&self) -> nat {
        self.room as nat
    }

    /// The same store with room for tickets of other lengths.
    pub closed spec fn limited(self, room: usize) -> QuicheClientSessionStore {
        QuicheClientSessionStore { room, ..self }
    }

    /// The same store has the room that it is given, and no other registry.
    pub proof fn lemma_limited(&self, room: usize)
        ensures
            self.limited(room).room() == room,
            self.limited(room).registry() == self.registry(),
            self.limited(room).place() == self.place(),
            self.limited(room).exported_place() == self.exported_place(),
    {
    }

    /// The same store, which hands tickets of at most `room` bytes on.
    pub fn with_room(&self, room: usize) -> (r: Self)
        ensures
            r == self.limited(room),
            r.room() == room,
            r.registry() == self.registry(),
    {
        QuicheClientSessionStore {
            sessions: Arc::clone(&self.sessions),
            exported_session: Arc::clone(&self.exported_session),
            registry: Arc::clone(&self.registry),
            room,
        }
    }

    /// Whether the store may hold these sessions while no one changes it.
    pub open spec fn may_hold(
        &self,
        held: ClientSessions<Tls12ClientSessionValue, KeptTicket>,
    ) -> bool {
        held.well_formed()
    }

    /// An empty store, whose exported sessions go to `registry`, without room for
    /// tickets yet.
    pub fn new(registry: Arc<SessionRegistry>) -> (r: Self)
        ensures
            r.registry() == registry,
            r.room() == 0,
            r.began_empty(),
    {
        let sessions: ClientSessions<Tls12ClientSessionValue, KeptTicket> = ClientSessions::new();
        let ghost first: ClientSessions<Tls12ClientSessionValue, KeptTicket> = sessions;
        let r: Self = QuicheClientSessionStore {
            sessions: Arc::new(Shared::new(sessions, Ghost(KeepsSessions))),
            exported_session: Arc::new(Shared::new(None, Ghost(HoldsExported))),
            registry,
            room: 0,
        };
        proof {
            assert(r.place().began_with(first));
        }
        r
    }

    /// Whether the store began without sessions, and with none exported.
    pub open spec fn began_empty(&self) -> bool {
        &&& exists|sessions: ClientSessions<Tls12ClientSessionValue, KeptTicket>| #[trigger]
            self.place().began_with(sessions) && forall|key: Seq<u8>| #[trigger]
                sessions.remembered(key) == client_sessions::nothing::<
                    Tls12ClientSessionValue,
                    KeptTicket,
                >()
        &&& self.exported_place().began_with(None)
    }

    /// Moves the ticket that a token stands for from the registry to the store. A
    /// token has 16 bytes, and the registry must know it.
    pub fn import_session(&self, session: &[u8]) -> (r: Result<(), Error>)
        ensures
            imported(*self.registry(), session@, r),
            imported_into(*self, session@, r),
    {
        let (mut registry, registry_vacancy) = self.registry.sessions.take_out();
        proof {
            assert(self.registry().may_hold(registry));
        }
        let (mut sessions, vacancy) = self.sessions.take_out();
        let r: Result<(), Error> = import_ticket(&mut registry, &mut sessions, session);
        proof {
            assert(self.registry().may_hold(registry));
        }
        let given: Ghost<
            Change<ClientSessions<Tls12ClientSessionValue, KeptTicket>, KeepsSessions>,
        > = vacancy.fill(sessions);
        let taken: Ghost<Change<Registry<KeptTicket>, KeepsRegistry>> = registry_vacancy.fill(
            registry,
        );
        proof {
            assert(taken@.place() == self.registry().place());
            assert(given@.place() == self.place());
        }
        r
    }

    /// Takes the session that was exported last, if it was not taken yet.
    pub fn take_exported_session(&self) -> (r: Option<Vec<u8>>)
        ensures
            r matches Some(session) ==> is_exported_session(session@),
            exists|change: Change<Option<Vec<u8>>, HoldsExported>| #[trigger]
                change.place() == self.exported_place() && change.before() == r
                    && change.after() is None,
    {
        let (session, vacancy) = self.exported_session.take_out();
        let change: Ghost<Change<Option<Vec<u8>>, HoldsExported>> = vacancy.fill(None);
        proof {
            assert(change@.place() == self.exported_place());
        }
        session
    }

    /// Exports a ticket with the time. It waits to be taken, in the place of an earlier
    /// one. Without the time it is not kept.
    fn export_tls13_ticket(&self, key: Vec<u8>, value: Tls13ClientSessionValue)
        ensures
            exported(*self, key@, value),
    {
        let (now, reading): (Option<u64>, Ghost<Reading>) = read_clock();
        proof {
            assert(reading@.seconds() == now);
        }
        let stored_at: u64 = match now {
            Some(now) => now,
            None => {
                return;
            },
        };
        let peer_params: Vec<u8> = ticket_params(&value);
        let ghost ticket: Tls13ClientSessionValue = value;
        let registered_session: Option<Vec<u8>> = self.registry.register(
            key,
            KeptTicket { value, stored_at },
            &peer_params,
        );
        proof {
            assert(registered(
                *self.registry(),
                key@,
                KeptTicket { value: ticket, stored_at },
                quic_params(ticket),
                registered_session,
            ));
        }
        match registered_session {
            Some(session) => {
                proof {
                    let token = choose|token: Seq<u8>|
                        token.len() == RUSTLS_SESSION_TOKEN_LEN && session@
                            == session_registry::encoded_session(token, peer_params@);
                    assert(session@ == session_registry::encoded_session(
                        token,
                        quic_params(ticket),
                    ));
                }
                let (_, vacancy) = self.exported_session.take_out();
                let change: Ghost<Change<Option<Vec<u8>>, HoldsExported>> = vacancy.fill(
                    Some(session),
                );
                proof {
                    assert(change@.place() == self.exported_place());
                    assert(change@.after() == registered_session);
                }
            },
            None => {},
        }
    }
}

impl core::fmt::Debug for QuicheClientSessionStore {
    /// Prints the type's name, and nothing of what it holds.
    fn fmt(&self, f: &mut core::fmt::Formatter<'_>) -> (r: core::fmt::Result)
        ensures
            foreign::printed_name("QuicheClientSessionStore"@, r),
    {
        print_name(f, "QuicheClientSessionStore")
    }
}

impl rustls::client::ClientSessionStore for QuicheClientSessionStore {
    /// Remembers the group that a server took, in what the store holds at the moment.
    fn set_kx_hint(&self, key: ClientSessionKey<'static>, group: NamedGroup)
        ensures
            exists|
                change: Change<ClientSessions<Tls12ClientSessionValue, KeptTicket>, KeepsSessions>,
            | #[trigger]
                change.place() == self.place() && changes_one(
                    change.before(),
                    change.after(),
                    remembered_under(key),
                    (Remembered {
                        kx_hint: Some(group_id(group)),
                        ..change.before().remembered(remembered_under(key))
                    }),
                ),
    {
        let key: Vec<u8> = plain_key(&key);
        let (mut sessions, vacancy) = self.sessions.take_out();
        sessions.set_kx_hint(key, group_number(group));
        let change: Ghost<
            Change<ClientSessions<Tls12ClientSessionValue, KeptTicket>, KeepsSessions>,
        > = vacancy.fill(sessions);
        proof {
            assert(change@.place() == self.place());
        }
    }

    /// The group that the store holds for `key` at the moment.
    fn kx_hint(&self, key: &ClientSessionKey<'_>) -> (r: Option<NamedGroup>)
        ensures
            exists|held: ClientSessions<Tls12ClientSessionValue, KeptTicket>|
                #[trigger] self.may_hold(held) && match held.remembered(
                    remembered_under(*key),
                ).kx_hint {
                    Some(number) => r matches Some(group) && group_id(group) == number,
                    None => r is None,
                },
            exists|
                sight: Sight<ClientSessions<Tls12ClientSessionValue, KeptTicket>, KeepsSessions>,
            | #[trigger]
                sight.place() == self.place() && match sight.seen().remembered(
                    remembered_under(*key),
                ).kx_hint {
                    Some(number) => r matches Some(group) && group_id(group) == number,
                    None => r is None,
                },
    {
        let key: Vec<u8> = plain_key(key);
        let look = self.sessions.look();
        let hint: Option<u16> = look.value().kx_hint(&key);
        proof {
            assert(self.may_hold(look.found()));
        }
        let sight: Ghost<
            Sight<ClientSessions<Tls12ClientSessionValue, KeptTicket>, KeepsSessions>,
        > = look.end();
        proof {
            assert(sight@.place() == self.place());
        }
        match hint {
            Some(number) => Some(group_with_number(number)),
            None => None,
        }
    }

    /// Remembers a TLS 1.2 session, in what the store holds at the moment.
    fn set_tls12_session(&self, key: ClientSessionKey<'static>, value: Tls12ClientSessionValue)
        ensures
            exists|
                change: Change<ClientSessions<Tls12ClientSessionValue, KeptTicket>, KeepsSessions>,
            | #[trigger]
                change.place() == self.place() && changes_one(
                    change.before(),
                    change.after(),
                    remembered_under(key),
                    (Remembered {
                        tls12: Some(value),
                        ..change.before().remembered(remembered_under(key))
                    }),
                ),
    {
        let key: Vec<u8> = plain_key(&key);
        let (mut sessions, vacancy) = self.sessions.take_out();
        sessions.set_tls12_session(key, value);
        let change: Ghost<
            Change<ClientSessions<Tls12ClientSessionValue, KeptTicket>, KeepsSessions>,
        > = vacancy.fill(sessions);
        proof {
            assert(change@.place() == self.place());
        }
    }

    /// The TLS 1.2 session that the store holds for `key` at the moment.
    fn tls12_session(&self, key: &ClientSessionKey<'_>) -> (r: Option<Tls12ClientSessionValue>)
        ensures
            exists|held: ClientSessions<Tls12ClientSessionValue, KeptTicket>|
                #[trigger] self.may_hold(held) && r == held.remembered(
                    remembered_under(*key),
                ).tls12,
            exists|
                sight: Sight<ClientSessions<Tls12ClientSessionValue, KeptTicket>, KeepsSessions>,
            | #[trigger]
                sight.place() == self.place() && r == sight.seen().remembered(
                    remembered_under(*key),
                ).tls12,
    {
        let key: Vec<u8> = plain_key(key);
        let look = self.sessions.look();
        let r: Option<Tls12ClientSessionValue> = match look.value().tls12_session(&key) {
            Some(value) => Some(copy_tls12(value)),
            None => None,
        };
        proof {
            assert(self.may_hold(look.found()));
        }
        let sight: Ghost<
            Sight<ClientSessions<Tls12ClientSessionValue, KeptTicket>, KeepsSessions>,
        > = look.end();
        proof {
            assert(sight@.place() == self.place());
        }
        r
    }

    /// Forgets a TLS 1.2 session, in what the store holds at the moment.
    fn remove_tls12_session(&self, key: &ClientSessionKey<'static>)
        ensures
            exists|
                change: Change<ClientSessions<Tls12ClientSessionValue, KeptTicket>, KeepsSessions>,
            | #[trigger]
                change.place() == self.place() && changes_one(
                    change.before(),
                    change.after(),
                    remembered_under(*key),
                    (Remembered {
                        tls12: None,
                        ..change.before().remembered(remembered_under(*key))
                    }),
                ),
    {
        let key: Vec<u8> = plain_key(key);
        let (mut sessions, vacancy) = self.sessions.take_out();
        sessions.remove_tls12_session(&key);
        let change: Ghost<
            Change<ClientSessions<Tls12ClientSessionValue, KeptTicket>, KeepsSessions>,
        > = vacancy.fill(sessions);
        proof {
            assert(change@.place() == self.place());
        }
    }

    /// Exports a ticket.
    fn insert_tls13_ticket(&self, key: ClientSessionKey<'static>, value: Tls13ClientSessionValue)
        ensures
            exported(*self, remembered_under(key), value),
    {
        let key: Vec<u8> = plain_key(&key);
        self.export_tls13_ticket(key, value);
    }

    /// Takes the newest ticket that the store holds for `key` at the moment, and hands it
    /// on if it is not too old and there is room for it.
    fn take_tls13_ticket(&self, key: &ClientSessionKey<'static>) -> (r: Option<
        Tls13ClientSessionValue,
    >)
        ensures
            exists|held: ClientSessions<Tls12ClientSessionValue, KeptTicket>|
                #[trigger] self.may_hold(held) && exists|now: Option<u64>|
                    r == #[trigger] offered(
                        held.remembered(remembered_under(*key)).tls13,
                        now,
                        self.room(),
                    ),
            r matches Some(value) ==> ticket_len(value) <= self.room(),
            exists|
                change: Change<ClientSessions<Tls12ClientSessionValue, KeptTicket>, KeepsSessions>,
                reading: Reading,
            |
                #![trigger change.place(), reading.seconds()]
                {
                    let kept = change.before().remembered(remembered_under(*key));
                    &&& change.place() == self.place()
                    &&& r == offered(kept.tls13, reading.seconds(), self.room())
                    &&& changes_one(
                        change.before(),
                        change.after(),
                        remembered_under(*key),
                        (Remembered {
                            tls13: if kept.tls13.len() > 0 {
                                kept.tls13.drop_last()
                            } else {
                                kept.tls13
                            },
                            ..kept
                        }),
                    )
                },
    {
        let key: Vec<u8> = plain_key(key);
        let (mut sessions, vacancy) = self.sessions.take_out();
        proof {
            assert(self.may_hold(sessions));
        }
        let ghost tickets: Seq<KeptTicket> = sessions.remembered(key@).tls13;
        let taken: Option<KeptTicket> = sessions.take_tls13_ticket(&key);
        let change: Ghost<
            Change<ClientSessions<Tls12ClientSessionValue, KeptTicket>, KeepsSessions>,
        > = vacancy.fill(sessions);
        let (now, reading): (Option<u64>, Ghost<Reading>) = read_clock();
        let r: Option<Tls13ClientSessionValue> = match (taken, now) {
            (Some(ticket), Some(time)) => {
                let printed: usize = print_len(&ticket.value);
                if can_offer_ticket(ticket.stored_at, time, printed, self.room) {
                    Some(ticket.value)
                } else {
                    None
                }
            },
            _ => None,
        };
        proof {
            assert(r == offered(tickets, now, self.room()));
            assert(change@.place() == self.place());
            assert(reading@.seconds() == now);
        }
        r
    }
}

/// What is changed under one key leaves what is remembered under all others.
pub proof fn law_change_concerns_one_server(
    before: ClientSessions<Tls12ClientSessionValue, KeptTicket>,
    after: ClientSessions<Tls12ClientSessionValue, KeptTicket>,
    key: Seq<u8>,
    now: Remembered<Tls12ClientSessionValue, KeptTicket>,
    other: Seq<u8>,
)
    requires
        changes_one(before, after, key, now),
    ensures
        after.remembered(key) == now,
        other != key ==> after.remembered(other) == before.remembered(other),
{
}

/// What a session is remembered under is the hash of the configuration, and the server's
/// name in small letters.
pub proof fn law_sessions_go_by_configuration_and_name(key: ClientSessionKey<'_>)
    ensures
        remembered_under(key) == key_parts(key).0 + text::lowered(
            vstd::utf8::encode_utf8(key_parts(key).1),
        ),
{
}

/// A token that is imported has 16 bytes and stands for a ticket in the registry. It is
/// taken from there, and the ticket becomes the newest of its server in the store. Any
/// other token is refused, and leaves both as they are.
pub proof fn law_import_moves_the_ticket(
    store: QuicheClientSessionStore,
    token: Seq<u8>,
    r: Result<(), Error>,
)
    requires
        imported_into(store, token, r),
    ensures
        exists|
            taken: Change<Registry<KeptTicket>, KeepsRegistry>,
            given: Change<ClientSessions<Tls12ClientSessionValue, KeptTicket>, KeepsSessions>,
        |
            #![trigger taken.place(), given.place()]
            {
                let held = taken.before().session(token);
                &&& taken.place() == store.registry().place()
                &&& given.place() == store.place()
                &&& r is Ok <==> token.len() == 16 && held is Some
                &&& r is Ok ==> {
                    let (key, ticket) = held->0;
                    &&& taken.after().session(token) is None
                    &&& given.after().remembered(key).tls13.len() > 0
                    &&& given.after().remembered(key).tls13.last() == ticket
                }
                &&& r is Err ==> {
                    &&& r->Err_0 == Error::TlsFail
                    &&& taken.after().session(token) == held
                    &&& given.after() == given.before()
                }
            },
{
}

/// A ticket that is exported goes to the registry with the time that the clock shows, and
/// the session that stands for it waits to be taken. Nothing is exported exactly when the
/// clock shows no time or there is no token.
pub proof fn law_exported_ticket_waits(
    store: QuicheClientSessionStore,
    key: Seq<u8>,
    value: Tls13ClientSessionValue,
)
    requires
        exported(store, key, value),
    ensures
        exists|reading: Reading|
            {
                ||| #[trigger] reading.seconds() is None
                ||| exists|draw: Draw| #[trigger] draw.bytes() is None
                ||| exists|
                    kept: Change<Registry<KeptTicket>, KeepsRegistry>,
                    waits: Change<Option<Vec<u8>>, HoldsExported>,
                |
                    #![trigger kept.place(), waits.place()]
                    {
                        let session = waits.after()->0@;
                        &&& kept.place() == store.registry().place()
                        &&& waits.place() == store.exported_place()
                        &&& waits.after() is Some
                        &&& kept.after().session(session.subrange(8, 24)) == Some(
                            (key, KeptTicket { value, stored_at: reading.seconds()->0 }),
                        )
                    }
            },
{
    let reading = choose|reading: Reading|
        match #[trigger] reading.seconds() {
            Some(stored_at) => exists|r: Option<Vec<u8>>|
                {
                    &&& #[trigger] registered(
                        *store.registry(),
                        key,
                        KeptTicket { value, stored_at },
                        quic_params(value),
                        r,
                    )
                    &&& r is Some ==> exists|change: Change<Option<Vec<u8>>, HoldsExported>|
                        #[trigger] change.place() == store.exported_place() && change.after() == r
                },
            None => true,
        };
    if reading.seconds() is Some {
        let kept = KeptTicket { value, stored_at: reading.seconds()->0 };
        let r = choose|r: Option<Vec<u8>>|
            {
                &&& #[trigger] registered(
                    *store.registry(),
                    key,
                    kept,
                    quic_params(value),
                    r,
                )
                &&& r is Some ==> exists|change: Change<Option<Vec<u8>>, HoldsExported>| #[trigger]
                    change.place() == store.exported_place() && change.after() == r
            };
        if r is Some {
            law_registered_ticket_joins_the_others(
                &*store.registry(),
                key,
                kept,
                quic_params(value),
                r,
            );
        } else {
            law_registration_needs_a_token(&*store.registry(), key, kept, quic_params(value), r);
        }
    }
}

/// Room for tickets changes nothing else of a store.
pub proof fn law_room_is_all_that_differs(store: QuicheClientSessionStore, room: usize)
    ensures
        store.limited(room).room() == room,
        store.limited(room).registry() == store.registry(),
        store.limited(room).place() == store.place(),
        store.limited(room).exported_place() == store.exported_place(),
{
}

/// A registry begins without sessions. So does a store, and with none exported.
pub proof fn law_sessions_begin_empty(
    registry: SessionRegistry,
    store: QuicheClientSessionStore,
    token: Seq<u8>,
    key: Seq<u8>,
)
    ensures
        registry.began_empty() ==> exists|beginning: Beginning<Registry<KeptTicket>, KeepsRegistry>|
            #[trigger] beginning.place() == registry.place() && beginning.first().size() == 0
                && beginning.first().session(token) is None,
        store.began_empty() ==> exists|
            beginning: Beginning<
                ClientSessions<Tls12ClientSessionValue, KeptTicket>,
                KeepsSessions,
            >,
        |
            {
                let held = beginning.first().remembered(key);
                &&& #[trigger] beginning.place() == store.place()
                &&& held.kx_hint is None
                &&& held.tls12 is None
                &&& held.tls13.len() == 0
            },
        store.began_empty() ==> exists|beginning: Beginning<Option<Vec<u8>>, HoldsExported>|
            #[trigger] beginning.place() == store.exported_place() && beginning.first() is None,
{
}

} // verus!
