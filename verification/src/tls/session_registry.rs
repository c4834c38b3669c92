//! Exported sessions, which a token stands for.

use crate::bytes;
use crate::bytes::u64_to_octets;
use crate::error::Error;
use crate::tls::client_sessions;
use crate::tls::client_sessions::ClientSessions;
use crate::tls::client_sessions::Remembered;
use crate::tls::text::same_bytes;
use vstd::prelude::*;

verus! {

/// How many bytes a token has.
pub const RUSTLS_SESSION_TOKEN_LEN: usize = 16;

/// How many exported sessions are kept.
pub const MAX_RUSTLS_SESSIONS: usize = 1_024;

/// A session's token and the peer's transport parameters, each with its length in
/// eight bytes before it.
pub open spec fn encoded_session(session: Seq<u8>, peer_params: Seq<u8>) -> Seq<u8> {
    bytes::u64_octets(session.len() as u64) + session + bytes::u64_octets(peer_params.len() as u64)
        + peer_params
}

/// Puts a session's token and the peer's transport parameters into one byte string.
pub fn encode_quiche_session(session: &[u8], peer_params: &[u8]) -> (r: Vec<u8>)
    ensures
        r@ == encoded_session(session@, peer_params@),
{
    let mut buffer: Vec<u8> = Vec::new();
    buffer.extend_from_slice(&u64_to_octets(session.len() as u64));
    buffer.extend_from_slice(session);
    buffer.extend_from_slice(&u64_to_octets(peer_params.len() as u64));
    buffer.extend_from_slice(peer_params);
    proof {
        assert(buffer@ =~= encoded_session(session@, peer_params@));
    }
    buffer
}

/// Two byte strings, each with eight bytes before it, are found by their lengths.
proof fn lemma_parts(first: Seq<u8>, session: Seq<u8>, second: Seq<u8>, params: Seq<u8>)
    requires
        first.len() == 8,
        second.len() == 8,
    ensures
        ({
            let e = first + session + second + params;
            let n = session.len() as int;
            &&& e == first + (session + second + params)
            &&& e.subrange(8, 8 + n) == session
            &&& e.skip(8 + n) == second + params
            &&& e.skip(16 + n) == params
        }),
{
    let e = first + session + second + params;
    let n = session.len() as int;
    assert(e =~= first + (session + second + params));
    assert(e.subrange(8, 8 + n) =~= session);
    assert(e.skip(8 + n) =~= second + params);
    assert(e.skip(16 + n) =~= params);
}

/// Both parts of an encoded session are read back by their lengths.
pub proof fn law_encoded_session_reads_back(session: Seq<u8>, peer_params: Seq<u8>)
    requires
        session.len() <= u64::MAX,
        peer_params.len() <= u64::MAX,
    ensures
        ({
            let e = encoded_session(session, peer_params);
            let n = session.len() as int;
            &&& bytes::u64_value(e) == n
            &&& e.subrange(8, 8 + n) == session
            &&& bytes::u64_value(e.skip(8 + n)) == peer_params.len()
            &&& e.skip(16 + n) == peer_params
        }),
{
    let first = bytes::u64_octets(session.len() as u64);
    let second = bytes::u64_octets(peer_params.len() as u64);
    bytes::law_u64_octets_read_back(session.len() as u64, session + second + peer_params);
    bytes::law_u64_octets_read_back(peer_params.len() as u64, peer_params);
    lemma_parts(first, session, second, peer_params);
}

/// An exported session under its token.
struct RegisteredSession<B> {
    token: [u8; 16],
    key: Vec<u8>,
    value: B,
}

/// Exported sessions by token. `B` is a TLS 1.3 ticket.
pub struct Registry<B> {
    entries: Vec<RegisteredSession<B>>,
}

/// Whether the entry at position `i` has the given token.
spec fn entry_at<B>(entries: Seq<RegisteredSession<B>>, token: Seq<u8>, i: int) -> bool {
    0 <= i < entries.len() && entries[i].token@ == token
}

/// Whether every token is there once at most.
spec fn tokens_differ<B>(entries: Seq<RegisteredSession<B>>) -> bool {
    forall|i: int, j: int|
        #![trigger entries[i], entries[j]]
        0 <= i < j < entries.len() ==> entries[i].token@ != entries[j].token@
}

/// The session that a token stands for.
spec fn entry_of<B>(entries: Seq<RegisteredSession<B>>, token: Seq<u8>) -> Option<(Seq<u8>, B)> {
    if exists|i: int| entry_at(entries, token, i) {
        let e = entries[choose|i: int| entry_at(entries, token, i)];
        Some((e.key@, e.value))
    } else {
        None
    }
}

/// A token stands for the session that its entry holds.
proof fn lemma_entry<B>(entries: Seq<RegisteredSession<B>>, token: Seq<u8>, i: int)
    requires
        tokens_differ(entries),
        entry_at(entries, token, i),
    ensures
        entry_of(entries, token) == Some((entries[i].key@, entries[i].value)),
{
    let j = choose|j: int| entry_at(entries, token, j);
    assert(entry_at(entries, token, j));
    assert(i == j);
}

/// Removing an entry forgets its token, and no other.
proof fn lemma_removed<B>(entries: Seq<RegisteredSession<B>>, i: int)
    requires
        tokens_differ(entries),
        0 <= i < entries.len(),
    ensures
        tokens_differ(entries.remove(i)),
        entry_of(entries.remove(i), entries[i].token@) is None,
        forall|t: Seq<u8>|
            t != entries[i].token@ ==> #[trigger] entry_of(entries.remove(i), t) == entry_of(
                entries,
                t,
            ),
{
    let after = entries.remove(i);
    assert(forall|j: int| 0 <= j < i ==> after[j] == entries[j]);
    assert(forall|j: int| i <= j < after.len() ==> after[j] == entries[j + 1]);
    assert forall|t: Seq<u8>| t != entries[i].token@ implies #[trigger] entry_of(after, t)
        == entry_of(entries, t) by {
        if exists|j: int| entry_at(after, t, j) {
            let j = choose|j: int| entry_at(after, t, j);
            let k = if j < i {
                j
            } else {
                j + 1
            };
            assert(entry_at(entries, t, k));
            lemma_entry(entries, t, k);
            lemma_entry(after, t, j);
        } else if exists|k: int| entry_at(entries, t, k) {
            let k = choose|k: int| entry_at(entries, t, k);
            let j = if k < i {
                k
            } else {
                k - 1
            };
            assert(entry_at(after, t, j));
        }
    }
    assert forall|j: int| !entry_at(after, entries[i].token@, j) by {
        if entry_at(after, entries[i].token@, j) {
            let k = if j < i {
                j
            } else {
                j + 1
            };
            assert(after[j] == entries[k]);
        }
    }
}

/// Adding an entry under a new token adds that token, and no other.
proof fn lemma_pushed<B>(entries: Seq<RegisteredSession<B>>, e: RegisteredSession<B>)
    requires
        tokens_differ(entries),
        entry_of(entries, e.token@) is None,
    ensures
        tokens_differ(entries.push(e)),
        entry_of(entries.push(e), e.token@) == Some((e.key@, e.value)),
        forall|t: Seq<u8>|
            t != e.token@ ==> #[trigger] entry_of(entries.push(e), t) == entry_of(entries, t),
{
    let after = entries.push(e);
    let n = entries.len() as int;
    assert(forall|j: int| 0 <= j < n ==> after[j] == entries[j]);
    assert forall|i: int, j: int| 0 <= i < j < after.len() implies after[i].token@
        != after[j].token@ by {
        if j == n {
            assert(!entry_at(entries, e.token@, i));
        }
    }
    assert(entry_at(after, e.token@, n));
    lemma_entry(after, e.token@, n);
    assert forall|t: Seq<u8>| t != e.token@ implies #[trigger] entry_of(after, t) == entry_of(
        entries,
        t,
    ) by {
        if exists|j: int| entry_at(entries, t, j) {
            let j = choose|j: int| entry_at(entries, t, j);
            assert(entry_at(after, t, j));
            lemma_entry(after, t, j);
            lemma_entry(entries, t, j);
        } else {
            assert forall|j: int| !entry_at(after, t, j) by {
                assert(!entry_at(entries, t, j));
            }
        }
    }
}

impl<B> Registry<B> {
    /// The session that a token stands for: what it is remembered under, and the
    /// ticket.
    pub closed spec fn session(&self, token: Seq<u8>) -> Option<(Seq<u8>, B)> {
        entry_of(self.entries@, token)
    }

    /// How many sessions are kept.
    pub closed spec fn size(&self) -> nat {
        self.entries@.len()
    }

    /// Every token is there once at most, and no more sessions than are kept.
    pub closed spec fn well_formed(&self) -> bool {
        tokens_differ(self.entries@) && self.entries@.len() <= MAX_RUSTLS_SESSIONS
    }

    /// An empty registry.
    pub fn new() -> (r: Self)
        ensures
            r.well_formed(),
            r.size() == 0,
            forall|token: Seq<u8>| #[trigger] r.session(token) is None,
    {
        Registry { entries: Vec::new() }
    }

    /// Where a token's entry is.
    fn position(&self, token: &[u8]) -> (r: Option<usize>)
        ensures
            match r {
                Some(i) => entry_at(self.entries@, token@, i as int),
                None => forall|i: int| !entry_at(self.entries@, token@, i),
            },
    {
        let mut i: usize = 0;
        while i < self.entries.len()
            invariant
                i <= self.entries@.len(),
                forall|j: int| j < i ==> !entry_at(self.entries@, token@, j),
            decreases self.entries@.len() - i,
        {
            if same_bytes(&self.entries[i].token, token) {
                return Some(i);
            }
            i = i + 1;
        }
        None
    }

    /// Takes the session that a token stands for. The token stands for nothing
    /// afterwards.
    pub fn take(&mut self, token: &[u8]) -> (r: Option<(Vec<u8>, B)>)
        requires
            old(self).well_formed(),
        ensures
            final(self).well_formed(),
            match old(self).session(token@) {
                Some((key, value)) => r matches Some((k, v)) && k@ == key && v == value
                    && final(self).size() == old(self).size() - 1,
                None => r is None && final(self).size() == old(self).size(),
            },
            final(self).session(token@) is None,
            forall|t: Seq<u8>|
                t != token@ ==> #[trigger] final(self).session(t) == old(self).session(t),
    {
        match self.position(token) {
            Some(i) => {
                proof {
                    lemma_entry(self.entries@, token@, i as int);
                    lemma_removed(self.entries@, i as int);
                }
                let e: RegisteredSession<B> = self.entries.remove(i);
                Some((e.key, e.value))
            },
            None => None,
        }
    }

    /// Keeps a session under a token. A full registry gives up one of its sessions
    /// first.
    pub fn insert(&mut self, token: [u8; 16], key: Vec<u8>, value: B)
        requires
            old(self).well_formed(),
        ensures
            final(self).well_formed(),
            final(self).session(token@) == Some((key@, value)),
            old(self).size() < MAX_RUSTLS_SESSIONS ==> final(self).size() == old(self).size()
                + if old(self).session(token@) is Some {
                0nat
            } else {
                1nat
            },
            old(self).size() < MAX_RUSTLS_SESSIONS ==> forall|t: Seq<u8>|
                t != token@ ==> #[trigger] final(self).session(t) == old(self).session(t),
            old(self).size() >= MAX_RUSTLS_SESSIONS ==> exists|gone: Seq<u8>|
                old(self).session(gone) is Some && forall|t: Seq<u8>|
                    t != token@ && t != gone ==> #[trigger] final(self).session(t) == old(
                        self,
                    ).session(t),
    {
        let ghost all: Seq<RegisteredSession<B>> = self.entries@;
        let ghost mut gone: Seq<u8> = Seq::empty();
        if self.entries.len() >= MAX_RUSTLS_SESSIONS {
            proof {
                gone = all[0].token@;
                assert(entry_at(all, gone, 0));
                lemma_entry(all, gone, 0);
                lemma_removed(all, 0);
            }
            let _ = self.entries.remove(0);
        }
        let ghost kept: Seq<RegisteredSession<B>> = self.entries@;
        match self.position(&token) {
            Some(i) => {
                proof {
                    lemma_entry(kept, token@, i as int);
                    lemma_removed(kept, i as int);
                }
                let _ = self.entries.remove(i);
            },
            None => {},
        }
        let ghost rest: Seq<RegisteredSession<B>> = self.entries@;
        let e: RegisteredSession<B> = RegisteredSession { token, key, value };
        proof {
            lemma_pushed(rest, e);
        }
        let ghost entry: RegisteredSession<B> = e;
        self.entries.push(e);
        proof {
            let after = self.entries@;
            assert(after == rest.push(entry));
            if all.len() >= MAX_RUSTLS_SESSIONS {
                assert(old(self).session(gone) is Some);
                assert forall|t: Seq<u8>| t != token@ && t != gone implies #[trigger] self.session(
                    t,
                ) == old(self).session(t) by {
                    assert(entry_of(after, t) == entry_of(rest, t));
                    assert(entry_of(rest, t) == entry_of(kept, t));
                    assert(entry_of(kept, t) == entry_of(all, t));
                }
            } else {
                assert forall|t: Seq<u8>| t != token@ implies #[trigger] self.session(t) == old(
                    self,
                ).session(t) by {
                    assert(entry_of(after, t) == entry_of(rest, t));
                    assert(entry_of(rest, t) == entry_of(kept, t));
                }
            }
        }
    }
}

/// Whether keeping a ticket under a token turns one registry into another. The token
/// stands for the ticket then. All other tokens stand for what they stood for, but for
/// one that a full registry gives up.
pub open spec fn registers<B>(
    before: Registry<B>,
    token: Seq<u8>,
    key: Seq<u8>,
    value: B,
    after: Registry<B>,
) -> bool {
    &&& after.session(token) == Some((key, value))
    &&& before.size() < MAX_RUSTLS_SESSIONS ==> after.size() == before.size()
        + if before.session(token) is Some {
        0nat
    } else {
        1nat
    }
    &&& before.size() < MAX_RUSTLS_SESSIONS ==> forall|t: Seq<u8>|
        t != token ==> #[trigger] after.session(t) == before.session(t)
    &&& before.size() >= MAX_RUSTLS_SESSIONS ==> exists|gone: Seq<u8>|
        before.session(gone) is Some && forall|t: Seq<u8>|
            t != token && t != gone ==> #[trigger] after.session(t) == before.session(t)
}

/// An exported ticket is imported by its token, also after another one was exported under
/// another token, if nothing else changed the registry in between and it was not full.
pub proof fn law_exported_tickets_stay<B>(
    first: Registry<B>,
    second: Registry<B>,
    third: Registry<B>,
    fourth: Registry<B>,
    one: Seq<u8>,
    other: Seq<u8>,
    key: Seq<u8>,
    value: B,
    other_key: Seq<u8>,
    other_value: B,
    r: Result<(), Error>,
)
    requires
        one != other,
        one.len() == RUSTLS_SESSION_TOKEN_LEN,
        registers(first, one, key, value, second),
        first.size() < 1_023,
        registers(second, other, other_key, other_value, third),
        takes_over(third, one, fourth, r),
    ensures
        third.session(one) == Some((key, value)),
        third.session(other) == Some((other_key, other_value)),
        r == Ok::<(), Error>(()),
        fourth.session(other) == Some((other_key, other_value)),
{
}

/// While there is room, exporting a ticket changes what its own token stands for, and no
/// other. A full registry gives up one token at most.
pub proof fn law_export_concerns_one_token<B>(
    before: Registry<B>,
    after: Registry<B>,
    token: Seq<u8>,
    key: Seq<u8>,
    value: B,
    a: Seq<u8>,
    b: Seq<u8>,
)
    requires
        registers(before, token, key, value, after),
        a != token,
        b != token,
        a != b,
    ensures
        after.session(token) == Some((key, value)),
        before.size() < 1_024 ==> after.session(a) == before.session(a),
        after.session(a) == before.session(a) || after.session(b) == before.session(b),
{
}

/// How many exported sessions there are at most, and how long their tokens are.
pub proof fn law_registry_limits()
    ensures
        MAX_RUSTLS_SESSIONS == 1_024,
        RUSTLS_SESSION_TOKEN_LEN == 16,
{
}

/// Whether importing a token hands its ticket over to a client's sessions: it is the
/// newest one under its key then, and nothing else is remembered otherwise.
pub open spec fn hands_over<A, B>(
    registry: Registry<B>,
    token: Seq<u8>,
    before: ClientSessions<A, B>,
    after: ClientSessions<A, B>,
    r: Result<(), Error>,
) -> bool {
    match r {
        Ok(_) => {
            let (key, value) = registry.session(token)->0;
            &&& after.remembered(key) == (Remembered {
                tls13: client_sessions::with_ticket(before.remembered(key).tls13, value),
                ..before.remembered(key)
            })
            &&& forall|k: Seq<u8>|
                k != key ==> #[trigger] after.remembered(k) == before.remembered(k)
        },
        Err(_) => after == before,
    }
}

/// A ticket that was imported is the newest one of its server, the older ones stay but
/// for one at most, and other servers keep theirs.
pub proof fn law_imported_ticket_is_newest<A, B>(
    registry: Registry<B>,
    left: Registry<B>,
    token: Seq<u8>,
    before: ClientSessions<A, B>,
    after: ClientSessions<A, B>,
    r: Result<(), Error>,
    other: Seq<u8>,
)
    requires
        takes_over(registry, token, left, r),
        hands_over(registry, token, before, after, r),
        r is Ok,
    ensures
        ({
            let (key, value) = registry.session(token)->0;
            let old_ones = before.remembered(key).tls13;
            let new_ones = after.remembered(key).tls13;
            &&& new_ones.len() > 0
            &&& new_ones.last() == value
            &&& old_ones.len() < 8 ==> new_ones == old_ones.push(value)
            &&& after.remembered(key).kx_hint == before.remembered(key).kx_hint
            &&& after.remembered(key).tls12 == before.remembered(key).tls12
            &&& other != key ==> after.remembered(other) == before.remembered(other)
        }),
{
}

/// Gives a ticket a token, and encodes the token with the peer's transport
/// parameters.
pub fn export_ticket<B>(
    registry: &mut Registry<B>,
    token: [u8; 16],
    key: Vec<u8>,
    value: B,
    peer_params: &[u8],
) -> (r: Vec<u8>)
    requires
        old(registry).well_formed(),
    ensures
        final(registry).well_formed(),
        final(registry).session(token@) == Some((key@, value)),
        old(registry).size() < MAX_RUSTLS_SESSIONS ==> forall|t: Seq<u8>|
            t != token@ ==> #[trigger] final(registry).session(t) == old(registry).session(t),
        old(registry).size() >= MAX_RUSTLS_SESSIONS ==> exists|gone: Seq<u8>|
            old(registry).session(gone) is Some && forall|t: Seq<u8>|
                t != token@ && t != gone ==> #[trigger] final(registry).session(t) == old(
                    registry,
                ).session(t),
        r@ == encoded_session(token@, peer_params@),
        registers(*old(registry), token@, key@, value, *final(registry)),
{
    registry.insert(token, key, value);
    encode_quiche_session(&token, peer_params)
}

/// Whether importing a token turns one registry into another with a result. A token has
/// 16 bytes. It stands for a session before, and for nothing after. Any other token
/// stands for what it stood for.
pub open spec fn takes_over<B>(
    before: Registry<B>,
    token: Seq<u8>,
    after: Registry<B>,
    r: Result<(), Error>,
) -> bool {
    &&& r == if token.len() == RUSTLS_SESSION_TOKEN_LEN && before.session(token) is Some {
        Ok::<(), Error>(())
    } else {
        Err(Error::TlsFail)
    }
    &&& forall|t: Seq<u8>| #[trigger]
        after.session(t) == if t == token && r is Ok {
            None
        } else {
            before.session(t)
        }
}

/// A token can be imported once, whoever imports it: the second import of it fails, if
/// nothing else changes the registry in between. A token that is refused leaves all
/// others as they were.
pub proof fn law_token_is_imported_once<B>(
    first: Registry<B>,
    second: Registry<B>,
    third: Registry<B>,
    token: Seq<u8>,
    other: Seq<u8>,
    r: Result<(), Error>,
    again: Result<(), Error>,
)
    requires
        takes_over(first, token, second, r),
        takes_over(second, token, third, again),
    ensures
        token.len() == RUSTLS_SESSION_TOKEN_LEN && first.session(token) is Some ==> r is Ok,
        again == Err::<(), Error>(Error::TlsFail),
        token.len() != RUSTLS_SESSION_TOKEN_LEN ==> r == Err::<(), Error>(Error::TlsFail)
            && third.session(other) == first.session(other),
        other != token ==> third.session(other) == first.session(other),
{
}

/// Moves the ticket that a token stands for to a client's sessions. A token has 16
/// bytes, and works once.
pub fn import_ticket<A, B>(
    registry: &mut Registry<B>,
    sessions: &mut ClientSessions<A, B>,
    token: &[u8],
) -> (r: Result<(), Error>)
    requires
        old(registry).well_formed(),
        old(sessions).well_formed(),
    ensures
        final(registry).well_formed(),
        final(sessions).well_formed(),
        takes_over(*old(registry), token@, *final(registry), r),
        hands_over(*old(registry), token@, *old(sessions), *final(sessions), r),
        match r {
            Ok(_) => {
                let (key, value) = old(registry).session(token@)->0;
                &&& final(sessions).remembered(key) == (Remembered {
                    tls13: client_sessions::with_ticket(
                        old(sessions).remembered(key).tls13,
                        value,
                    ),
                    ..old(sessions).remembered(key)
                })
                &&& forall|k: Seq<u8>|
                    k != key ==> #[trigger] final(sessions).remembered(k) == old(
                        sessions,
                    ).remembered(k)
            },
            Err(_) => *final(sessions) == *old(sessions),
        },
{
    if token.len() != RUSTLS_SESSION_TOKEN_LEN {
        return Err(Error::TlsFail);
    }
    match registry.take(token) {
        Some((key, value)) => {
            sessions.insert_tls13_ticket(key, value);
            Ok(())
        },
        None => Err(Error::TlsFail),
    }
}

} // verus!
