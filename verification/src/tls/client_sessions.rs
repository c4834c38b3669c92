//! What a client remembers of servers that it may come back to.

use crate::tls::identity::copy_bytes;
use crate::tls::text;
use crate::tls::text::same_bytes;
use std::collections::VecDeque;
use vstd::prelude::*;
use vstd::string::StringSliceAdditionalSpecFns;

verus! {

/// How many TLS 1.3 tickets are kept for one server.
pub const MAX_TLS13_TICKETS_PER_SERVER: usize = 8;

/// What sessions are remembered under: the hash of the client's configuration, and
/// the server's name without regard to case.
pub open spec fn session_key(config_hash: Seq<u8>, server_name: Seq<u8>) -> Seq<u8> {
    config_hash + text::lowered(server_name)
}

/// What sessions are remembered under.
pub fn make_session_key(config_hash: &[u8], server_name: &str) -> (r: Vec<u8>)
    ensures
        r@ == session_key(config_hash@, server_name.spec_bytes()),
{
    let mut key: Vec<u8> = copy_bytes(config_hash);
    let name: Vec<u8> = text::to_lowered(server_name.as_bytes());
    key.extend_from_slice(&name);
    proof {
        assert(key@ =~= session_key(config_hash@, server_name.spec_bytes()));
    }
    key
}

/// Two servers share sessions under one configuration exactly when their names
/// differ at most in case. Configurations with different hashes share none.
pub proof fn law_session_keys_separate(a: Seq<u8>, x: Seq<u8>, b: Seq<u8>, y: Seq<u8>)
    requires
        a.len() == b.len(),
    ensures
        session_key(a, x) == session_key(b, y) <==> a == b && text::same_ignoring_case(x, y),
{
    let p = session_key(a, x);
    let q = session_key(b, y);
    assert(p.take(a.len() as int) =~= a);
    assert(q.take(b.len() as int) =~= b);
    assert(p.skip(a.len() as int) =~= text::lowered(x));
    assert(q.skip(b.len() as int) =~= text::lowered(y));
}

/// What sessions are remembered under starts with the hash of the client's configuration.
/// The server's name follows, in small letters.
pub proof fn law_session_key_layout(config_hash: Seq<u8>, server_name: Seq<u8>)
    ensures
        session_key(config_hash, server_name).take(config_hash.len() as int) == config_hash,
        session_key(config_hash, server_name).skip(config_hash.len() as int) == text::lowered(
            server_name,
        ),
{
    let key = session_key(config_hash, server_name);
    assert(key.take(config_hash.len() as int) =~= config_hash);
    assert(key.skip(config_hash.len() as int) =~= text::lowered(server_name));
}

/// What is remembered of one server: the key exchange group that it took, its TLS
/// 1.2 session, and its TLS 1.3 tickets from the oldest on.
pub struct Remembered<A, B> {
    pub kx_hint: Option<u16>,
    pub tls12: Option<A>,
    pub tls13: Seq<B>,
}

/// Nothing.
pub open spec fn nothing<A, B>() -> Remembered<A, B> {
    Remembered { kx_hint: None, tls12: None, tls13: Seq::empty() }
}

/// The tickets after one more came: when there are too many, the oldest goes.
pub open spec fn with_ticket<B>(tickets: Seq<B>, ticket: B) -> Seq<B> {
    if tickets.len() == MAX_TLS13_TICKETS_PER_SERVER {
        tickets.skip(1).push(ticket)
    } else {
        tickets.push(ticket)
    }
}

/// Up to eight tickets are kept for one server. With eight of them, the oldest goes when
/// one more comes, and the others stay in order.
pub proof fn law_eight_tickets_are_kept<B>(tickets: Seq<B>, ticket: B)
    requires
        tickets.len() <= 8,
    ensures
        tickets.len() < 8 ==> with_ticket(tickets, ticket) == tickets + seq![ticket],
        tickets.len() == 8 ==> with_ticket(tickets, ticket) == tickets.subrange(1, 8) + seq![
            ticket,
        ],
{
    if tickets.len() == 8 {
        assert(with_ticket(tickets, ticket) =~= tickets.subrange(1, 8) + seq![ticket]);
    } else {
        assert(with_ticket(tickets, ticket) =~= tickets + seq![ticket]);
    }
}

/// Nothing is remembered of an unknown server: no group, no session and no ticket.
pub proof fn law_nothing_is_empty<A, B>()
    ensures
        nothing::<A, B>().kx_hint is None,
        nothing::<A, B>().tls12 is None,
        nothing::<A, B>().tls13.len() == 0,
{
}

/// What is remembered of one server, under its key.
struct ClientSessionData<A, B> {
    key: Vec<u8>,
    kx_hint: Option<u16>,
    tls12: Option<A>,
    tls13: VecDeque<B>,
}

impl<A, B> ClientSessionData<A, B> {
    spec fn remembered(self) -> Remembered<A, B> {
        Remembered { kx_hint: self.kx_hint, tls12: self.tls12, tls13: self.tls13@ }
    }
}

/// What a client remembers of servers. `A` is a TLS 1.2 session, `B` a TLS 1.3
/// ticket.
pub struct ClientSessions<A, B> {
    entries: Vec<ClientSessionData<A, B>>,
}

/// Whether the entry at position `i` is the one for `key`.
spec fn entry_at<A, B>(entries: Seq<ClientSessionData<A, B>>, key: Seq<u8>, i: int) -> bool {
    0 <= i < entries.len() && entries[i].key@ == key
}

/// Whether there is at most one entry for each key.
spec fn entries_differ<A, B>(entries: Seq<ClientSessionData<A, B>>) -> bool {
    forall|i: int, j: int|
        #![trigger entries[i], entries[j]]
        0 <= i < j < entries.len() ==> entries[i].key@ != entries[j].key@
}

/// What the entries say of `key`.
spec fn entries_say<A, B>(entries: Seq<ClientSessionData<A, B>>, key: Seq<u8>) -> Remembered<
    A,
    B,
> {
    if exists|i: int| entry_at(entries, key, i) {
        entries[choose|i: int| entry_at(entries, key, i)].remembered()
    } else {
        nothing()
    }
}

/// What the entries say of a key is what its entry says.
proof fn lemma_entry_says<A, B>(entries: Seq<ClientSessionData<A, B>>, key: Seq<u8>, i: int)
    requires
        entries_differ(entries),
        entry_at(entries, key, i),
    ensures
        entries_say(entries, key) == entries[i].remembered(),
{
    let j = choose|j: int| entry_at(entries, key, j);
    assert(entry_at(entries, key, j));
    assert(i == j);
}

/// Changing one entry changes what is said of its key, and of no other.
proof fn lemma_entry_changed<A, B>(
    before: Seq<ClientSessionData<A, B>>,
    after: Seq<ClientSessionData<A, B>>,
    i: int,
)
    requires
        entries_differ(before),
        0 <= i < before.len(),
        after.len() == before.len(),
        after[i].key@ == before[i].key@,
        forall|j: int| 0 <= j < before.len() && j != i ==> after[j] == before[j],
    ensures
        entries_differ(after),
        entries_say(after, after[i].key@) == after[i].remembered(),
        forall|key: Seq<u8>|
            key != after[i].key@ ==> entries_say(after, key) == entries_say(before, key),
{
    assert forall|j: int, k: int| 0 <= j < k < after.len() implies after[j].key@
        != after[k].key@ by {
        assert(before[j].key@ != before[k].key@);
    }
    assert(entry_at(after, after[i].key@, i));
    lemma_entry_says(after, after[i].key@, i);
    assert forall|key: Seq<u8>| key != after[i].key@ implies entries_say(after, key)
        == entries_say(before, key) by {
        if exists|j: int| entry_at(before, key, j) {
            let j = choose|j: int| entry_at(before, key, j);
            assert(entry_at(after, key, j));
            lemma_entry_says(after, key, j);
            lemma_entry_says(before, key, j);
        } else {
            assert forall|j: int| !entry_at(after, key, j) by {
                assert(!entry_at(before, key, j));
            }
        }
    }
}

impl<A, B> ClientSessions<A, B> {
    /// What is remembered under `key`.
    pub closed spec fn remembered(&self, key: Seq<u8>) -> Remembered<A, B> {
        entries_say(self.entries@, key)
    }

    /// There is one entry for each key, with no more tickets than are kept.
    pub closed spec fn well_formed(&self) -> bool {
        entries_differ(self.entries@) && forall|i: int|
            0 <= i < self.entries@.len() ==> (#[trigger] self.entries@[i]).tls13@.len()
                <= MAX_TLS13_TICKETS_PER_SERVER
    }

    /// Remembers nothing.
    pub fn new() -> (r: Self)
        ensures
            r.well_formed(),
            forall|key: Seq<u8>| #[trigger] r.remembered(key) == nothing::<A, B>(),
    {
        ClientSessions { entries: Vec::new() }
    }

    /// Where the entry for `key` is.
    fn position(&self, key: &[u8]) -> (r: Option<usize>)
        ensures
            match r {
                Some(i) => entry_at(self.entries@, key@, i as int),
                None => forall|i: int| !entry_at(self.entries@, key@, i),
            },
    {
        let mut i: usize = 0;
        while i < self.entries.len()
            invariant
                i <= self.entries@.len(),
                forall|j: int| j < i ==> !entry_at(self.entries@, key@, j),
            decreases self.entries@.len() - i,
        {
            if same_bytes(&self.entries[i].key, key) {
                return Some(i);
            }
            i = i + 1;
        }
        None
    }

    /// The place of the entry for `key`, which is made if there is none.
    fn entry(&mut self, key: Vec<u8>) -> (r: usize)
        requires
            old(self).well_formed(),
        ensures
            final(self).well_formed(),
            entry_at(final(self).entries@, key@, r as int),
            final(self).entries@[r as int].remembered() == old(self).remembered(key@),
            forall|k: Seq<u8>| #[trigger]
                entries_say(final(self).entries@, k) == old(self).remembered(k),
    {
        match self.position(&key) {
            Some(i) => {
                proof {
                    lemma_entry_says(self.entries@, key@, i as int);
                }
                i
            },
            None => {
                let ghost before: Seq<ClientSessionData<A, B>> = self.entries@;
                let ghost name: Seq<u8> = key@;
                let i: usize = self.entries.len();
                self.entries.push(
                    ClientSessionData { key, kx_hint: None, tls12: None, tls13: VecDeque::new() },
                );
                proof {
                    let after = self.entries@;
                    assert(forall|j: int| 0 <= j < before.len() ==> after[j] == before[j]);
                    assert forall|j: int, k: int| 0 <= j < k < after.len() implies after[j].key@
                        != after[k].key@ by {
                        if k == before.len() {
                            assert(!entry_at(before, name, j));
                        }
                    }
                    assert(entry_at(after, name, i as int));
                    lemma_entry_says(after, name, i as int);
                    assert(after[i as int].remembered() =~= nothing());
                    assert forall|k: Seq<u8>| #[trigger]
                        entries_say(after, k) == old(self).remembered(k) by {
                        if k != name {
                            if exists|j: int| entry_at(before, k, j) {
                                let j = choose|j: int| entry_at(before, k, j);
                                assert(entry_at(after, k, j));
                                lemma_entry_says(after, k, j);
                                lemma_entry_says(before, k, j);
                            } else {
                                assert forall|j: int| !entry_at(after, k, j) by {
                                    assert(!entry_at(before, k, j));
                                }
                            }
                        }
                    }
                }
                i
            },
        }
    }

    /// Remembers the key exchange group that a server took.
    pub fn set_kx_hint(&mut self, key: Vec<u8>, group: u16)
        requires
            old(self).well_formed(),
        ensures
            final(self).well_formed(),
            final(self).remembered(key@) == (Remembered {
                kx_hint: Some(group),
                ..old(self).remembered(key@)
            }),
            forall|k: Seq<u8>|
                k != key@ ==> #[trigger] final(self).remembered(k) == old(self).remembered(k),
    {
        let i: usize = self.entry(key);
        let ghost before: Seq<ClientSessionData<A, B>> = self.entries@;
        self.entries[i].kx_hint = Some(group);
        proof {
            lemma_entry_changed(before, self.entries@, i as int);
        }
    }

    /// The key exchange group that a server took.
    pub fn kx_hint(&self, key: &[u8]) -> (r: Option<u16>)
        requires
            self.well_formed(),
        ensures
            r == self.remembered(key@).kx_hint,
    {
        match self.position(key) {
            Some(i) => {
                proof {
                    lemma_entry_says(self.entries@, key@, i as int);
                }
                self.entries[i].kx_hint
            },
            None => None,
        }
    }

    /// Remembers a server's TLS 1.2 session.
    pub fn set_tls12_session(&mut self, key: Vec<u8>, value: A)
        requires
            old(self).well_formed(),
        ensures
            final(self).well_formed(),
            final(self).remembered(key@) == (Remembered {
                tls12: Some(value),
                ..old(self).remembered(key@)
            }),
            forall|k: Seq<u8>|
                k != key@ ==> #[trigger] final(self).remembered(k) == old(self).remembered(k),
    {
        let i: usize = self.entry(key);
        let ghost before: Seq<ClientSessionData<A, B>> = self.entries@;
        self.entries[i].tls12 = Some(value);
        proof {
            lemma_entry_changed(before, self.entries@, i as int);
        }
    }

    /// A server's TLS 1.2 session.
    pub fn tls12_session(&self, key: &[u8]) -> (r: Option<&A>)
        requires
            self.well_formed(),
        ensures
            match self.remembered(key@).tls12 {
                Some(value) => r == Some(&value),
                None => r is None,
            },
    {
        match self.position(key) {
            Some(i) => {
                proof {
                    lemma_entry_says(self.entries@, key@, i as int);
                }
                match &self.entries[i].tls12 {
                    Some(value) => Some(value),
                    None => None,
                }
            },
            None => None,
        }
    }

    /// Forgets a server's TLS 1.2 session.
    pub fn remove_tls12_session(&mut self, key: &[u8])
        requires
            old(self).well_formed(),
        ensures
            final(self).well_formed(),
            final(self).remembered(key@) == (Remembered {
                tls12: None,
                ..old(self).remembered(key@)
            }),
            forall|k: Seq<u8>|
                k != key@ ==> #[trigger] final(self).remembered(k) == old(self).remembered(k),
    {
        match self.position(key) {
            Some(i) => {
                let ghost before: Seq<ClientSessionData<A, B>> = self.entries@;
                proof {
                    lemma_entry_says(before, key@, i as int);
                }
                self.entries[i].tls12 = None;
                proof {
                    lemma_entry_changed(before, self.entries@, i as int);
                }
            },
            None => {},
        }
    }

    /// Keeps a TLS 1.3 ticket of a server. When there are too many, the server's
    /// oldest goes.
    pub fn insert_tls13_ticket(&mut self, key: Vec<u8>, value: B)
        requires
            old(self).well_formed(),
        ensures
            final(self).well_formed(),
            final(self).remembered(key@) == (Remembered {
                tls13: with_ticket(old(self).remembered(key@).tls13, value),
                ..old(self).remembered(key@)
            }),
            forall|k: Seq<u8>|
                k != key@ ==> #[trigger] final(self).remembered(k) == old(self).remembered(k),
    {
        let i: usize = self.entry(key);
        let ghost before: Seq<ClientSessionData<A, B>> = self.entries@;
        if self.entries[i].tls13.len() == MAX_TLS13_TICKETS_PER_SERVER {
            let _ = self.entries[i].tls13.pop_front();
        }
        self.entries[i].tls13.push_back(value);
        proof {
            let tickets = before[i as int].tls13@;
            assert(self.entries@[i as int].tls13@ =~= with_ticket(tickets, value));
            lemma_entry_changed(before, self.entries@, i as int);
        }
    }

    /// Takes the newest TLS 1.3 ticket of a server.
    pub fn take_tls13_ticket(&mut self, key: &[u8]) -> (r: Option<B>)
        requires
            old(self).well_formed(),
        ensures
            final(self).well_formed(),
            ({
                let tickets = old(self).remembered(key@).tls13;
                if tickets.len() == 0 {
                    r is None && final(self).remembered(key@) == old(self).remembered(key@)
                } else {
                    r == Some(tickets.last()) && final(self).remembered(key@) == (Remembered {
                        tls13: tickets.drop_last(),
                        ..old(self).remembered(key@)
                    })
                }
            }),
            forall|k: Seq<u8>|
                k != key@ ==> #[trigger] final(self).remembered(k) == old(self).remembered(k),
    {
        match self.position(key) {
            Some(i) => {
                let ghost before: Seq<ClientSessionData<A, B>> = self.entries@;
                proof {
                    lemma_entry_says(before, key@, i as int);
                }
                let r: Option<B> = self.entries[i].tls13.pop_back();
                proof {
                    let tickets = before[i as int].tls13@;
                    if tickets.len() > 0 {
                        assert(self.entries@[i as int].tls13@ =~= tickets.drop_last());
                    }
                    lemma_entry_changed(before, self.entries@, i as int);
                }
                r
            },
            None => None,
        }
    }
}

/// The ticket that was kept last is taken first, and taking it leaves the tickets
/// as they were, but for the oldest if there were too many.
pub proof fn law_newest_ticket_is_taken_first<B>(tickets: Seq<B>, ticket: B)
    requires
        tickets.len() <= MAX_TLS13_TICKETS_PER_SERVER,
    ensures
        with_ticket(tickets, ticket).last() == ticket,
        with_ticket(tickets, ticket).len() <= MAX_TLS13_TICKETS_PER_SERVER,
        tickets.len() < MAX_TLS13_TICKETS_PER_SERVER ==> with_ticket(tickets, ticket).drop_last()
            == tickets,
        tickets.len() == MAX_TLS13_TICKETS_PER_SERVER ==> with_ticket(tickets, ticket).drop_last()
            == tickets.skip(1),
{
    let after = with_ticket(tickets, ticket);
    if tickets.len() == MAX_TLS13_TICKETS_PER_SERVER {
        assert(after.drop_last() =~= tickets.skip(1));
    } else {
        assert(after.drop_last() =~= tickets);
    }
}

/// No server has more tickets than are kept.
pub proof fn law_tickets_are_bounded<A, B>(sessions: ClientSessions<A, B>, key: Seq<u8>)
    requires
        sessions.well_formed(),
    ensures
        sessions.remembered(key).tls13.len() <= MAX_TLS13_TICKETS_PER_SERVER,
{
    if exists|i: int| entry_at(sessions.entries@, key, i) {
        let i = choose|i: int| entry_at(sessions.entries@, key, i);
        assert(entry_at(sessions.entries@, key, i));
        lemma_entry_says(sessions.entries@, key, i);
    }
}

} // verus!
