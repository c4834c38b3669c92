//! The sessions that a server keeps for clients that come back.

use crate::shared::Beginning;
use crate::shared::Change;
use crate::shared::Shared;
use crate::shared::Sight;
use crate::tls::foreign;
use crate::tls::foreign::print_capacity;
use crate::tls::identity::copy_bytes;
use crate::tls::text::same_bytes;
use std::collections::VecDeque;
use vstd::prelude::*;
use vstd::rwlock::RwLockPredicate;

verus! {

/// Sessions in the order in which they were stored, each a key and a value.
pub type SessionList = Seq<(Seq<u8>, Seq<u8>)>;

/// Whether a session is stored under `key` at position `i`.
pub open spec fn stored_at(list: SessionList, key: Seq<u8>, i: int) -> bool {
    0 <= i < list.len() && list[i].0 == key
}

/// Whether no key is stored twice.
pub open spec fn keys_differ(list: SessionList) -> bool {
    forall|i: int, j: int| 0 <= i < j < list.len() ==> list[i].0 != list[j].0
}

/// The value stored under `key`.
pub open spec fn value_of(list: SessionList, key: Seq<u8>) -> Option<Seq<u8>> {
    if exists|i: int| stored_at(list, key, i) {
        Some(list[choose|i: int| stored_at(list, key, i)].1)
    } else {
        None
    }
}

/// The sessions without the one stored under `key`.
pub open spec fn removed(list: SessionList, key: Seq<u8>) -> SessionList {
    list.filter(|entry: (Seq<u8>, Seq<u8>)| entry.0 != key)
}

/// The sessions after one more was stored: an older one under the same key goes,
/// then the oldest if the store is full.
pub open spec fn inserted(
    list: SessionList,
    capacity: nat,
    key: Seq<u8>,
    value: Seq<u8>,
) -> SessionList {
    let rest = removed(list, key);
    let kept = if rest.len() == capacity && rest.len() > 0 {
        rest.skip(1)
    } else {
        rest
    };
    kept.push((key, value))
}

/// A store of sessions.
pub struct ServerSessions {
    entries: VecDeque<(Vec<u8>, Vec<u8>)>,
    capacity: usize,
}

impl View for ServerSessions {
    type V = SessionList;

    closed spec fn view(&self) -> SessionList {
        self.entries@.map_values(|entry: (Vec<u8>, Vec<u8>)| (entry.0@, entry.1@))
    }
}

/// Taking one entry out of a list without repeated keys leaves the others.
proof fn lemma_remove_is_filter(list: SessionList, i: int)
    requires
        keys_differ(list),
        0 <= i < list.len(),
    ensures
        list.remove(i) == removed(list, list[i].0),
    decreases list.len(),
{
    let key = list[i].0;
    let keep = |entry: (Seq<u8>, Seq<u8>)| entry.0 != key;
    let front = list.drop_last();
    reveal(Seq::filter);
    assert(keys_differ(front));
    if i == list.len() - 1 {
        lemma_absent_is_kept(front, key);
        assert(list.remove(i) =~= front);
    } else {
        assert(front[i] == list[i]);
        lemma_remove_is_filter(front, i);
        assert(list.remove(i) =~= front.remove(i).push(list.last()));
    }
}

/// A list is not changed by removing a key that it does not hold.
proof fn lemma_absent_is_kept(list: SessionList, key: Seq<u8>)
    requires
        forall|i: int| !stored_at(list, key, i),
    ensures
        removed(list, key) == list,
    decreases list.len(),
{
    reveal(Seq::filter);
    if list.len() > 0 {
        let front = list.drop_last();
        assert forall|i: int| !stored_at(front, key, i) by {
            assert(!stored_at(list, key, i));
        }
        lemma_absent_is_kept(front, key);
        assert(!stored_at(list, key, list.len() - 1));
        assert(list =~= front.push(list.last()));
    } else {
        assert(removed(list, key) =~= list);
    }
}

/// What is found under a key is what stands there, since no key is stored twice.
proof fn lemma_value_at(list: SessionList, key: Seq<u8>, i: int)
    requires
        keys_differ(list),
        stored_at(list, key, i),
    ensures
        value_of(list, key) == Some(list[i].1),
{
    let j = choose|j: int| stored_at(list, key, j);
    assert(stored_at(list, key, j));
    assert(i == j);
}

/// Removing a key keeps the order and the differing of the other keys.
proof fn lemma_removed(list: SessionList, key: Seq<u8>)
    requires
        keys_differ(list),
    ensures
        keys_differ(removed(list, key)),
        removed(list, key).len() <= list.len(),
        forall|i: int| !stored_at(removed(list, key), key, i),
        forall|other: Seq<u8>|
            other != key ==> value_of(removed(list, key), other) == value_of(list, other),
{
    let after = removed(list, key);
    if exists|i: int| stored_at(list, key, i) {
        let i = choose|i: int| stored_at(list, key, i);
        lemma_remove_is_filter(list, i);
        assert(after == list.remove(i));
        assert forall|j: int| !stored_at(after, key, j) by {
            if stored_at(after, key, j) {
                let k = if j < i {
                    j
                } else {
                    j + 1
                };
                assert(list[k] == after[j]);
            }
        }
        assert forall|other: Seq<u8>| other != key implies value_of(after, other) == value_of(
            list,
            other,
        ) by {
            if exists|j: int| stored_at(after, other, j) {
                let j = choose|j: int| stored_at(after, other, j);
                let k = if j < i {
                    j
                } else {
                    j + 1
                };
                assert(list[k] == after[j]);
                assert(stored_at(list, other, k));
                lemma_value_at(list, other, k);
                lemma_value_at(after, other, j);
            } else if exists|k: int| stored_at(list, other, k) {
                let k = choose|k: int| stored_at(list, other, k);
                let j = if k < i {
                    k
                } else {
                    k - 1
                };
                assert(after[j] == list[k]);
                assert(stored_at(after, other, j));
            }
        }
    } else {
        lemma_absent_is_kept(list, key);
    }
}

/// What was stored is found, and is the newest. No key is stored twice, and a
/// store that may hold anything holds no more than its capacity.
pub proof fn law_stored_session_is_found(
    list: SessionList,
    capacity: nat,
    key: Seq<u8>,
    value: Seq<u8>,
)
    requires
        keys_differ(list),
        list.len() <= capacity,
    ensures
        value_of(inserted(list, capacity, key, value), key) == Some(value),
        inserted(list, capacity, key, value).last() == (key, value),
        keys_differ(inserted(list, capacity, key, value)),
        capacity > 0 ==> inserted(list, capacity, key, value).len() <= capacity,
{
    lemma_removed(list, key);
    let rest = removed(list, key);
    let after = inserted(list, capacity, key, value);
    let n = after.len() - 1;
    assert forall|i: int, j: int| 0 <= i < j < after.len() implies after[i].0 != after[j].0 by {
        if j == n {
            if after[i].0 == key {
                let k = if rest.len() == capacity && rest.len() > 0 {
                    i + 1
                } else {
                    i
                };
                assert(rest[k] == after[i]);
                assert(stored_at(rest, key, k));
            }
        }
    }
    assert(stored_at(after, key, n));
    lemma_value_at(after, key, n);
}

/// While there is room, storing one session leaves the others where they are.
pub proof fn law_other_sessions_stay(
    list: SessionList,
    capacity: nat,
    key: Seq<u8>,
    value: Seq<u8>,
    other: Seq<u8>,
)
    requires
        keys_differ(list),
        list.len() < capacity,
        other != key,
    ensures
        value_of(inserted(list, capacity, key, value), other) == value_of(list, other),
{
    lemma_removed(list, key);
    law_stored_session_is_found(list, capacity, key, value);
    let rest = removed(list, key);
    let after = inserted(list, capacity, key, value);
    if exists|i: int| stored_at(rest, other, i) {
        let i = choose|i: int| stored_at(rest, other, i);
        assert(after[i] == rest[i]);
        assert(stored_at(after, other, i));
        lemma_value_at(after, other, i);
        lemma_value_at(rest, other, i);
    } else {
        assert forall|i: int| !stored_at(after, other, i) by {
            if stored_at(after, other, i) {
                assert(after[i] == rest[i]);
                assert(stored_at(rest, other, i));
            }
        }
    }
}

/// A full store gives up its oldest session, and no other, for one under a new
/// key.
pub proof fn law_oldest_session_goes(
    list: SessionList,
    capacity: nat,
    key: Seq<u8>,
    value: Seq<u8>,
)
    requires
        list.len() == capacity,
        capacity > 0,
        forall|i: int| !stored_at(list, key, i),
    ensures
        inserted(list, capacity, key, value) == list.skip(1).push((key, value)),
{
    lemma_absent_is_kept(list, key);
}

/// A session that was taken is gone.
pub proof fn law_taken_session_is_gone(list: SessionList, key: Seq<u8>)
    requires
        keys_differ(list),
    ensures
        value_of(removed(list, key), key) is None,
{
    lemma_removed(list, key);
}

/// What is left after a key was removed are the sessions under other keys.
proof fn lemma_removed_holds(list: SessionList, key: Seq<u8>, entry: (Seq<u8>, Seq<u8>))
    ensures
        removed(list, key).contains(entry) == (list.contains(entry) && entry.0 != key),
    decreases list.len(),
{
    reveal(Seq::filter);
    if list.len() > 0 {
        let front = list.drop_last();
        let kept = removed(front, key);
        let after = removed(list, key);
        lemma_removed_holds(front, key, entry);
        assert(list =~= front.push(list.last()));
        if list.contains(entry) {
            let i = choose|i: int| 0 <= i < list.len() && list[i] == entry;
            if i < front.len() {
                assert(front[i] == entry);
            }
        }
        if front.contains(entry) {
            let i = choose|i: int| 0 <= i < front.len() && front[i] == entry;
            assert(list[i] == entry);
        }
        assert(list[list.len() - 1] == list.last());
        if list.last().0 != key {
            assert(after == kept.push(list.last()));
            if kept.contains(entry) {
                let i = choose|i: int| 0 <= i < kept.len() && kept[i] == entry;
                assert(after[i] == entry);
            }
            assert(after[kept.len() as int] == list.last());
            if after.contains(entry) && entry != list.last() {
                let i = choose|i: int| 0 <= i < after.len() && after[i] == entry;
                assert(kept[i] == entry);
            }
        } else {
            assert(after == kept);
        }
    }
}

/// Storing a session adds it and takes nothing else in. What it replaces is a session
/// under the same key. All sessions under other keys stay, unless the store is full of
/// them. The sessions that stay keep their values.
pub proof fn law_put_adds_one_session(
    list: SessionList,
    capacity: nat,
    key: Seq<u8>,
    value: Seq<u8>,
    entry: (Seq<u8>, Seq<u8>),
)
    requires
        keys_differ(list),
    ensures
        ({
            let after = inserted(list, capacity, key, value);
            &&& after.contains((key, value))
            &&& after.contains(entry) ==> entry == (key, value) || (list.contains(entry) && entry.0
                != key)
            &&& list.len() < capacity && list.contains(entry) && entry.0 != key ==> after.contains(
                entry,
            )
            &&& list.len() <= capacity && list.contains(entry) && entry.0 != key && (exists|i: int|
                0 <= i < list.len() && (#[trigger] list[i]).0 == key) ==> after.contains(entry)
        }),
{
    let rest = removed(list, key);
    let after = inserted(list, capacity, key, value);
    lemma_removed(list, key);
    lemma_removed_holds(list, key, entry);
    assert(after[after.len() - 1] == (key, value));
    let skipped = rest.len() == capacity && rest.len() > 0;
    if after.contains(entry) && entry != (key, value) {
        let i = choose|i: int| 0 <= i < after.len() && after[i] == entry;
        let k = if skipped {
            i + 1
        } else {
            i
        };
        assert(rest[k] == entry);
    }
    if exists|i: int| 0 <= i < list.len() && (#[trigger] list[i]).0 == key {
        let i = choose|i: int| 0 <= i < list.len() && (#[trigger] list[i]).0 == key;
        lemma_remove_is_filter(list, i);
        assert(rest.len() == list.len() - 1);
    }
    if !skipped && rest.contains(entry) {
        let i = choose|i: int| 0 <= i < rest.len() && rest[i] == entry;
        assert(after[i] == entry);
    }
}

/// Taking a session out leaves exactly the sessions under other keys.
pub proof fn law_take_removes_one_session(
    list: SessionList,
    key: Seq<u8>,
    entry: (Seq<u8>, Seq<u8>),
)
    ensures
        removed(list, key).contains(entry) == (list.contains(entry) && entry.0 != key),
{
    lemma_removed_holds(list, key, entry);
}

/// What is found under a key is what a session under that key holds, and nothing is found
/// exactly when there is none.
pub proof fn law_found_session_is_stored(list: SessionList, key: Seq<u8>, value: Seq<u8>)
    requires
        keys_differ(list),
    ensures
        list.contains((key, value)) <==> value_of(list, key) == Some(value),
        value_of(list, key) is None <==> forall|i: int|
            0 <= i < list.len() ==> (#[trigger] list[i]).0 != key,
{
    if list.contains((key, value)) {
        let i = choose|i: int| 0 <= i < list.len() && list[i] == (key, value);
        assert(stored_at(list, key, i));
        lemma_value_at(list, key, i);
    }
    if exists|i: int| stored_at(list, key, i) {
        let i = choose|i: int| stored_at(list, key, i);
        lemma_value_at(list, key, i);
        assert(list[i] == (key, list[i].1));
    } else {
        assert forall|i: int| 0 <= i < list.len() implies (#[trigger] list[i]).0 != key by {
            assert(!stored_at(list, key, i));
        }
    }
}

/// A session that was stored is found after another one was stored under another key, if
/// nothing else changed the store in between and it was not full.
pub proof fn law_sessions_of_two_clients_stay(
    capacity: nat,
    first: Change<ServerSessions, KeepsSessions>,
    second: Change<ServerSessions, KeepsSessions>,
    one: (Seq<u8>, Seq<u8>),
    other: (Seq<u8>, Seq<u8>),
)
    requires
        first.before().well_formed(),
        first.after().well_formed(),
        first.after()@.len() < capacity,
        first.before()@.len() < capacity,
        one.0 != other.0,
        first.after()@ == inserted(first.before()@, capacity, one.0, one.1),
        second.before() == first.after(),
        second.after()@ == inserted(second.before()@, capacity, other.0, other.1),
    ensures
        value_of(second.after()@, one.0) == Some(one.1),
        value_of(second.after()@, other.0) == Some(other.1),
{
    law_stored_session_is_found(first.before()@, capacity, one.0, one.1);
    law_other_sessions_stay(second.before()@, capacity, other.0, other.1, one.0);
    law_stored_session_is_found(second.before()@, capacity, other.0, other.1);
}

impl ServerSessions {
    /// How many sessions the store holds at most, if that is not zero.
    pub closed spec fn capacity(&self) -> nat {
        self.capacity as nat
    }

    /// No key is stored twice, and there is room for what is stored.
    pub open spec fn well_formed(&self) -> bool {
        keys_differ(self@) && (self.capacity() > 0 ==> self@.len() <= self.capacity())
    }

    /// An empty store.
    pub fn new(capacity: usize) -> (r: Self)
        ensures
            r@ == SessionList::empty(),
            r.capacity() == capacity,
            r.well_formed(),
    {
        let r = ServerSessions { entries: VecDeque::new(), capacity };
        proof {
            assert(r@ =~= SessionList::empty());
        }
        r
    }

    /// Where a session is stored under `key`.
    fn position(&self, key: &[u8]) -> (r: Option<usize>)
        ensures
            match r {
                Some(i) => stored_at(self@, key@, i as int),
                None => forall|i: int| !stored_at(self@, key@, i),
            },
    {
        let mut i: usize = 0;
        while i < self.entries.len()
            invariant
                i <= self.entries@.len(),
                forall|j: int| j < i ==> !stored_at(self@, key@, j),
            decreases self.entries@.len() - i,
        {
            proof {
                assert(self@[i as int].0 == self.entries@[i as int].0@);
            }
            if same_bytes(&self.entries[i].0, key) {
                return Some(i);
            }
            i = i + 1;
        }
        None
    }

    /// Stores a session: an older one under the same key goes, then the oldest if
    /// the store is full.
    pub fn put(&mut self, key: Vec<u8>, value: Vec<u8>)
        requires
            old(self).well_formed(),
        ensures
            final(self)@ == inserted(old(self)@, old(self).capacity(), key@, value@),
            final(self).capacity() == old(self).capacity(),
            final(self).well_formed(),
    {
        let ghost list: SessionList = self@;
        proof {
            lemma_removed(list, key@);
        }
        match self.position(&key) {
            Some(i) => {
                proof {
                    lemma_remove_is_filter(list, i as int);
                }
                let _ = self.entries.remove(i);
                proof {
                    assert(self@ =~= list.remove(i as int));
                }
            },
            None => {
                proof {
                    lemma_absent_is_kept(list, key@);
                }
            },
        }
        let ghost rest: SessionList = self@;
        if self.entries.len() == self.capacity {
            let _ = self.entries.pop_front();
            proof {
                if rest.len() > 0 {
                    assert(self@ =~= rest.skip(1));
                } else {
                    assert(self@ =~= rest);
                }
            }
        }
        let ghost kept: SessionList = self@;
        proof {
            assert forall|i: int| !stored_at(kept, key@, i) by {
                if stored_at(kept, key@, i) {
                    let k = if rest.len() == self.capacity && rest.len() > 0 {
                        i + 1
                    } else {
                        i
                    };
                    assert(stored_at(rest, key@, k));
                }
            }
        }
        let ghost entry: (Seq<u8>, Seq<u8>) = (key@, value@);
        self.entries.push_back((key, value));
        proof {
            assert(self@ =~= kept.push(entry));
            assert forall|i: int, j: int| 0 <= i < j < self@.len() implies self@[i].0
                != self@[j].0 by {
                if j == kept.len() {
                    assert(!stored_at(kept, entry.0, i));
                }
            }
        }
    }

    /// The session stored under `key`.
    pub fn get(&self, key: &[u8]) -> (r: Option<Vec<u8>>)
        requires
            self.well_formed(),
        ensures
            match value_of(self@, key@) {
                Some(value) => r matches Some(v) && v@ == value,
                None => r is None,
            },
    {
        match self.position(key) {
            Some(i) => {
                proof {
                    lemma_value_at(self@, key@, i as int);
                }
                Some(copy_bytes(&self.entries[i].1))
            },
            None => None,
        }
    }

    /// Takes the session stored under `key` out of the store.
    pub fn take(&mut self, key: &[u8]) -> (r: Option<Vec<u8>>)
        requires
            old(self).well_formed(),
        ensures
            match value_of(old(self)@, key@) {
                Some(value) => r matches Some(v) && v@ == value,
                None => r is None,
            },
            final(self)@ == removed(old(self)@, key@),
            final(self).capacity() == old(self).capacity(),
            final(self).well_formed(),
    {
        let ghost list: SessionList = self@;
        proof {
            lemma_removed(list, key@);
        }
        match self.position(key) {
            Some(i) => {
                proof {
                    lemma_value_at(list, key@, i as int);
                    lemma_remove_is_filter(list, i as int);
                }
                let entry: Option<(Vec<u8>, Vec<u8>)> = self.entries.remove(i);
                proof {
                    assert(self@ =~= list.remove(i as int));
                }
                match entry {
                    Some((_, value)) => Some(value),
                    None => None,
                }
            },
            None => {
                proof {
                    lemma_absent_is_kept(list, key@);
                }
                None
            },
        }
    }

    /// Whether the store keeps sessions at all.
    pub fn can_cache(&self) -> (r: bool)
        ensures
            r == (self.capacity() > 0),
    {
        self.capacity > 0
    }
}

/// The store behind a lock is well formed and keeps its capacity.
pub struct KeepsSessions {
    pub capacity: Ghost<nat>,
}

impl RwLockPredicate<ServerSessions> for KeepsSessions {
    open spec fn inv(self, v: ServerSessions) -> bool {
        v.well_formed() && v.capacity() == self.capacity@
    }
}

/// A store of sessions that connections share.
pub struct QuicheServerSessionStore {
    sessions: Shared<ServerSessions, KeepsSessions>,
    capacity: usize,
}

impl QuicheServerSessionStore {
    #[verifier::type_invariant]
    spec fn lock_keeps_sessions(&self) -> bool {
        self.sessions.pred().capacity@ == self.capacity
    }

    /// How many sessions the store holds at most, if that is not zero.
    pub closed spec fn capacity(&self) -> nat {
        self.capacity as nat
    }

    /// Where the sessions are.
    pub closed spec fn place(&self) -> Shared<ServerSessions, KeepsSessions> {
        self.sessions
    }

    /// Whether the store may hold these sessions while no one changes it.
    pub open spec fn may_hold(&self, held: ServerSessions) -> bool {
        held.well_formed() && held.capacity() == self.capacity()
    }

    /// Whether the store began without sessions.
    pub open spec fn began_empty(&self) -> bool {
        exists|sessions: ServerSessions| #[trigger]
            self.place().began_with(sessions) && sessions@.len() == 0
    }

    /// An empty store.
    pub fn new(capacity: usize) -> (r: Self)
        ensures
            r.capacity() == capacity,
            r.began_empty(),
    {
        let ghost pred = KeepsSessions { capacity: Ghost(capacity as nat) };
        let sessions: ServerSessions = ServerSessions::new(capacity);
        let ghost first: ServerSessions = sessions;
        let r: Self = QuicheServerSessionStore {
            sessions: Shared::new(sessions, Ghost(pred)),
            capacity,
        };
        proof {
            assert(r.place().began_with(first));
        }
        r
    }
}

impl core::fmt::Debug for QuicheServerSessionStore {
    /// Prints the type's name and capacity, and nothing of what it holds.
    fn fmt(&self, f: &mut core::fmt::Formatter<'_>) -> (r: core::fmt::Result)
        ensures
            foreign::printed_capacity(
                "QuicheServerSessionStore"@,
                self.capacity() as usize,
                r,
            ),
    {
        print_capacity(f, "QuicheServerSessionStore", self.capacity)
    }
}

impl rustls::server::StoresServerSessions for QuicheServerSessionStore {
    /// Adds a session to those that the store holds at the moment.
    fn put(&self, key: Vec<u8>, value: Vec<u8>) -> (r: bool)
        ensures
            r,
            exists|change: Change<ServerSessions, KeepsSessions>| #[trigger]
                change.place() == self.place() && self.may_hold(change.before())
                    && change.after()@ == inserted(
                    change.before()@,
                    self.capacity(),
                    key@,
                    value@,
                ),
    {
        proof {
            use_type_invariant(self);
        }
        let (mut sessions, vacancy) = self.sessions.take_out();
        sessions.put(key, value);
        let change: Ghost<Change<ServerSessions, KeepsSessions>> = vacancy.fill(sessions);
        proof {
            assert(change@.place() == self.place());
        }
        true
    }

    /// The session that the store holds under `key` at the moment.
    fn get(&self, key: &[u8]) -> (r: Option<Vec<u8>>)
        ensures
            exists|held: ServerSessions| #[trigger]
                self.may_hold(held) && match value_of(held@, key@) {
                    Some(value) => r matches Some(v) && v@ == value,
                    None => r is None,
                },
            exists|sight: Sight<ServerSessions, KeepsSessions>| #[trigger]
                sight.place() == self.place() && self.may_hold(sight.seen()) && match value_of(
                    sight.seen()@,
                    key@,
                ) {
                    Some(value) => r matches Some(v) && v@ == value,
                    None => r is None,
                },
    {
        proof {
            use_type_invariant(self);
        }
        let look = self.sessions.look();
        let r: Option<Vec<u8>> = look.value().get(key);
        proof {
            assert(self.may_hold(look.found()));
        }
        let sight: Ghost<Sight<ServerSessions, KeepsSessions>> = look.end();
        proof {
            assert(sight@.place() == self.place());
        }
        r
    }

    /// Takes the session that the store holds under `key` at the moment.
    fn take(&self, key: &[u8]) -> (r: Option<Vec<u8>>)
        ensures
            exists|held: ServerSessions| #[trigger]
                self.may_hold(held) && match value_of(held@, key@) {
                    Some(value) => r matches Some(v) && v@ == value,
                    None => r is None,
                },
            exists|change: Change<ServerSessions, KeepsSessions>| #[trigger]
                change.place() == self.place() && self.may_hold(change.before()) && match value_of(
                    change.before()@,
                    key@,
                ) {
                    Some(value) => r matches Some(v) && v@ == value,
                    None => r is None,
                } && change.after()@ == removed(change.before()@, key@),
    {
        proof {
            use_type_invariant(self);
        }
        let (mut sessions, vacancy) = self.sessions.take_out();
        proof {
            assert(self.may_hold(sessions));
        }
        let r: Option<Vec<u8>> = sessions.take(key);
        let change: Ghost<Change<ServerSessions, KeepsSessions>> = vacancy.fill(sessions);
        proof {
            assert(change@.place() == self.place());
        }
        r
    }

    fn can_cache(&self) -> (r: bool)
        ensures
            r == (self.capacity() > 0),
    {
        self.capacity > 0
    }
}

/// A store begins without sessions.
pub proof fn law_store_begins_empty(store: QuicheServerSessionStore)
    requires
        store.began_empty(),
    ensures
        exists|beginning: Beginning<ServerSessions, KeepsSessions>| #[trigger]
            beginning.place() == store.place() && beginning.first()@.len() == 0,
{
}

} // verus!
