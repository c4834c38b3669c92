//! Values that several owners share behind a lock.
//!
//! Whoever changes a shared value takes it out and puts one back. A record of the two
//! stays, so that a contract can speak of what was there at that moment and of what is
//! there then. Records come from here alone: no one else can make one.

use vstd::prelude::*;
use vstd::rwlock::ReadHandle;
use vstd::rwlock::RwLock;
use vstd::rwlock::RwLockPredicate;
use vstd::rwlock::WriteHandle;

verus! {

/// A place for a value that several owners share.
pub struct Shared<V, P: RwLockPredicate<V>> {
    lock: RwLock<V, P>,
}

/// A record of a change: the place, what was taken out of it, and what was put back.
pub struct Change<V, P: RwLockPredicate<V>> {
    place: Shared<V, P>,
    before: V,
    after: V,
}

impl<V, P: RwLockPredicate<V>> Change<V, P> {
    /// Where the change was made.
    pub closed spec fn place(self) -> Shared<V, P> {
        self.place
    }

    /// What was taken out.
    pub closed spec fn before(self) -> V {
        self.before
    }

    /// What was put back.
    pub closed spec fn after(self) -> V {
        self.after
    }
}

/// A record of a beginning: the place, and what it held first.
pub struct Beginning<V, P: RwLockPredicate<V>> {
    place: Shared<V, P>,
    first: V,
}

impl<V, P: RwLockPredicate<V>> Beginning<V, P> {
    /// What began.
    pub closed spec fn place(self) -> Shared<V, P> {
        self.place
    }

    /// What it held first.
    pub closed spec fn first(self) -> V {
        self.first
    }
}

/// A record of a look: the place, and what was there.
pub struct Sight<V, P: RwLockPredicate<V>> {
    place: Shared<V, P>,
    seen: V,
}

impl<V, P: RwLockPredicate<V>> Sight<V, P> {
    /// Where the look went.
    pub closed spec fn place(self) -> Shared<V, P> {
        self.place
    }

    /// What was there.
    pub closed spec fn seen(self) -> V {
        self.seen
    }
}

/// A place whose value was taken out. It must be filled again.
pub struct Vacancy<'a, V, P: RwLockPredicate<V>> {
    handle: WriteHandle<'a, V, P>,
    found: Ghost<V>,
}

impl<'a, V, P: RwLockPredicate<V>> Vacancy<'a, V, P> {
    /// The place.
    pub closed spec fn place(self) -> Shared<V, P> {
        Shared { lock: self.handle.rwlock() }
    }

    /// What was taken out.
    pub closed spec fn found(self) -> V {
        self.found@
    }

    /// Puts a value back. Gives a record of the change.
    pub fn fill(self, value: V) -> (r: Ghost<Change<V, P>>)
        requires
            self.place().admits(value),
        ensures
            r@.place() == self.place(),
            r@.before() == self.found(),
            r@.after() == value,
    {
        let ghost record = Change { place: self.place(), before: self.found(), after: value };
        self.handle.release_write(value);
        Ghost(record)
    }
}

/// A place that is looked at. The look must end.
pub struct Look<'a, V, P: RwLockPredicate<V>> {
    handle: ReadHandle<'a, V, P>,
}

impl<'a, V, P: RwLockPredicate<V>> Look<'a, V, P> {
    /// The place.
    pub closed spec fn place(self) -> Shared<V, P> {
        Shared { lock: self.handle.rwlock() }
    }

    /// What is there.
    pub closed spec fn found(self) -> V {
        self.handle.view()
    }

    /// What is there.
    pub fn value(&self) -> (r: &V)
        ensures
            *r == self.found(),
    {
        self.handle.borrow()
    }

    /// Ends the look. Gives a record of it.
    pub fn end(self) -> (r: Ghost<Sight<V, P>>)
        ensures
            r@.place() == self.place(),
            r@.seen() == self.found(),
    {
        let ghost record = Sight { place: self.place(), seen: self.found() };
        self.handle.release_read();
        Ghost(record)
    }
}

impl<V, P: RwLockPredicate<V>> Shared<V, P> {
    /// What the place may hold.
    pub closed spec fn pred(&self) -> P {
        self.lock.pred()
    }

    /// Whether the place may hold a value.
    pub open spec fn admits(&self, value: V) -> bool {
        self.pred().inv(value)
    }

    /// Whether the place held a value first.
    pub open spec fn began_with(&self, value: V) -> bool {
        exists|beginning: Beginning<V, P>| #[trigger]
            beginning.place() == *self && beginning.first() == value
    }

    /// A place with a value.
    pub fn new(value: V, pred: Ghost<P>) -> (r: Self)
        requires
            pred@.inv(value),
        ensures
            r.pred() == pred@,
            r.began_with(value),
    {
        let ghost first: V = value;
        let r: Self = Shared { lock: RwLock::new(value, pred) };
        proof {
            let beginning = Beginning { place: r, first };
            assert(beginning.place() == r);
        }
        r
    }

    /// Takes the value out.
    pub fn take_out(&self) -> (r: (V, Vacancy<'_, V, P>))
        ensures
            self.admits(r.0),
            r.1.place() == *self,
            r.1.found() == r.0,
    {
        let (value, handle) = self.lock.acquire_write();
        let ghost found: V = value;
        (value, Vacancy { handle, found: Ghost(found) })
    }

    /// Looks at the value.
    pub fn look(&self) -> (r: Look<'_, V, P>)
        ensures
            r.place() == *self,
            self.admits(r.found()),
    {
        Look { handle: self.lock.acquire_read() }
    }
}

/// A place that began with a value has a record of it, and may hold a value that its
/// predicate lets it hold.
pub proof fn law_beginning_is_recorded<V, P: RwLockPredicate<V>>(place: Shared<V, P>, value: V)
    ensures
        place.began_with(value) ==> exists|beginning: Beginning<V, P>| #[trigger]
            beginning.place() == place && beginning.first() == value,
        place.admits(value) <==> place.pred().inv(value),
{
}

} // verus!
