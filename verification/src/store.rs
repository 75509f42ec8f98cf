//! The store that keeps key-value entries of the robot in sync with the
//! surface. Each side owns some entries, which it publishes as updates through
//! a callback, and holds copies of the entries that the other side shares.
//! No key is both owned and shared.

use vstd::prelude::*;
use std::time::{Duration, Instant};
use crate::key::{KeyImpl, Token};
use crate::keyed::KeyedVec;

verus! {

#[verifier::external_type_specification]
#[verifier::external_body]
pub struct ExInstant(Instant);

/// Reads the monotonic clock (`std::time::Instant::now`). Nothing is stated of
/// the instant, which depends on the time of the call.
#[verifier::external_body]
pub(crate) fn instant_now() -> Instant {
    Instant::now()
}

/// The time passed since `t` (`std::time::Instant::elapsed`). Nothing is
/// stated of the result, which depends on the time of the call.
#[verifier::external_body]
fn instant_elapsed(t: &Instant) -> Duration {
    t.elapsed()
}

/// The whole nanoseconds in duration `d` (`std::time::Duration::as_nanos`).
/// Durations are opaque here, so nothing is stated of the count.
#[verifier::external_body]
fn duration_nanos(d: &Duration) -> u128 {
    d.as_nanos()
}

/// A span of time, in nanoseconds.
#[derive(Debug, Clone, Copy, PartialEq, Eq, Structural)]
pub struct Span {
    pub nanos: u128,
}

impl Span {
    /// A span of `millis` milliseconds.
    pub fn from_millis(millis: u64) -> (s: Span)
        ensures
            s.nanos == millis * 1_000_000,
    {
        Span { nanos: millis as u128 * 1_000_000 }
    }
}

/// An entry as a lookup with a time of change gives it, kept only when its
/// age, in nanoseconds, is below `max_age`.
pub fn keep_if_younger<V>(entry: Option<&V>, age_nanos: u128, max_age: Span) -> (r: Option<&V>)
    ensures
        r == (if age_nanos < max_age.nanos { entry } else { None }),
{
    if age_nanos < max_age.nanos {
        entry
    } else {
        None
    }
}

/// An update of one entry: the key, and the new value or `None` for a removal.
pub type Update<V> = (KeyImpl, Option<V>);

/// Where the store sends the updates of the entries it owns.
pub trait UpdateCallback<V> {
    fn call(&mut self, update: Update<V>);
}

impl<V> UpdateCallback<V> for () {
    fn call(&mut self, update: Update<V>) {
    }
}

/// An update's key and value, as a plain value.
pub open spec fn update_view<V>(update: Update<V>) -> (Seq<char>, Option<V>) {
    (update.0@, update.1)
}

/// The key-value store of one side.
pub struct Store<V, C> {
    owned: KeyedVec<V>,
    shared: KeyedVec<V>,
    timestamps: KeyedVec<Instant>,
    callback: C,
    published: Ghost<Seq<(Seq<char>, Option<V>)>>,
}

impl<V, C> Store<V, C> {
    /// The entries this side owns.
    pub closed spec fn owned_map(&self) -> Map<Seq<char>, V> {
        self.owned@
    }

    /// The entries the other side shares.
    pub closed spec fn shared_map(&self) -> Map<Seq<char>, V> {
        self.shared@
    }

    /// The keys that carry a time of last change.
    pub closed spec fn stamped(&self) -> Set<Seq<char>> {
        self.timestamps@.dom()
    }

    /// The time of last change of each stamped key.
    pub closed spec fn times(&self) -> Map<Seq<char>, Instant> {
        self.timestamps@
    }

    /// Every update handed to the callback so far, in order.
    pub closed spec fn published(&self) -> Seq<(Seq<char>, Option<V>)> {
        self.published@
    }

    /// The callback.
    pub closed spec fn callback_of(&self) -> C {
        self.callback
    }

    /// What a lookup of `k` gives: the owned entry, else the shared one.
    pub open spec fn lookup(&self, k: Seq<char>) -> Option<V> {
        if self.owned_map().contains_key(k) {
            Some(self.owned_map()[k])
        } else if self.shared_map().contains_key(k) {
            Some(self.shared_map()[k])
        } else {
            None
        }
    }

    /// The store's consistency, with the rule that no key is both owned and
    /// shared.
    pub closed spec fn wf(&self) -> bool {
        &&& self.owned.wf()
        &&& self.shared.wf()
        &&& self.timestamps.wf()
        &&& forall|k: Seq<char>| !(#[trigger] self.owned@.contains_key(k) && self.shared@.contains_key(k))
    }

    /// Store law: no key is ever both owned and shared.
    pub proof fn lemma_owned_shared_disjoint(&self, k: Seq<char>)
        requires
            self.wf(),
        ensures
            !(self.owned_map().contains_key(k) && self.shared_map().contains_key(k)),
    {
    }

    /// The value of the entry for `key`: the owned one, else the shared one.
    pub fn get<T>(&self, key: &Token<T>) -> (r: Option<&V>)
        requires
            self.wf(),
        ensures
            r matches Some(v) ==> self.lookup(key.0@) == Some(*v),
            r is None ==> self.lookup(key.0@) is None,
    {
        match self.owned.get(&key.0) {
            Some(v) => Some(v),
            None => self.shared.get(&key.0),
        }
    }

    /// The entry for `key` with the time of its last change; `None` when the
    /// key never changed.
    pub fn get_with_time<T>(&self, key: &Token<T>) -> (r: Option<(Option<&V>, Instant)>)
        requires
            self.wf(),
        ensures
            r is Some <==> self.stamped().contains(key.0@),
            r matches Some((Some(v), _)) ==> self.lookup(key.0@) == Some(*v),
            r matches Some((None, _)) ==> self.lookup(key.0@) is None,
            r matches Some((_, t)) ==> self.times()[key.0@] == t,
    {
        match self.timestamps.get(&key.0) {
            Some(time) => Some((self.get(key), *time)),
            None => None,
        }
    }

    /// The entry for `key` if it changed less than `max_age` ago. The age is
    /// read from the clock, so which entries are young enough is decided at
    /// the call; `keep_if_younger` says what is returned for each age.
    pub fn get_alive<T>(&self, key: &Token<T>, max_age: Span) -> (r: Option<&V>)
        requires
            self.wf(),
        ensures
            r matches Some(v) ==> self.stamped().contains(key.0@) && self.lookup(key.0@) == Some(*v),
            !self.stamped().contains(key.0@) ==> r is None,
            self.lookup(key.0@) is None ==> r is None,
            max_age.nanos == 0 ==> r is None,
    {
        match self.get_with_time(key) {
            Some((entry, timestamp)) => {
                let age = duration_nanos(&instant_elapsed(&timestamp));
                keep_if_younger(entry, age, max_age)
            },
            None => None,
        }
    }

    /// Whether this side owns the entry for `key`.
    pub fn is_owned<T>(&self, key: &Token<T>) -> (r: bool)
        requires
            self.wf(),
        ensures
            r == self.owned_map().contains_key(key.0@),
    {
        self.is_owned_key(&key.0)
    }

    /// Whether this side owns the entry for `key`.
    pub fn is_owned_key(&self, key: &KeyImpl) -> (r: bool)
        requires
            self.wf(),
        ensures
            r == self.owned_map().contains_key(key@),
    {
        self.owned.contains(key)
    }

    /// Forgets every entry and every time of change.
    pub fn reset(&mut self)
        requires
            old(self).wf(),
        ensures
            final(self).wf(),
            final(self).owned_map() == Map::<Seq<char>, V>::empty(),
            final(self).shared_map() == Map::<Seq<char>, V>::empty(),
            final(self).stamped() == Set::<Seq<char>>::empty(),
            final(self).published() == old(self).published(),
    {
        self.owned.clear();
        self.shared.clear();
        self.timestamps.clear();
    }

    /// Forgets the entries of the other side.
    pub fn reset_shared(&mut self)
        requires
            old(self).wf(),
        ensures
            final(self).wf(),
            final(self).owned_map() == old(self).owned_map(),
            final(self).shared_map() == Map::<Seq<char>, V>::empty(),
            final(self).stamped() == old(self).stamped(),
            final(self).times() == old(self).times(),
            final(self).published() == old(self).published(),
    {
        self.shared.clear();
    }

    /// Stamps `key` with the current time.
    fn touch(&mut self, key: &KeyImpl)
        requires
            old(self).wf(),
        ensures
            final(self).wf(),
            final(self).owned_map() == old(self).owned_map(),
            final(self).shared_map() == old(self).shared_map(),
            final(self).stamped() == old(self).stamped().insert(key@),
            final(self).published() == old(self).published(),
            final(self).callback_of() == old(self).callback_of(),
    {
        let now = instant_now();
        self.timestamps.insert(key.copy_key(), now);
    }
}

impl<V: Clone, C> Store<V, C> {
    /// Applies an update of an entry that the other side owns; refused, with
    /// nothing changed, when this side owns the key.
    pub fn handle_update_shared(&mut self, update: &Update<V>)
        requires
            old(self).wf(),
        ensures
            final(self).wf(),
            final(self).published() == old(self).published(),
            final(self).owned_map() == old(self).owned_map(),
            old(self).owned_map().contains_key(update.0@) ==> final(self).shared_map() == old(self).shared_map()
                && final(self).stamped() == old(self).stamped()
                && final(self).times() == old(self).times(),
            !old(self).owned_map().contains_key(update.0@) ==> {
                &&& final(self).stamped() == old(self).stamped().insert(update.0@)
                &&& match update.1 {
                    Some(data) => final(self).shared_map().dom() == old(self).shared_map().dom().insert(update.0@)
                        && (forall|k: Seq<char>| k != update.0@ && #[trigger] old(self).shared_map().contains_key(k)
                            ==> final(self).shared_map()[k] == old(self).shared_map()[k])
                        && cloned(data, final(self).shared_map()[update.0@]),
                    None => final(self).shared_map() == old(self).shared_map().remove(update.0@),
                }
                &&& match update.1 {
                    Some(data) => final(self).lookup(update.0@) matches Some(c) && cloned(data, c),
                    None => final(self).lookup(update.0@) is None,
                }
            },
            forall|k: Seq<char>| k != update.0@ ==> #[trigger] final(self).lookup(k) == old(self).lookup(k),
    {
        if self.owned.contains(&update.0) {
            return;
        }
        match &update.1 {
            Some(data) => {
                let copy = data.clone();
                self.shared.insert(update.0.copy_key(), copy);
            },
            None => {
                self.shared.remove(&update.0);
            },
        }
        self.touch(&update.0);
    }

    /// Applies an update of an entry that this side owns, as the other side
    /// reports it; refused, with nothing changed, when the other side shares
    /// the key.
    pub fn handle_update_owned(&mut self, update: &Update<V>)
        requires
            old(self).wf(),
        ensures
            final(self).wf(),
            final(self).published() == old(self).published(),
            final(self).shared_map() == old(self).shared_map(),
            old(self).shared_map().contains_key(update.0@) ==> final(self).owned_map() == old(self).owned_map()
                && final(self).stamped() == old(self).stamped()
                && final(self).times() == old(self).times(),
            !old(self).shared_map().contains_key(update.0@) ==> {
                &&& final(self).stamped() == old(self).stamped().insert(update.0@)
                &&& match update.1 {
                    Some(data) => final(self).owned_map().dom() == old(self).owned_map().dom().insert(update.0@)
                        && (forall|k: Seq<char>| k != update.0@ && #[trigger] old(self).owned_map().contains_key(k)
                            ==> final(self).owned_map()[k] == old(self).owned_map()[k])
                        && cloned(data, final(self).owned_map()[update.0@]),
                    None => final(self).owned_map() == old(self).owned_map().remove(update.0@),
                }
                &&& match update.1 {
                    Some(data) => final(self).lookup(update.0@) matches Some(c) && cloned(data, c),
                    None => final(self).lookup(update.0@) is None,
                }
            },
            forall|k: Seq<char>| k != update.0@ ==> #[trigger] final(self).lookup(k) == old(self).lookup(k),
    {
        if self.shared.contains(&update.0) {
            return;
        }
        match &update.1 {
            Some(data) => {
                let copy = data.clone();
                self.owned.insert(update.0.copy_key(), copy);
            },
            None => {
                self.owned.remove(&update.0);
            },
        }
        self.touch(&update.0);
    }
}

impl<V: Clone, C: UpdateCallback<V>> Store<V, C> {
    /// An empty store that publishes its updates through `update_callback`.
    pub fn new(update_callback: C) -> (s: Self)
        ensures
            s.wf(),
            s.owned_map() == Map::<Seq<char>, V>::empty(),
            s.shared_map() == Map::<Seq<char>, V>::empty(),
            s.stamped() == Set::<Seq<char>>::empty(),
            s.published() == Seq::<(Seq<char>, Option<V>)>::empty(),
            s.callback_of() == update_callback,
    {
        Store {
            owned: KeyedVec::new(),
            shared: KeyedVec::new(),
            timestamps: KeyedVec::new(),
            callback: update_callback,
            published: Ghost(Seq::empty()),
        }
    }

    /// Sets an entry that this side owns and publishes the update; refused,
    /// with nothing changed, when the other side shares the key.
    pub fn insert<T>(&mut self, key: &Token<T>, value: V)
        requires
            old(self).wf(),
        ensures
            final(self).wf(),
            old(self).shared_map().contains_key(key.0@) ==> final(self).owned_map() == old(self).owned_map()
                && final(self).shared_map() == old(self).shared_map()
                && final(self).stamped() == old(self).stamped()
                && final(self).times() == old(self).times()
                && final(self).published() == old(self).published(),
            !old(self).shared_map().contains_key(key.0@) ==> {
                &&& final(self).owned_map() == old(self).owned_map().insert(key.0@, value)
                &&& final(self).shared_map() == old(self).shared_map()
                &&& final(self).stamped() == old(self).stamped().insert(key.0@)
                &&& final(self).published().len() == old(self).published().len() + 1
                &&& final(self).published().subrange(0, old(self).published().len() as int) == old(self).published()
                &&& final(self).published().last().0 == key.0@
                &&& final(self).published().last().1 matches Some(c) && cloned(value, c)
                &&& final(self).lookup(key.0@) == Some(value)
            },
            forall|k: Seq<char>| k != key.0@ ==> #[trigger] final(self).lookup(k) == old(self).lookup(k),
    {
        if self.shared.contains(&key.0) {
            return;
        }
        let copy = value.clone();
        let ghost published_copy = copy;
        self.callback.call((key.0.copy_key(), Some(copy)));
        proof {
            self.published@ = self.published@.push((key.0@, Some(published_copy)));
        }
        self.owned.insert(key.0.copy_key(), value);
        self.touch(&key.0);
        assert(self.published@.subrange(0, old(self).published@.len() as int) =~= old(self).published@);
    }

    /// Removes an entry that this side owns and publishes the removal;
    /// refused, with nothing changed, when the other side shares the key.
    pub fn remove<T>(&mut self, key: &Token<T>)
        requires
            old(self).wf(),
        ensures
            final(self).wf(),
            old(self).shared_map().contains_key(key.0@) ==> final(self).owned_map() == old(self).owned_map()
                && final(self).shared_map() == old(self).shared_map()
                && final(self).stamped() == old(self).stamped()
                && final(self).times() == old(self).times()
                && final(self).published() == old(self).published(),
            !old(self).shared_map().contains_key(key.0@) ==> {
                &&& final(self).owned_map() == old(self).owned_map().remove(key.0@)
                &&& final(self).shared_map() == old(self).shared_map()
                &&& final(self).stamped() == old(self).stamped().insert(key.0@)
                &&& final(self).published() == old(self).published().push((key.0@, None))
                &&& final(self).lookup(key.0@) is None
            },
            forall|k: Seq<char>| k != key.0@ ==> #[trigger] final(self).lookup(k) == old(self).lookup(k),
    {
        if self.shared.contains(&key.0) {
            return;
        }
        self.callback.call((key.0.copy_key(), None));
        proof {
            self.published@ = self.published@.push((key.0@, None));
        }
        self.owned.remove(&key.0);
        self.touch(&key.0);
    }

    /// Publishes every owned entry again, each once.
    pub fn refresh(&mut self)
        requires
            old(self).wf(),
        ensures
            final(self).wf(),
            final(self).owned_map() == old(self).owned_map(),
            final(self).shared_map() == old(self).shared_map(),
            final(self).stamped() == old(self).stamped(),
            final(self).times() == old(self).times(),
            final(self).published().len() == old(self).published().len() + old(self).owned_map().dom().len(),
            final(self).published().subrange(0, old(self).published().len() as int) == old(self).published(),
            forall|i: int| old(self).published().len() <= i < final(self).published().len()
                ==> old(self).owned_map().contains_key(#[trigger] final(self).published()[i].0)
                    && (final(self).published()[i].1 matches Some(c)
                        && cloned(old(self).owned_map()[final(self).published()[i].0], c)),
            forall|k: Seq<char>| #[trigger] old(self).owned_map().contains_key(k)
                ==> exists|i: int| old(self).published().len() <= i < final(self).published().len()
                    && final(self).published()[i].0 == k,
    {
        let ghost start = self.published@;
        let n = self.owned.len();
        proof {
            self.owned.lemma_entries();
        }
        let mut i: usize = 0;
        while i < n
            invariant
                self.wf(),
                n == self.owned.entry_seq().len(),
                n == self.owned@.dom().len(),
                i <= n,
                self.owned == old(self).owned,
                self.shared == old(self).shared,
                self.timestamps == old(self).timestamps,
                start == old(self).published@,
                self.published@.len() == start.len() + i,
                self.published@.subrange(0, start.len() as int) == start,
                forall|j: int| 0 <= j < i ==> #[trigger] self.published@[start.len() + j].0
                    == self.owned.entry_seq()[j].0@ && (self.published@[start.len() + j].1 matches Some(c)
                        && cloned(self.owned.entry_seq()[j].1, c)),
                forall|j: int| 0 <= j < n ==> #[trigger] self.owned@.contains_key(self.owned.entry_seq()[j].0@)
                    && self.owned@[self.owned.entry_seq()[j].0@] == self.owned.entry_seq()[j].1,
            decreases n - i,
        {
            let entry = self.owned.entry(i);
            let key = entry.0.copy_key();
            let value = entry.1.clone();
            let ghost published_value = value;
            self.callback.call((key, Some(value)));
            proof {
                self.published@ = self.published@.push((self.owned.entry_seq()[i as int].0@, Some(published_value)));
                assert(self.published@.subrange(0, start.len() as int) =~= start);
            }
            i = i + 1;
        }
        proof {
            assert forall|j: int| start.len() <= j < self.published@.len()
                implies old(self).owned_map().contains_key(#[trigger] self.published@[j].0)
                    && (self.published@[j].1 matches Some(c) && cloned(old(self).owned_map()[self.published@[j].0], c)) by {
                let jj = j - start.len();
                assert(self.published@[start.len() + jj].0 == self.owned.entry_seq()[jj].0@);
            }
            assert forall|k: Seq<char>| #[trigger] old(self).owned_map().contains_key(k)
                implies exists|j: int| start.len() <= j < self.published@.len() && self.published@[j].0 == k by {
                let jj = choose|jj: int| 0 <= jj < self.owned.entry_seq().len() && self.owned.entry_seq()[jj].0@ == k;
                assert(self.published@[start.len() + jj].0 == k);
            }
        }
    }
}

/// The update that sets the entry for `key` to `value`.
pub fn create_update<T, V>(key: &Token<T>, value: V) -> (r: Update<V>)
    ensures
        r.0@ == key.0@,
        r.1 == Some(value),
{
    (key.0.copy_key(), Some(value))
}

/// The update that removes the entry for `key`.
pub fn create_delete<T, V>(key: &Token<T>) -> (r: Update<V>)
    ensures
        r.0@ == key.0@,
        r.1 is None,
{
    (key.0.copy_key(), None)
}

/// Store law: an update made for a key hands its value back to that key.
/// For a value type whose copies equal their originals, reading back the
/// update that `create_update` made for `key` (as `handle_update` does)
/// gives the value; reading back the removal that `create_delete` made gives
/// nothing.
pub proof fn lemma_update_round_trip<T, V: Clone>(key: Token<T>, value: V, update: Update<V>, deletion: Update<V>, r: Option<V>, d: Option<V>)
    requires
        forall|a: V, b: V| #[trigger] cloned(a, b) ==> a == b,
        update.0@ == key.0@ && update.1 == Some(value),
        deletion.0@ == key.0@ && deletion.1 is None,
        key.0@ == update.0@ ==> match update.1 {
            Some(v) => r matches Some(c) && cloned(v, c),
            None => r is None,
        },
        key.0@ == deletion.0@ ==> match deletion.1 {
            Some(v) => d matches Some(c) && cloned(v, c),
            None => d is None,
        },
    ensures
        r == Some(value),
        d is None,
{
}

/// The new value that `update` carries for `key`; `None` when the update is
/// for another key or is a removal (removals are ignored).
pub fn handle_update<T, V: Clone>(key: &Token<T>, update: &Update<V>) -> (r: Option<V>)
    ensures
        key.0@ != update.0@ ==> r is None,
        key.0@ == update.0@ ==> match update.1 {
            Some(v) => r matches Some(c) && cloned(v, c),
            None => r is None,
        },
{
    if key.0 == update.0 {
        match &update.1 {
            Some(v) => Some(v.clone()),
            None => None,
        }
    } else {
        None
    }
}

} // verus!
