//! The event bus between the robot's systems: every system has a handle with
//! a sending end to every system's queue and the receiving end of its own.

use vstd::prelude::*;
use crossbeam::channel::{Receiver, Sender, TrySendError};
use std::sync::Arc;

verus! {

#[verifier::external_type_specification]
#[verifier::external_body]
#[verifier::reject_recursive_types(T)]
pub struct ExSender<T>(Sender<T>);

#[verifier::external_type_specification]
#[verifier::external_body]
#[verifier::reject_recursive_types(T)]
pub struct ExReceiver<T>(Receiver<T>);

/// The systems that run on the robot.
#[derive(Debug, Clone, Copy, PartialEq, Eq, Hash, Structural)]
pub enum SystemId {
    Stop,
    LogEvents,
    Error,
    Store,
    Network,
    HwStatus,
    RobotStatus,
    Motor,
    Indicators,
    Leak,
    Inertial,
    Orientation,
    DepthControl,
    Leveling,
    Depth,
    Camera,
}

/// How many events a system's queue holds before further events are dropped.
pub const EVENT_QUEUE_CAPACITY: usize = 50;

/// What became of one attempt to put an event into a queue.
#[derive(Debug, Clone, Copy, PartialEq, Eq, Structural)]
pub enum SendOutcome {
    /// The event is in the queue.
    Sent,
    /// The queue was full; the event was dropped.
    Full,
    /// The receiving system is gone.
    Disconnected,
}

/// Makes a bounded queue (`crossbeam::channel::bounded`). Nothing is stated of
/// the two ends, which are opaque. The capacity is bounded here because the
/// crate panics when the ring buffer for it cannot be set up.
#[verifier::external_body]
fn bounded_queue<T>(capacity: usize) -> (Sender<T>, Receiver<T>)
    requires
        capacity <= 1024,
{
    crossbeam::channel::bounded(capacity)
}

/// Tries to put a message into a queue without blocking
/// (`crossbeam::channel::Sender::try_send`), and reports which of its three
/// outcomes came, with the message that was handed to the queue. Which
/// outcome comes depends on the other threads, so nothing is stated of it;
/// what is stated is that the message handed over is `message`.
#[verifier::external_body]
fn try_enqueue<T>(sender: &Sender<T>, message: T) -> (r: (SendOutcome, Ghost<T>))
    ensures
        r.1@ == message,
{
    let echo = Ghost(message);
    let outcome = match sender.try_send(message) {
        Ok(()) => SendOutcome::Sent,
        Err(TrySendError::Full(_)) => SendOutcome::Full,
        Err(TrySendError::Disconnected(_)) => SendOutcome::Disconnected,
    };
    (outcome, echo)
}

/// Another sending end of the same queue (`Sender::clone`). The ends are
/// opaque, so nothing is stated of the result.
#[verifier::external_body]
fn clone_sender<T>(sender: &Sender<T>) -> Sender<T> {
    sender.clone()
}

/// Another receiving end of the same queue (`Receiver::clone`). The ends are
/// opaque, so nothing is stated of the result.
#[verifier::external_body]
fn clone_receiver<T>(receiver: &Receiver<T>) -> Receiver<T> {
    receiver.clone()
}

/// Another pointer to the same shared event (`Arc::clone`): it points to the
/// same value.
#[verifier::external_body]
fn share<E>(event: &Arc<E>) -> (r: Arc<E>)
    ensures
        r == *event,
{
    Arc::clone(event)
}

/// Whether the ids are pairwise distinct.
pub open spec fn distinct_ids(ids: Seq<SystemId>) -> bool {
    forall|i: int, j: int| 0 <= i < j < ids.len() ==> ids[i] != ids[j]
}

/// The ids of a round of delivery attempts.
pub open spec fn round_ids(round: Seq<(SystemId, SendOutcome)>) -> Seq<SystemId> {
    round.map_values(|a: (SystemId, SendOutcome)| a.0)
}

/// The registered systems that stay after a broadcast from `me` whose
/// attempts came out as `round`: all but those whose queue was gone.
pub open spec fn survivors(ids: Seq<SystemId>, me: SystemId, round: Seq<(SystemId, SendOutcome)>) -> Seq<SystemId>
    decreases ids.len(),
{
    if ids.len() == 0 {
        Seq::empty()
    } else if ids.last() == me {
        survivors(ids.drop_last(), me, round).push(ids.last())
    } else if round.len() > 0 && round.last().1 == SendOutcome::Disconnected {
        survivors(ids.drop_last(), me, round.drop_last())
    } else {
        survivors(ids.drop_last(), me, round.drop_last()).push(ids.last())
    }
}

/// `ids` without `x`, in order: the systems that a broadcast from `x` goes
/// to.
pub open spec fn without(ids: Seq<SystemId>, x: SystemId) -> Seq<SystemId>
    decreases ids.len(),
{
    if ids.len() == 0 {
        Seq::empty()
    } else if ids.last() == x {
        without(ids.drop_last(), x)
    } else {
        without(ids.drop_last(), x).push(ids.last())
    }
}

/// A directed send to the systems `requests`, in order, from registered
/// systems `ids`, whose attempts came out as `round`: the systems registered
/// afterwards and the systems an attempt was made for. A request for a system
/// that is not registered (any more) is skipped; one whose queue was gone
/// unregisters it.
pub open spec fn routing(ids: Seq<SystemId>, requests: Seq<SystemId>, round: Seq<(SystemId, SendOutcome)>) -> (Seq<SystemId>, Seq<SystemId>)
    decreases requests.len(),
{
    if requests.len() == 0 {
        (ids, Seq::empty())
    } else {
        let (left, tried) = routing(ids, requests.drop_last(), round);
        let r = requests.last();
        if !left.contains(r) {
            (left, tried)
        } else if tried.len() < round.len() && round[tried.len() as int].1 == SendOutcome::Disconnected {
            (without(left, r), tried.push(r))
        } else {
            (left, tried.push(r))
        }
    }
}

/// Event bus law: a broadcast goes to every registered system but the sender,
/// and never to the sender.
pub proof fn lemma_broadcast_reaches_others(ids: Seq<SystemId>, me: SystemId, x: SystemId)
    ensures
        without(ids, me).contains(x) <==> (ids.contains(x) && x != me),
    decreases ids.len(),
{
    if ids.len() > 0 {
        let front = ids.drop_last();
        lemma_broadcast_reaches_others(front, me, x);
        assert(ids =~= front.push(ids.last()));
        if front.contains(x) {
            let m = choose|m: int| 0 <= m < front.len() && front[m] == x;
            assert(ids[m] == x);
        }
        if ids.contains(x) && !front.contains(x) {
            let m = choose|m: int| 0 <= m < ids.len() && ids[m] == x;
            if m < front.len() {
                assert(front[m] == x);
            }
        }
        let w = without(front, me);
        if ids.last() != me {
            assert(without(ids, me) == w.push(ids.last()));
            if w.push(ids.last()).contains(x) && x != ids.last() {
                let m = choose|m: int| 0 <= m < w.len() + 1 && w.push(ids.last())[m] == x;
                assert(w[m] == x);
            }
            if w.contains(x) {
                let m = choose|m: int| 0 <= m < w.len() && w[m] == x;
                assert(w.push(ids.last())[m] == x);
            }
            assert(w.push(ids.last())[w.len() as int] == ids.last());
        }
    }
}

/// Removing the element at the position of `x` from distinct ids is removing
/// `x`.
proof fn lemma_remove_is_without(ids: Seq<SystemId>, i: int)
    requires
        distinct_ids(ids),
        0 <= i < ids.len(),
    ensures
        ids.remove(i) == without(ids, ids[i]),
    decreases ids.len(),
{
    let x = ids[i];
    let front = ids.drop_last();
    if i == ids.len() - 1 {
        assert(ids.remove(i) =~= front);
        lemma_without_absent(front, x);
    } else {
        assert(distinct_ids(front));
        lemma_remove_is_without(front, i);
        assert(ids.remove(i) =~= front.remove(i).push(ids.last()));
    }
}

/// Removing an absent id changes nothing.
proof fn lemma_without_absent(ids: Seq<SystemId>, x: SystemId)
    requires
        !ids.contains(x),
    ensures
        without(ids, x) == ids,
    decreases ids.len(),
{
    if ids.len() > 0 {
        let front = ids.drop_last();
        assert(!front.contains(x)) by {
            if front.contains(x) {
                let k = choose|k: int| 0 <= k < front.len() && front[k] == x;
                assert(ids[k] == x);
            }
        }
        lemma_without_absent(front, x);
        assert(ids =~= front.push(ids.last()));
    }
}

/// A handle just made for system `x` of the systems `ids`, paired with `x`:
/// it reaches every system of `ids`, holds its own queue's receiving end, and
/// has sent nothing yet.
pub open spec fn fresh_handle<E>(h: (SystemId, EventHandle<E>), x: SystemId, ids: Seq<SystemId>) -> bool {
    &&& h.0 == x
    &&& h.1.owner() == x
    &&& h.1.peer_ids() == ids
    &&& h.1.has_listener()
    &&& h.1.wf()
    &&& h.1.last_round() == Seq::<(SystemId, SendOutcome)>::empty()
}

/// A system's connection to the event bus.
#[verifier::reject_recursive_types(E)]
pub struct EventHandle<E> {
    peers: Vec<(SystemId, Sender<Arc<E>>)>,
    listner: Option<Receiver<Arc<E>>>,
    id: SystemId,
    round: Ghost<Seq<(SystemId, SendOutcome)>>,
    offers: Ghost<Seq<Arc<E>>>,
}

impl<E> EventHandle<E> {
    /// The systems this handle can reach, in order.
    pub closed spec fn peer_ids(&self) -> Seq<SystemId> {
        self.peers@.map_values(|p: (SystemId, Sender<Arc<E>>)| p.0)
    }

    /// The system the handle belongs to.
    pub closed spec fn owner(&self) -> SystemId {
        self.id
    }

    /// Whether the handle still holds the receiving end of its queue.
    pub closed spec fn has_listener(&self) -> bool {
        self.listner is Some
    }

    /// The delivery attempts of the last send, in order.
    pub closed spec fn last_round(&self) -> Seq<(SystemId, SendOutcome)> {
        self.round@
    }

    /// The events handed to the queues at the delivery attempts of the last
    /// send, in the order of the attempts.
    pub closed spec fn last_offers(&self) -> Seq<Arc<E>> {
        self.offers@
    }

    /// No system is registered twice.
    pub closed spec fn wf(&self) -> bool {
        distinct_ids(self.peer_ids())
    }

    /// One handle per system of `ids`, in the order of `ids`: each can reach
    /// every system of `ids`, itself included, and holds its own queue's
    /// receiving end.
    pub fn create(ids: Vec<SystemId>) -> (handles: Vec<(SystemId, EventHandle<E>)>)
        requires
            distinct_ids(ids@),
        ensures
            handles.len() == ids.len(),
            forall|i: int| 0 <= i < ids.len() ==> fresh_handle(#[trigger] handles[i], ids[i], ids@),
    {
        let n = ids.len();
        let mut senders: Vec<Sender<Arc<E>>> = Vec::new();
        let mut receivers: Vec<Receiver<Arc<E>>> = Vec::new();
        let mut i: usize = 0;
        while i < n
            invariant
                i <= n,
                n == ids.len(),
                senders.len() == i,
                receivers.len() == i,
            decreases n - i,
        {
            let (tx, rx) = bounded_queue(EVENT_QUEUE_CAPACITY);
            senders.push(tx);
            receivers.push(rx);
            i = i + 1;
        }
        let mut handles: Vec<(SystemId, EventHandle<E>)> = Vec::new();
        let mut j: usize = 0;
        while j < n
            invariant
                j <= n,
                n == ids.len(),
                senders.len() == n,
                receivers.len() == n - j,
                distinct_ids(ids@),
                handles.len() == j,
                forall|k: int| 0 <= k < j ==> fresh_handle(#[trigger] handles[k], ids[k], ids@),
            decreases n - j,
        {
            let mut peers: Vec<(SystemId, Sender<Arc<E>>)> = Vec::new();
            let mut k: usize = 0;
            while k < n
                invariant
                    k <= n,
                    n == ids.len(),
                    senders.len() == n,
                    peers.len() == k,
                    forall|m: int| 0 <= m < k ==> #[trigger] peers[m].0 == ids[m],
                decreases n - k,
            {
                peers.push((ids[k], clone_sender(&senders[k])));
                k = k + 1;
            }
            let listner = receivers.remove(0);
            let handle = EventHandle { peers, listner: Some(listner), id: ids[j], round: Ghost(Seq::empty()), offers: Ghost(Seq::empty()) };
            assert(handle.peer_ids() =~= ids@);
            let ghost before = handles@;
            handles.push((ids[j], handle));
            assert(handles@ == before.push((ids[j as int], handle)));
            assert(handles[j as int].1.peer_ids() == ids@);
            assert(handles[j as int].1.wf());
            assert(handles[j as int].1.has_listener());
            assert(handles[j as int].1.last_round() == Seq::<(SystemId, SendOutcome)>::empty());
            assert forall|k: int| 0 <= k < j + 1 implies fresh_handle(#[trigger] handles[k], ids[k], ids@) by {
                if k < j {
                    assert(handles[k] == before[k]);
                }
            }
            j = j + 1;
        }
        handles
    }

    /// Sends `event` to every system this handle can reach but its own. A
    /// system whose queue is gone is no longer reached; a full queue drops
    /// the event.
    pub fn send(&mut self, event: E)
        requires
            old(self).wf(),
        ensures
            final(self).wf(),
            final(self).owner() == old(self).owner(),
            final(self).has_listener() == old(self).has_listener(),
            round_ids(final(self).last_round()) == without(old(self).peer_ids(), old(self).owner()),
            final(self).peer_ids() == survivors(old(self).peer_ids(), old(self).owner(), final(self).last_round()),
            final(self).last_offers().len() == final(self).last_round().len(),
            forall|k: int| 0 <= k < final(self).last_offers().len() ==> *#[trigger] final(self).last_offers()[k] == event,
    {
        let ghost original = event;
        let event = Arc::new(event);
        let ghost mut offers: Seq<Arc<E>> = Seq::empty();
        let ghost ids = self.peer_ids();
        let mut rest: Vec<(SystemId, Sender<Arc<E>>)> = Vec::new();
        std::mem::swap(&mut rest, &mut self.peers);
        let ghost all = rest@;
        assert(ids =~= all.map_values(|p: (SystemId, Sender<Arc<E>>)| p.0));
        let ghost mut round: Seq<(SystemId, SendOutcome)> = Seq::empty();
        let n = rest.len();
        let mut i: usize = 0;
        while i < n
            invariant
                i <= n,
                n == all.len(),
                ids.len() == n,
                forall|m: int| 0 <= m < n ==> #[trigger] ids[m] == all[m].0,
                rest@ == all.subrange(i as int, n as int),
                self.id == old(self).id,
                self.listner == old(self).listner,
                round_ids(round) == without(ids.subrange(0, i as int), self.id),
                self.peer_ids() == survivors(ids.subrange(0, i as int), self.id, round),
                *event == original,
                offers.len() == round.len(),
                forall|k: int| 0 <= k < offers.len() ==> *#[trigger] offers[k] == original,
            decreases n - i,
        {
            let (pid, tx) = rest.remove(0);
            assert(ids.subrange(0, i + 1).drop_last() =~= ids.subrange(0, i as int));
            assert(ids.subrange(0, i + 1).last() == pid);
            assert(rest@ =~= all.subrange(i + 1, n as int));
            let ghost before = self.peers@;
            if pid == self.id {
                self.peers.push((pid, tx));
                assert(self.peers@.map_values(|p: (SystemId, Sender<Arc<E>>)| p.0)
                    =~= before.map_values(|p: (SystemId, Sender<Arc<E>>)| p.0).push(pid));
            } else {
                let (outcome, handed) = try_enqueue(&tx, share(&event));
                let ghost old_round = round;
                proof {
                    offers = offers.push(handed@);
                    round = round.push((pid, outcome));
                    assert(round.drop_last() =~= old_round);
                    assert(round_ids(round) =~= round_ids(old_round).push(pid));
                }
                if outcome != SendOutcome::Disconnected {
                    self.peers.push((pid, tx));
                    assert(self.peers@.map_values(|p: (SystemId, Sender<Arc<E>>)| p.0)
                        =~= before.map_values(|p: (SystemId, Sender<Arc<E>>)| p.0).push(pid));
                }
            }
            i = i + 1;
        }
        assert(ids.subrange(0, n as int) =~= ids);
        proof {
            self.round = Ghost(round);
            self.offers = Ghost(offers);
            lemma_survivors_distinct(ids, self.id, round);
        }
    }

    /// Sends `event` to each system of `peer_ids` that this handle can reach,
    /// in order. A system whose queue is gone is no longer reached; a full
    /// queue drops the event.
    pub fn send_to(&mut self, event: E, peer_ids: Vec<SystemId>)
        requires
            old(self).wf(),
        ensures
            final(self).wf(),
            final(self).owner() == old(self).owner(),
            final(self).has_listener() == old(self).has_listener(),
            routing(old(self).peer_ids(), peer_ids@, final(self).last_round())
                == (final(self).peer_ids(), round_ids(final(self).last_round())),
            final(self).last_offers().len() == final(self).last_round().len(),
            forall|k: int| 0 <= k < final(self).last_offers().len() ==> *#[trigger] final(self).last_offers()[k] == event,
    {
        let ghost original = event;
        let event = Arc::new(event);
        let ghost mut offers: Seq<Arc<E>> = Seq::empty();
        let ghost ids = self.peer_ids();
        let ghost mut round: Seq<(SystemId, SendOutcome)> = Seq::empty();
        let n = peer_ids.len();
        let mut i: usize = 0;
        while i < n
            invariant
                i <= n,
                n == peer_ids.len(),
                self.wf(),
                self.id == old(self).id,
                self.listner == old(self).listner,
                ids == old(self).peer_ids(),
                *event == original,
                offers.len() == round.len(),
                forall|k: int| 0 <= k < offers.len() ==> *#[trigger] offers[k] == original,
                forall|rest: Seq<(SystemId, SendOutcome)>|
                    #[trigger] routing(ids, peer_ids@.subrange(0, i as int), round + rest)
                        == (self.peer_ids(), round_ids(round)),
            decreases n - i,
        {
            let r = peer_ids[i];
            let ghost reqs = peer_ids@.subrange(0, i + 1);
            assert(reqs.drop_last() =~= peer_ids@.subrange(0, i as int));
            assert(reqs.last() == r);
            let mut found: Option<usize> = None;
            let mut k: usize = 0;
            while k < self.peers.len()
                invariant
                    k <= self.peers.len(),
                    found is None ==> forall|m: int| 0 <= m < k ==> self.peer_ids()[m] != r,
                    found matches Some(f) ==> f < self.peers.len() && self.peer_ids()[f as int] == r,
                decreases self.peers.len() - k,
            {
                if found.is_none() && self.peers[k].0 == r {
                    found = Some(k);
                }
                k = k + 1;
            }
            let ghost before = self.peer_ids();
            let ghost old_round = round;
            match found {
                None => {
                    assert(!before.contains(r));
                    assert forall|rest: Seq<(SystemId, SendOutcome)>|
                        #[trigger] routing(ids, reqs, round + rest) == (self.peer_ids(), round_ids(round)) by {
                        assert(routing(ids, reqs.drop_last(), round + rest) == (before, round_ids(round)));
                    }
                },
                Some(f) => {
                    assert(before.contains(r)) by { assert(before[f as int] == r); }
                    let (outcome, handed) = try_enqueue(&self.peers[f].1, share(&event));
                    proof {
                        offers = offers.push(handed@);
                        round = round.push((r, outcome));
                        assert(round_ids(round) =~= round_ids(old_round).push(r));
                    }
                    if outcome == SendOutcome::Disconnected {
                        let _gone = self.peers.remove(f);
                        proof {
                            lemma_remove_is_without(before, f as int);
                            assert(self.peer_ids() =~= before.remove(f as int));
                            assert forall|a: int, b: int| 0 <= a < b < self.peer_ids().len()
                                implies self.peer_ids()[a] != self.peer_ids()[b] by {
                                let a2 = if a < f { a } else { a + 1 };
                                let b2 = if b < f { b } else { b + 1 };
                                assert(self.peer_ids()[a] == before[a2]);
                                assert(self.peer_ids()[b] == before[b2]);
                            }
                        }
                    }
                    assert forall|rest: Seq<(SystemId, SendOutcome)>|
                        #[trigger] routing(ids, reqs, round + rest) == (self.peer_ids(), round_ids(round)) by {
                        let rest2 = seq![(r, outcome)] + rest;
                        assert(old_round + rest2 =~= round + rest);
                        assert(routing(ids, reqs.drop_last(), old_round + rest2) == (before, round_ids(old_round)));
                        assert((round + rest)[round_ids(old_round).len() as int] == (r, outcome));
                    }
                },
            }
            i = i + 1;
        }
        assert(peer_ids@.subrange(0, n as int) =~= peer_ids@);
        assert(round + Seq::<(SystemId, SendOutcome)>::empty() =~= round);
        proof {
            self.round = Ghost(round);
            self.offers = Ghost(offers);
        }
    }

    /// The receiving end of this system's queue, while the handle holds it.
    pub fn listner(&self) -> (r: Option<&Receiver<Arc<E>>>)
        ensures
            r is Some == self.has_listener(),
    {
        self.listner.as_ref()
    }

    /// Takes the receiving end of this system's queue out of the handle.
    pub fn take_listner(&mut self) -> (r: Option<Receiver<Arc<E>>>)
        ensures
            r is Some == old(self).has_listener(),
            !final(self).has_listener(),
            final(self).owner() == old(self).owner(),
            final(self).peer_ids() == old(self).peer_ids(),
            final(self).last_round() == old(self).last_round(),
            final(self).wf() == old(self).wf(),
    {
        self.listner.take()
    }

    /// The system the handle belongs to.
    pub fn id(&self) -> (r: SystemId)
        ensures
            r == self.owner(),
    {
        self.id
    }
}

/// The survivors of a broadcast are registered systems.
proof fn lemma_survivors_within(ids: Seq<SystemId>, me: SystemId, round: Seq<(SystemId, SendOutcome)>)
    ensures
        forall|k: int| 0 <= k < survivors(ids, me, round).len() ==> ids.contains(#[trigger] survivors(ids, me, round)[k]),
    decreases ids.len(),
{
    if ids.len() > 0 {
        let front = ids.drop_last();
        lemma_survivors_within(front, me, round);
        lemma_survivors_within(front, me, round.drop_last());
        assert forall|x: SystemId| front.contains(x) implies ids.contains(x) by {
            let m = choose|m: int| 0 <= m < front.len() && front[m] == x;
            assert(ids[m] == x);
        }
        assert forall|k: int| 0 <= k < survivors(ids, me, round).len()
            implies ids.contains(#[trigger] survivors(ids, me, round)[k]) by {
            let s = survivors(ids, me, round);
            let s0 = if ids.last() == me || !(round.len() > 0 && round.last().1 == SendOutcome::Disconnected) {
                if ids.last() == me { survivors(front, me, round) } else { survivors(front, me, round.drop_last()) }
            } else {
                survivors(front, me, round.drop_last())
            };
            if k < s0.len() {
                assert(s[k] == s0[k]);
                assert(front.contains(s0[k]));
            } else {
                assert(s[k] == ids.last());
                assert(ids[ids.len() - 1] == ids.last());
            }
        }
    }
}

/// The survivors of a broadcast among distinct ids are distinct.
proof fn lemma_survivors_distinct(ids: Seq<SystemId>, me: SystemId, round: Seq<(SystemId, SendOutcome)>)
    requires
        distinct_ids(ids),
    ensures
        distinct_ids(survivors(ids, me, round)),
    decreases ids.len(),
{
    if ids.len() > 0 {
        let front = ids.drop_last();
        assert(distinct_ids(front));
        lemma_survivors_distinct(front, me, round.drop_last());
        lemma_survivors_distinct(front, me, round);
        lemma_survivors_within(front, me, round.drop_last());
        lemma_survivors_within(front, me, round);
        assert(!front.contains(ids.last())) by {
            if front.contains(ids.last()) {
                let k = choose|k: int| 0 <= k < front.len() && front[k] == ids.last();
                assert(ids[k] == ids[ids.len() - 1]);
            }
        }
    }
}

impl<E> Clone for EventHandle<E> {
    /// Another handle of the same system, reaching the same systems through
    /// the same queues.
    fn clone(&self) -> (r: Self)
        ensures
            r.peer_ids() == self.peer_ids(),
            r.owner() == self.owner(),
            r.has_listener() == self.has_listener(),
            r.wf() == self.wf(),
    {
        let mut peers: Vec<(SystemId, Sender<Arc<E>>)> = Vec::new();
        let n = self.peers.len();
        let mut k: usize = 0;
        while k < n
            invariant
                k <= n,
                n == self.peers.len(),
                peers.len() == k,
                forall|m: int| 0 <= m < k ==> #[trigger] peers[m].0 == self.peers[m].0,
            decreases n - k,
        {
            peers.push((self.peers[k].0, clone_sender(&self.peers[k].1)));
            k = k + 1;
        }
        let listner = match &self.listner {
            Some(rx) => Some(clone_receiver(rx)),
            None => None,
        };
        let r = EventHandle { peers, listner, id: self.id, round: Ghost(self.round@), offers: Ghost(self.offers@) };
        assert(r.peer_ids() =~= self.peer_ids());
        r
    }
}

} // verus!
