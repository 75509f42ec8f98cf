//! The bookkeeping of the network worker: the tokens that name its sockets
//! and the table of connected peers that packets are sent to.

use vstd::prelude::*;
use crate::framing::Buffer;
use crate::peer::{packet_sent, NetError, Packet, Peer};
use crate::stream::{ByteWrite, WriteCall};

verus! {

/// The token of the worker's waker; no socket gets it.
pub const WAKER_TOKEN: usize = 0;

/// Hands out the tokens that name sockets, in increasing order.
pub struct TokenSource {
    next: usize,
}

impl TokenSource {
    /// The token handed out next.
    pub closed spec fn upcoming(&self) -> nat {
        self.next as nat
    }

    /// Every token still to come is past the waker's.
    pub closed spec fn wf(&self) -> bool {
        self.next > WAKER_TOKEN
    }

    /// The first token is the one after the waker's.
    pub fn new() -> (s: Self)
        ensures
            s.wf(),
            s.upcoming() == WAKER_TOKEN + 1,
    {
        TokenSource { next: WAKER_TOKEN + 1 }
    }

    /// A token no socket had before, or `None` when the tokens ran out. The
    /// waker's token is never handed out, and each token at most once: the
    /// tokens still to come are all larger.
    pub fn next_token(&mut self) -> (t: Option<usize>)
        requires
            old(self).wf(),
        ensures
            final(self).wf(),
            t matches Some(x) ==> x != WAKER_TOKEN && final(self).upcoming() > x,
            old(self).upcoming() < usize::MAX ==> t == Some(old(self).upcoming() as usize)
                && final(self).upcoming() == old(self).upcoming() + 1,
            old(self).upcoming() == usize::MAX ==> t is None && final(self).upcoming() == old(self).upcoming(),
    {
        if self.next == usize::MAX {
            return None;
        }
        let t = self.next;
        self.next = self.next + 1;
        Some(t)
    }
}

/// Whether the tokens are pairwise distinct.
pub open spec fn distinct_tokens(ts: Seq<usize>) -> bool {
    forall|i: int, j: int| 0 <= i < j < ts.len() ==> ts[i] != ts[j]
}

/// Whether log `after` is log `before` with one more entry at its end.
pub open spec fn one_more<T>(after: Seq<T>, before: Seq<T>) -> bool {
    after.len() == before.len() + 1 && after.take(before.len() as int) == before
}

/// Whether the last frame of `log` is the encoding of a copy of `packet`,
/// for a packet type that states its encoding.
pub open spec fn ends_with_copy<P: Packet + Clone>(log: Seq<Seq<u8>>, packet: P) -> bool {
    P::obeys_packet_spec() ==> exists|c: P| #[trigger] cloned::<P>(packet, c) && log.last() == c.encoding()
}

/// The connected peers of the worker, by token.
pub struct PeerTable<S> {
    entries: Vec<(usize, Peer<S>)>,
}

impl<S> PeerTable<S> {
    /// The tokens of the peers.
    pub closed spec fn tokens(&self) -> Seq<usize> {
        self.entries@.map_values(|e: (usize, Peer<S>)| e.0)
    }

    /// Whether a peer has `token`.
    pub open spec fn has(&self, token: usize) -> bool {
        self.tokens().contains(token)
    }

    /// The payloads of the frames accepted for the peer with `token`, oldest
    /// first; empty when no peer has it.
    pub closed spec fn frames_to(&self, token: usize) -> Seq<Seq<u8>> {
        if self.has(token) {
            self.entries@[choose|i: int| 0 <= i < self.tokens().len() && self.tokens()[i] == token].1.frames_sent()
        } else {
            Seq::empty()
        }
    }

    /// The frames for the peer at position `a` are that peer's.
    proof fn lemma_frames_at(&self, a: int)
        requires
            self.wf(),
            0 <= a < self.entries@.len(),
        ensures
            self.has(self.entries@[a].0),
            self.frames_to(self.entries@[a].0) == self.entries@[a].1.frames_sent(),
    {
        let t = self.entries@[a].0;
        assert(self.tokens()[a] == t);
        let i = choose|i: int| 0 <= i < self.tokens().len() && self.tokens()[i] == t;
        if i < a {
            assert(self.tokens()[i] != self.tokens()[a]);
        } else if a < i {
            assert(self.tokens()[a] != self.tokens()[i]);
        }
    }

    /// No token twice, and every peer consistent.
    pub closed spec fn wf(&self) -> bool {
        &&& distinct_tokens(self.tokens())
        &&& forall|i: int| 0 <= i < self.entries@.len() ==> (#[trigger] self.entries@[i]).1.wf()
    }

    /// No peers.
    pub fn new() -> (t: Self)
        ensures
            t.wf(),
            t.tokens() == Seq::<usize>::empty(),
    {
        let t = PeerTable { entries: Vec::new() };
        assert(t.tokens() =~= Seq::<usize>::empty());
        t
    }

    /// The position of `token`, if a peer has it.
    fn position(&self, token: usize) -> (r: Option<usize>)
        ensures
            r is Some == self.has(token),
            r matches Some(i) ==> i < self.entries@.len() && self.tokens()[i as int] == token,
    {
        let n = self.entries.len();
        let mut i: usize = 0;
        while i < n
            invariant
                i <= n,
                n == self.entries@.len(),
                forall|j: int| 0 <= j < i ==> self.tokens()[j] != token,
            decreases n - i,
        {
            if self.entries[i].0 == token {
                assert(self.tokens()[i as int] == token);
                return Some(i);
            }
            i = i + 1;
        }
        assert(!self.has(token)) by {
            if self.has(token) {
                let k = choose|k: int| 0 <= k < n && self.tokens()[k] == token;
            }
        }
        None
    }

    /// Whether a peer has `token`.
    pub fn contains(&self, token: usize) -> (r: bool)
        ensures
            r == self.has(token),
    {
        self.position(token).is_some()
    }

    /// Adds `peer` under `token`, in place of a peer that had it.
    pub fn insert(&mut self, token: usize, peer: Peer<S>)
        requires
            old(self).wf(),
            peer.wf(),
        ensures
            final(self).wf(),
            forall|t: usize| final(self).has(t) <==> (old(self).has(t) || t == token),
            final(self).frames_to(token) == peer.frames_sent(),
    {
        let ghost at: int;
        match self.position(token) {
            Some(i) => {
                let _old_peer = self.entries.remove(i);
                self.entries.insert(i, (token, peer));
                assert(self.tokens() =~= old(self).tokens());
                proof {
                    at = i as int;
                }
            },
            None => {
                self.entries.push((token, peer));
                assert(self.tokens() =~= old(self).tokens().push(token));
                proof {
                    at = old(self).entries@.len() as int;
                }
            },
        }
        assert(self.entries@[at] == (token, peer));
        assert forall|a: int, b: int| 0 <= a < b < self.tokens().len() implies self.tokens()[a] != self.tokens()[b] by {
            if b == old(self).tokens().len() {
                assert(old(self).tokens()[a] == self.tokens()[a]);
            }
        }
        assert forall|t: usize| self.has(t) <==> (old(self).has(t) || t == token) by {
            if self.tokens().len() > old(self).tokens().len() {
                assert(self.tokens() == old(self).tokens().push(token));
                assert(self.tokens()[old(self).tokens().len() as int] == token);
                if self.has(t) && t != token {
                    let k = choose|k: int| 0 <= k < self.tokens().len() && self.tokens()[k] == t;
                    assert(old(self).tokens()[k] == t);
                }
                if old(self).has(t) {
                    let k = choose|k: int| 0 <= k < old(self).tokens().len() && old(self).tokens()[k] == t;
                    assert(self.tokens()[k] == t);
                }
            }
        }
    }

    /// Takes the peer with `token` out of the table.
    pub fn take(&mut self, token: usize) -> (r: Option<Peer<S>>)
        requires
            old(self).wf(),
        ensures
            final(self).wf(),
            r is Some == old(self).has(token),
            r matches Some(p) ==> p.wf(),
            r matches Some(p) ==> p.frames_sent() == old(self).frames_to(token),
            forall|t: usize| final(self).has(t) <==> (old(self).has(t) && t != token),
    {
        match self.position(token) {
            Some(i) => {
                proof {
                    self.lemma_frames_at(i as int);
                }
                let ghost before = self.tokens();
                let (_t, peer) = self.entries.remove(i);
                assert(self.tokens() =~= before.remove(i as int));
                proof {
                    assert(old(self).entries@[i as int].1.wf());
                    assert forall|a: int| 0 <= a < self.entries@.len() implies (#[trigger] self.entries@[a]).1.wf() by {
                        if a < i {
                            assert(self.entries@[a] == old(self).entries@[a]);
                        } else {
                            assert(self.entries@[a] == old(self).entries@[a + 1]);
                        }
                    }
                    assert forall|a: int, b: int| 0 <= a < b < self.tokens().len() implies self.tokens()[a] != self.tokens()[b] by {
                        let a2 = if a < i { a } else { a + 1 };
                        let b2 = if b < i { b } else { b + 1 };
                        assert(self.tokens()[a] == before[a2]);
                        assert(self.tokens()[b] == before[b2]);
                    }
                    assert forall|t: usize| self.has(t) <==> (old(self).has(t) && t != token) by {
                        if self.has(t) {
                            let k = choose|k: int| 0 <= k < self.tokens().len() && self.tokens()[k] == t;
                            let k2 = if k < i { k } else { k + 1 };
                            assert(before[k2] == t);
                            assert(k2 != i);
                        }
                        if old(self).has(t) && t != token {
                            let k = choose|k: int| 0 <= k < before.len() && before[k] == t;
                            assert(k != i);
                            let k2 = if k < i { k } else { k - 1 };
                            assert(self.tokens()[k2] == t);
                        }
                    }
                }
                Some(peer)
            },
            None => None,
        }
    }

    /// Removes the peer with `token`; says whether there was one.
    pub fn remove(&mut self, token: usize) -> (r: bool)
        requires
            old(self).wf(),
        ensures
            final(self).wf(),
            r == old(self).has(token),
            forall|t: usize| final(self).has(t) <==> (old(self).has(t) && t != token),
    {
        self.take(token).is_some()
    }
}

impl<S: ByteWrite> PeerTable<S> {
    /// Sends `packet` to the peer with `token`. A peer that cannot be written
    /// to is dropped, and the error returned.
    pub fn send_packet<P: Packet>(&mut self, token: usize, packet: P, temp: &mut Buffer) -> (r: Result<(), NetError>)
        requires
            old(self).wf(),
        ensures
            final(self).wf(),
            !old(self).has(token) ==> (r matches Err(NetError::UnknownPeer(t)) && t == token),
            old(self).has(token) && r is Ok ==> forall|t: usize| final(self).has(t) <==> old(self).has(t),
            old(self).has(token) && r is Err ==> forall|t: usize| final(self).has(t) <==> (old(self).has(t) && t != token),
            !old(self).has(token) ==> forall|t: usize| final(self).has(t) <==> old(self).has(t),
            old(self).has(token) && r is Ok ==> exists|payload: Seq<u8>|
                #![trigger old(self).frames_to(token).push(payload)]
                (P::obeys_packet_spec() ==> payload == packet.encoding())
                && final(self).frames_to(token) == old(self).frames_to(token).push(payload),
    {
        let ghost encoded = packet.encoding();
        match self.take(token) {
            None => Err(NetError::UnknownPeer(token)),
            Some(mut peer) => {
                let ghost before = peer;
                let res = peer.write_packet(packet, temp);
                assert(exists|payload: Seq<u8>, calls: Seq<WriteCall>|
                    #![trigger packet_sent(before, peer, payload, calls, res)]
                    (P::obeys_packet_spec() ==> payload == encoded)
                    && packet_sent(before, peer, payload, calls, res));
                match res {
                    Ok(()) => {
                        let ghost payload = choose|payload: Seq<u8>, calls: Seq<WriteCall>|
                            #![trigger packet_sent(before, peer, payload, calls, res)]
                            (P::obeys_packet_spec() ==> payload == encoded)
                            && packet_sent(before, peer, payload, calls, res);
                        assert(before.frames_sent() == old(self).frames_to(token));
                        assert(peer.frames_sent() == before.frames_sent().push(payload.0));
                        self.insert(token, peer);
                        assert(self.frames_to(token) == old(self).frames_to(token).push(payload.0));
                        Ok(())
                    },
                    Err(e) => Err(e),
                }
            },
        }
    }

    /// Sends a copy of `packet` to every peer. The peers that cannot be
    /// written to are dropped; their tokens and errors are returned.
    pub fn broadcast<P: Packet + Clone>(&mut self, packet: P, temp: &mut Buffer) -> (failed: Vec<(usize, NetError)>)
        requires
            old(self).wf(),
        ensures
            final(self).wf(),
            forall|k: int| 0 <= k < failed.len() ==> old(self).has(#[trigger] failed[k].0),
            forall|t: usize| final(self).has(t) <==> (old(self).has(t)
                && !(exists|k: int| 0 <= k < failed.len() && #[trigger] failed[k].0 == t)),
            forall|t: usize| final(self).has(t) ==> one_more(#[trigger] final(self).frames_to(t), old(self).frames_to(t))
                && ends_with_copy(final(self).frames_to(t), packet),
    {
        let mut rest: Vec<(usize, Peer<S>)> = Vec::new();
        std::mem::swap(&mut rest, &mut self.entries);
        let ghost all = rest@;
        let ghost ts = all.map_values(|e: (usize, Peer<S>)| e.0);
        assert(ts =~= old(self).tokens());
        let mut failed: Vec<(usize, NetError)> = Vec::new();
        let n = rest.len();
        let mut i: usize = 0;
        while i < n
            invariant
                i <= n,
                n == all.len(),
                ts == all.map_values(|e: (usize, Peer<S>)| e.0),
                ts == old(self).tokens(),
                distinct_tokens(ts),
                forall|m: int| 0 <= m < n ==> (#[trigger] all[m]).1.wf(),
                rest@ == all.subrange(i as int, n as int),
                self.wf(),
                forall|k: int| #![trigger failed[k]] 0 <= k < failed.len() ==> exists|m: int| 0 <= m < i && #[trigger] ts[m] == failed[k].0,
                forall|t: usize| self.has(t) <==> ((exists|m: int| 0 <= m < i && #[trigger] ts[m] == t)
                    && !(exists|k: int| 0 <= k < failed.len() && #[trigger] failed[k].0 == t)),
                forall|a: int| 0 <= a < self.entries@.len() ==> exists|m: int| 0 <= m < i
                    && #[trigger] ts[m] == (#[trigger] self.entries@[a]).0
                    && one_more(self.entries@[a].1.frames_sent(), all[m].1.frames_sent()),
                forall|a: int| 0 <= a < self.entries@.len() ==> ends_with_copy((#[trigger] self.entries@[a]).1.frames_sent(), packet),
            decreases n - i,
        {
            let (token, mut peer) = rest.remove(0);
            assert(rest@ =~= all.subrange(i + 1, n as int));
            assert(all[i as int] == (token, peer));
            assert(ts[i as int] == token);
            let ghost before_failed = failed@;
            let ghost before_tokens = self.tokens();
            let ghost before_entries = self.entries@;
            assert forall|t: usize| before_tokens.contains(t) <==> ((exists|m: int| 0 <= m < i && #[trigger] ts[m] == t)
                && !(exists|k: int| 0 <= k < before_failed.len() && #[trigger] before_failed[k].0 == t)) by {
                assert(self.has(t) == before_tokens.contains(t));
            }
            assert(!self.has(token)) by {
                if self.has(token) {
                    let m = choose|m: int| 0 <= m < i && #[trigger] ts[m] == token;
                    assert(ts[m] == ts[i as int]);
                }
            }
            assert(forall|k: int| 0 <= k < failed.len() ==> #[trigger] failed[k].0 != token) by {
                assert forall|k: int| 0 <= k < failed.len() implies #[trigger] failed[k].0 != token by {
                    let m = choose|m: int| 0 <= m < i && #[trigger] ts[m] == failed[k].0;
                    assert(ts[m] != ts[i as int]);
                }
            }
            let ghost peer_before = peer;
            let copy = packet.clone();
            let ghost copied = copy;
            assert(cloned::<P>(packet, copied));
            let res = peer.write_packet(copy, temp);
            proof {
                let (payload, calls) = choose|payload: Seq<u8>, calls: Seq<WriteCall>|
                    #![trigger packet_sent(peer_before, peer, payload, calls, res)]
                    (P::obeys_packet_spec() ==> payload == copied.encoding())
                    && packet_sent(peer_before, peer, payload, calls, res);
                if res is Ok {
                    assert(peer.frames_sent() == peer_before.frames_sent().push(payload));
                    assert(ends_with_copy(peer.frames_sent(), packet));
                }
            }
            match res {
                Ok(()) => {
                    self.entries.push((token, peer));
                    assert forall|a: int| 0 <= a < self.entries@.len() implies
                        ends_with_copy((#[trigger] self.entries@[a]).1.frames_sent(), packet) by {
                        if a < before_entries.len() {
                            assert(self.entries@[a] == before_entries[a]);
                        }
                    }
                    assert forall|a: int| 0 <= a < self.entries@.len() implies exists|m: int| 0 <= m < i + 1
                        && #[trigger] ts[m] == (#[trigger] self.entries@[a]).0
                        && one_more(self.entries@[a].1.frames_sent(), all[m].1.frames_sent()) by {
                        if a < before_entries.len() {
                            assert(self.entries@[a] == before_entries[a]);
                            let m = choose|m: int| 0 <= m < i && #[trigger] ts[m] == before_entries[a].0
                                && one_more(before_entries[a].1.frames_sent(), all[m].1.frames_sent());
                            assert(ts[m] == self.entries@[a].0);
                        } else {
                            assert(self.entries@[a] == (token, peer));
                            assert(peer_before == all[i as int].1);
                            assert(peer.frames_sent().take(peer_before.frames_sent().len() as int) =~= peer_before.frames_sent());
                            assert(ts[i as int] == self.entries@[a].0);
                        }
                    }
                    assert(self.tokens() =~= before_tokens.push(token));
                    assert forall|a: int, b: int| 0 <= a < b < self.tokens().len() implies self.tokens()[a] != self.tokens()[b] by {
                        if b == before_tokens.len() {
                            assert(before_tokens.contains(before_tokens[a]));
                        }
                    }
                    assert forall|a: int| 0 <= a < self.entries@.len() implies (#[trigger] self.entries@[a]).1.wf() by {
                        if a < before_entries.len() {
                            assert(self.entries@[a] == before_entries[a]);
                        }
                    }
                    assert forall|t: usize| self.has(t) <==> ((exists|m: int| 0 <= m < i + 1 && #[trigger] ts[m] == t)
                        && !(exists|k: int| 0 <= k < failed.len() && #[trigger] failed[k].0 == t)) by {
                        if t == token {
                            assert(self.tokens()[before_tokens.len() as int] == token);
                            assert(ts[i as int] == t);
                        } else {
                            if self.has(t) {
                                let k = choose|k: int| 0 <= k < self.tokens().len() && self.tokens()[k] == t;
                                assert(k < before_tokens.len());
                                assert(before_tokens[k] == t);
                            }
                            if before_tokens.contains(t) {
                                let k = choose|k: int| 0 <= k < before_tokens.len() && before_tokens[k] == t;
                                assert(self.tokens()[k] == t);
                            }
                            if exists|m: int| 0 <= m < i + 1 && #[trigger] ts[m] == t {
                                let m = choose|m: int| 0 <= m < i + 1 && #[trigger] ts[m] == t;
                                assert(m < i);
                            }
                        }
                    }
                },
                Err(e) => {
                    failed.push((token, e));
                    assert forall|k: int| #![trigger failed[k]] 0 <= k < failed.len() implies exists|m: int| 0 <= m < i + 1 && #[trigger] ts[m] == failed[k].0 by {
                        if k < before_failed.len() {
                            assert(failed[k] == before_failed[k]);
                            let m = choose|m: int| 0 <= m < i && #[trigger] ts[m] == before_failed[k].0;
                        } else {
                            assert(ts[i as int] == failed[k].0);
                        }
                    }
                    assert forall|t: usize| self.has(t) <==> ((exists|m: int| 0 <= m < i + 1 && #[trigger] ts[m] == t)
                        && !(exists|k: int| 0 <= k < failed.len() && #[trigger] failed[k].0 == t)) by {
                        if t == token {
                            assert(failed[before_failed.len() as int].0 == t);
                        } else {
                            if exists|k: int| 0 <= k < failed.len() && #[trigger] failed[k].0 == t {
                                let k = choose|k: int| 0 <= k < failed.len() && #[trigger] failed[k].0 == t;
                                assert(k < before_failed.len());
                                assert(before_failed[k].0 == t);
                            }
                            if exists|k: int| 0 <= k < before_failed.len() && #[trigger] before_failed[k].0 == t {
                                let k = choose|k: int| 0 <= k < before_failed.len() && #[trigger] before_failed[k].0 == t;
                                assert(failed[k].0 == t);
                            }
                            if exists|m: int| 0 <= m < i + 1 && #[trigger] ts[m] == t {
                                let m = choose|m: int| 0 <= m < i + 1 && #[trigger] ts[m] == t;
                                assert(m < i);
                            }
                        }
                    }
                },
            }
            i = i + 1;
        }
        assert forall|t: usize| (exists|m: int| 0 <= m < n && #[trigger] ts[m] == t) <==> old(self).has(t) by {
            if old(self).has(t) {
                let m = choose|m: int| 0 <= m < ts.len() && ts[m] == t;
                assert(ts[m] == t);
            }
        }
        assert forall|k: int| 0 <= k < failed.len() implies old(self).has(#[trigger] failed[k].0) by {
            let m = choose|m: int| 0 <= m < n && #[trigger] ts[m] == failed[k].0;
        }
        assert(old(self).entries@ == all);
        assert forall|t: usize| self.has(t) implies one_more(#[trigger] self.frames_to(t), old(self).frames_to(t)) by {
            let a = choose|a: int| 0 <= a < self.tokens().len() && self.tokens()[a] == t;
            assert(self.entries@[a].0 == t);
            self.lemma_frames_at(a);
            let m = choose|m: int| 0 <= m < n && #[trigger] ts[m] == self.entries@[a].0
                && one_more(self.entries@[a].1.frames_sent(), all[m].1.frames_sent());
            assert(old(self).entries@[m].0 == t);
            old(self).lemma_frames_at(m);
        }
        failed
    }
}

} // verus!
