//! The single connection of a network handler: a new peer replaces the
//! current one only when the current one has gone quiet.

use vstd::prelude::*;

verus! {

/// How long, in seconds, a connection may stay silent before a new peer may
/// take its place.
pub const TIMEOUT_SECS: u64 = 10;

/// The connection of a network handler, if any.
pub struct Link<C> {
    connection: Option<C>,
}

impl<C> Link<C> {
    /// The current connection.
    pub closed spec fn current(&self) -> Option<C> {
        self.connection
    }

    /// No connection.
    pub fn new() -> (l: Self)
        ensures
            l.current() is None,
    {
        Link { connection: None }
    }

    /// A peer was accepted. It becomes the connection when there is none or
    /// the current one has been silent for longer than the timeout; otherwise
    /// the current connection stays and the new peer is ignored. Says whether
    /// the new peer was taken.
    pub fn on_accepted(&mut self, new: C, current_stale: bool) -> (taken: bool)
        ensures
            taken == (old(self).current() is None || current_stale),
            taken ==> final(self).current() == Some(new),
            !taken ==> final(self).current() == old(self).current(),
    {
        if self.connection.is_none() || current_stale {
            self.connection = Some(new);
            true
        } else {
            false
        }
    }

    /// A connection that this side opened succeeded: it becomes the
    /// connection.
    pub fn on_connected(&mut self, new: C)
        ensures
            final(self).current() == Some(new),
    {
        self.connection = Some(new);
    }

    /// The peer went away, or setting up its connection failed.
    pub fn drop_connection(&mut self)
        ensures
            final(self).current() is None,
    {
        self.connection = None;
    }

    /// The connection, to handle a packet on it; `None` when a packet came
    /// while there is no connection.
    pub fn connection_mut(&mut self) -> (r: Option<&mut C>)
        ensures
            r is Some == old(self).current() is Some,
            r matches Some(c) ==> *c == old(self).current()->0 && final(self).current() == Some(*final(c)),
            r is None ==> final(self).current() == old(self).current(),
    {
        self.connection.as_mut()
    }

    /// The connection.
    pub fn connection(&self) -> (r: Option<&C>)
        ensures
            r is Some == self.current() is Some,
            r matches Some(c) ==> *c == self.current()->0,
    {
        self.connection.as_ref()
    }
}

} // verus!
