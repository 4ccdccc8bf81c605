//! Per-connection session state: the single busy/idle gate that ensures at
//! most one chat turn is in flight per connection at any instant.

use vstd::prelude::*;

verus! {

/// The mutable state of one connection's session, created when the
/// connection is established and destroyed when it closes. The busy flag is
/// true for the entire interval between accepting a `StartChat` and
/// emitting that turn's terminal frame.
///
/// No other component may read or write the flag directly: the only
/// operations are [`try_begin`](Self::try_begin) and [`end`](Self::end).
/// The holder must serialize access to the session (the connection handler
/// keeps it behind a mutual-exclusion guard), so that the check-and-set in
/// [`try_begin`](Self::try_begin) is indivisible with respect to concurrent
/// callers.
#[derive(Debug)]
pub struct SessionState {
    /// Whether the chat assistant is currently busy with a turn.
    chat_busy: bool,
}

impl SessionState {
    /// Whether a chat turn is currently in flight.
    pub closed spec fn busy(&self) -> bool {
        self.chat_busy
    }

    /// Create the session for a newly established connection: idle.
    pub fn new() -> (s: SessionState)
        ensures
            !s.busy(),
    {
        SessionState { chat_busy: false }
    }

    /// Check the busy flag and set it in one operation: if the session is
    /// idle, become busy and grant the turn; if it is already busy, refuse
    /// and leave the state unchanged.
    pub fn try_begin(&mut self) -> (granted: bool)
        ensures
            granted == !old(self).busy(),
            final(self).busy(),
            !granted ==> *final(self) == *old(self),
    {
        if self.chat_busy {
            false
        } else {
            self.chat_busy = true;
            true
        }
    }

    /// Return the session to idle unconditionally. Called exactly once per
    /// turn that was begun, whatever its outcome.
    pub fn end(&mut self)
        ensures
            !final(self).busy(),
    {
        self.chat_busy = false;
    }
}

impl Default for SessionState {
    /// The session of a fresh connection: idle.
    fn default() -> (s: SessionState)
        ensures
            !s.busy(),
    {
        SessionState::new()
    }
}

} // verus!
