//! The session state machine: per-connection identity, handshake
//! validation, the strict one-request-at-a-time exchange discipline, and
//! the bounded reconnect policy.
//!
//! The socket itself lives outside this crate. The session records what the
//! protocol requires of it: its lifecycle (`Unconnected`, then `Connected`
//! once a socket is open, then `Ready` once the handshake reply checked
//! out, or `Broken`), the identifier generated once and kept across
//! reconnects, and whether a request is in flight. The caller performs the
//! socket work and feeds the observed outcomes back in.

use vstd::prelude::*;

use crate::commands::Command;
use crate::commands::ExecutionMode;
use crate::errors::CommandStreamError;
use crate::errors::StreamError;
use crate::values::ScalarValue;
use crate::values::SpecScalar;
use vstd::string::StringExecFns;

verus! {

/// The lifecycle of a session's connection.
#[derive(Debug, Clone, Copy, PartialEq, Eq)]
pub enum SessionState {
    /// No socket has been opened yet.
    Unconnected,
    /// A socket is open; the handshake has not been validated.
    Connected,
    /// The handshake reply checked out; commands may be exchanged.
    Ready,
    /// A fatal fault: the session is unusable until a reconnect.
    Broken,
}

/// One protocol session: an identifier generated once, the execution mode
/// announced in its handshake, its connection lifecycle, and the exchange
/// discipline flag.
#[derive(Debug, Clone, PartialEq)]
pub struct Session {
    /// The session identifier, stable across reconnects.
    pub id: String,
    /// The execution mode this session announces in its handshake.
    pub mode: ExecutionMode,
    /// Where the connection stands.
    pub state: SessionState,
    /// Whether a request has been sent whose reply was not yet read:
    /// strict request/response, no pipelining.
    pub in_flight: bool,
}

/// Relies on `uuid::Uuid::new_v4` and its `Display`: a fresh random
/// version-4 UUID rendered in the hyphenated form, which spans exactly 36
/// characters. Nothing else holds of the value: it is random.
#[verifier::external_body]
fn fresh_id() -> (r: String)
    ensures
        r@.len() == 36,
{
    uuid::Uuid::new_v4().to_string()
}

/// Whether some of the first `max` recorded connect attempts succeeds.
pub open spec fn succeeds_within(outcomes: Seq<bool>, max: int) -> bool {
    exists|i: int| 0 <= i < max && i < outcomes.len() && outcomes[i]
}

/// A connect sequence that fails exactly `k` times and then succeeds
/// reaches a connection within budget exactly when `k` is below it.
///
/// Law: the reconnect budget. Combined with [`Session::reconnect`], a
/// connect function failing `k < max_tries` times then succeeding makes
/// the reconnect succeed with the identifier unchanged, and `k >=
/// max_tries` failures exhaust the budget, a connection fault.
pub proof fn lemma_reconnect_budget(outcomes: Seq<bool>, k: int, max: int)
    requires
        0 <= k < outcomes.len(),
        forall|j: int| 0 <= j < k ==> !outcomes[j],
        outcomes[k],
    ensures
        succeeds_within(outcomes, max) <==> k < max,
{
    if k < max {
        assert(succeeds_within(outcomes, max));
    }
    if succeeds_within(outcomes, max) {
        let i = choose|i: int| 0 <= i < max && i < outcomes.len() && outcomes[i];
        if i < k {
            assert(!outcomes[i]);
        }
    }
}

impl Session {
    /// A fresh, unconnected session in the given mode, with a
    /// newly-generated identifier.
    pub fn new(mode: ExecutionMode) -> (r: Session)
        ensures
            r.state is Unconnected,
            r.mode == mode,
            !r.in_flight,
            r.id@.len() == 36,
    {
        Session { id: fresh_id(), mode, state: SessionState::Unconnected, in_flight: false }
    }

    /// Records that a socket was opened (first connect, or the swap-in of
    /// a fresh socket during reconnect). The identifier is untouched.
    pub fn on_connected(&mut self)
        requires
            old(self).state is Unconnected || old(self).state is Broken,
        ensures
            final(self).state is Connected,
            final(self).id == old(self).id,
            final(self).mode == old(self).mode,
            !final(self).in_flight,
    {
        self.state = SessionState::Connected;
        self.in_flight = false;
    }

    /// The handshake request this session must send once connected: its
    /// identifier and its execution mode.
    pub fn handshake_request(&self) -> (r: Command)
        requires
            self.state is Connected,
        ensures
            (r matches Command::HANDSHAKE { client_id, execution_mode } && client_id@ == self.id@
                && execution_mode == self.mode),
    {
        Command::HANDSHAKE { client_id: self.id.clone(), execution_mode: self.mode }
    }

    /// Validates the handshake reply: exactly the scalar string `OK`
    /// readies the session; any other value (null, an error string, a
    /// mismatched type) is a fatal handshake fault carrying the unexpected
    /// value, and the session is left broken, unusable for exchanges.
    pub fn handshake_reply(&mut self, reply: ScalarValue) -> (r: Result<(), CommandStreamError>)
        requires
            old(self).state is Connected,
        ensures
            final(self).id == old(self).id,
            final(self).mode == old(self).mode,
            !final(self).in_flight,
            (if reply@ matches SpecScalar::Str(s) && s == "OK"@ {
                r is Ok && final(self).state is Ready
            } else {
                (r matches Err(e) && e matches CommandStreamError::HandshakeError(v) && v@
                    == reply@) && final(self).state is Broken
            }),
    {
        self.in_flight = false;
        let ok = match &reply {
            ScalarValue::VStr(s) => {
                let expected = String::from_str("OK");
                *s == expected
            },
            _ => false,
        };
        if ok {
            self.state = SessionState::Ready;
            Ok(())
        } else {
            self.state = SessionState::Broken;
            Err(CommandStreamError::HandshakeError(reply))
        }
    }

    /// Marks a request as sent: legal only on a ready session with no
    /// reply outstanding, so requests and replies strictly alternate.
    pub fn begin_exchange(&mut self)
        requires
            old(self).state is Ready,
            !old(self).in_flight,
        ensures
            *final(self) == (Session { in_flight: true, ..*old(self) }),
    {
        self.in_flight = true;
    }

    /// Marks the outstanding reply as read.
    pub fn end_exchange(&mut self)
        requires
            old(self).in_flight,
        ensures
            *final(self) == (Session { in_flight: false, ..*old(self) }),
    {
        self.in_flight = false;
    }

    /// Records a fatal I/O fault: the session is broken until a reconnect.
    pub fn on_io_failure(&mut self)
        ensures
            final(self).state is Broken,
            final(self).id == old(self).id,
            final(self).mode == old(self).mode,
            !final(self).in_flight,
    {
        self.state = SessionState::Broken;
        self.in_flight = false;
    }

    /// Runs the bounded reconnect policy over the recorded outcome of each
    /// connect attempt, in order: attempts stop at the first success, whose
    /// index is returned, or when the budget of `max_tries` attempts is
    /// spent. On success the session is connected again, awaiting its
    /// re-handshake; on exhaustion it is broken. The identifier is
    /// preserved either way, so the server can correlate the session
    /// across the reconnect.
    pub fn reconnect(&mut self, outcomes: &Vec<bool>, max_tries: u64) -> (r: Result<
        u64,
        StreamError,
    >)
        ensures
            final(self).id == old(self).id,
            final(self).mode == old(self).mode,
            !final(self).in_flight,
            (if succeeds_within(outcomes@, max_tries as int) {
                (r matches Ok(k) && k < max_tries && k < outcomes@.len() && outcomes@[k as int]
                    && (forall|j: int| 0 <= j < k ==> !outcomes@[j])) && final(self).state
                    is Connected
            } else {
                (r matches Err(e) && e matches StreamError::ConnectionError(m) && m@
                    == "failed to reconnect"@) && final(self).state is Broken
            }),
    {
        self.in_flight = false;
        let mut tries: u64 = 0;
        while tries < max_tries && tries < outcomes.len() as u64
            invariant
                tries <= max_tries,
                tries <= outcomes@.len(),
                forall|j: int| 0 <= j < tries ==> !outcomes@[j],
                self.id == old(self).id,
                self.mode == old(self).mode,
                self.state == old(self).state,
                !self.in_flight,
            decreases max_tries - tries,
        {
            let idx = tries as usize;
            if outcomes[idx] {
                self.state = SessionState::Connected;
                proof {
                    assert(succeeds_within(outcomes@, max_tries as int));
                }
                return Ok(tries);
            }
            tries = tries + 1;
        }
        self.state = SessionState::Broken;
        proof {
            if succeeds_within(outcomes@, max_tries as int) {
                let i = choose|i: int|
                    0 <= i < max_tries && i < outcomes@.len() && outcomes@[i];
                assert(!outcomes@[i]);
            }
        }
        Err(StreamError::ConnectionError(String::from_str("failed to reconnect")))
    }
}

} // verus!
