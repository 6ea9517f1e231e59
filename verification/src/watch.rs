//! The watch subscription state machine: a session opened in watch mode,
//! registered against one key, streaming pushed updates until it ends, and
//! torn down with exactly one best-effort unwatch request.
//!
//! The blocking reads happen outside this crate; each decoded frame or
//! observed fault is fed back in. The end of the stream keeps a typed
//! reason, so a clean close and an error end stay distinguishable.

use vstd::prelude::*;

use crate::commands::Command;
use crate::commands::ExecutionMode;
use crate::errors::CommandStreamError;
use crate::session::Session;
use crate::session::SessionState;
use crate::values::ScalarValue;
use vstd::string::StringExecFns;

verus! {

/// The lifecycle of a watch subscription.
#[derive(Debug, Clone, Copy, PartialEq, Eq)]
pub enum WatchState {
    /// Connected in watch mode; the handshake has not been validated.
    Created,
    /// The watch-mode handshake checked out.
    HandshakeOk,
    /// The watch registration succeeded; updates may arrive.
    Registered,
    /// At least one update was pulled.
    Streaming,
    /// The subscription is over; no request may be issued on it again.
    Closed,
}

/// Why a watch stream stopped yielding updates.
#[derive(Debug, Clone, Copy, PartialEq, Eq)]
pub enum WatchEnd {
    /// A read on the subscription's socket failed.
    ReadFailed,
    /// A frame arrived but did not decode as a watch event.
    DecodeFailed,
    /// The subscription was torn down deliberately.
    TornDown,
}

/// A watch subscription: a session of its own in watch mode, the
/// fingerprint it registered (the watched key), its lifecycle, and the
/// typed reason its stream ended, once it has.
#[derive(Debug, Clone, PartialEq)]
pub struct WatchStream {
    /// The dedicated watch-mode session; watch traffic never shares a
    /// connection with command traffic.
    pub session: Session,
    /// The watched key, set once registration succeeds and never cleared.
    pub fingerprint: Option<String>,
    /// Where the subscription stands.
    pub state: WatchState,
    /// Why the stream ended, once it has.
    pub end_reason: Option<WatchEnd>,
    /// Whether the teardown step already ran: it runs at most once.
    pub torn_down: bool,
}

impl WatchStream {
    /// A fresh watch subscription over a newly-opened connection: its own
    /// session in watch mode, no fingerprint yet.
    pub fn new() -> (r: WatchStream)
        ensures
            r.state is Created,
            r.session.mode is Watch,
            r.session.state is Connected,
            r.fingerprint is None,
            r.end_reason is None,
            !r.torn_down,
            r.session.id@.len() == 36,
    {
        let mut session = Session::new(ExecutionMode::Watch);
        session.on_connected();
        WatchStream {
            session,
            fingerprint: None,
            state: WatchState::Created,
            end_reason: None,
            torn_down: false,
        }
    }

    /// The watch-mode handshake request for this subscription's session.
    pub fn handshake_request(&self) -> (r: Command)
        requires
            self.state is Created,
            self.session.state is Connected,
            self.session.mode is Watch,
        ensures
            (r matches Command::HANDSHAKE { client_id, execution_mode } && client_id@
                == self.session.id@ && execution_mode is Watch),
    {
        self.session.handshake_request()
    }

    /// Validates the handshake reply: only the scalar string `OK` moves
    /// the subscription on; anything else closes it, handshake fault
    /// surfaced.
    pub fn handshake_reply(&mut self, reply: ScalarValue) -> (r: Result<(), CommandStreamError>)
        requires
            old(self).state is Created,
            old(self).session.state is Connected,
        ensures
            final(self).fingerprint == old(self).fingerprint,
            final(self).session.id == old(self).session.id,
            final(self).torn_down == old(self).torn_down,
            (if reply@ matches crate::values::SpecScalar::Str(s) && s == "OK"@ {
                r is Ok && final(self).state is HandshakeOk && final(self).session.state is Ready
            } else {
                r is Err && final(self).state is Closed && final(self).session.state is Broken
            }),
    {
        match self.session.handshake_reply(reply) {
            Ok(()) => {
                self.state = WatchState::HandshakeOk;
                Ok(())
            },
            Err(e) => {
                self.state = WatchState::Closed;
                Err(e)
            },
        }
    }

    /// The registration request for the given key.
    pub fn registration_request(&self, key: &str) -> (r: Command)
        requires
            self.state is HandshakeOk,
        ensures
            (r matches Command::GETWATCH { key: k } && k@ == key@),
    {
        Command::GETWATCH { key: String::from_str(key) }
    }

    /// Records that the registration reply arrived: the fingerprint is set
    /// to the watched key, and stays set from here on.
    pub fn on_registered(&mut self, key: String)
        requires
            old(self).state is HandshakeOk,
        ensures
            final(self).state is Registered,
            (final(self).fingerprint matches Some(f) && f@ == key@),
            final(self).session == old(self).session,
            final(self).end_reason == old(self).end_reason,
            final(self).torn_down == old(self).torn_down,
    {
        self.fingerprint = Some(key);
        self.state = WatchState::Registered;
    }

    /// Records one successfully decoded update: the stream is live.
    pub fn on_event(&mut self)
        requires
            old(self).state is Registered || old(self).state is Streaming,
        ensures
            *final(self) == (WatchStream { state: WatchState::Streaming, ..*old(self) }),
    {
        self.state = WatchState::Streaming;
    }

    /// Records a failed read or a frame that did not decode: the stream
    /// ends silently with the typed reason kept for diagnostics, never
    /// surfaced to the consumer.
    pub fn on_stream_end(&mut self, reason: WatchEnd)
        requires
            old(self).state is Registered || old(self).state is Streaming,
        ensures
            *final(self) == (WatchStream {
                state: WatchState::Closed,
                end_reason: Some(reason),
                ..*old(self)
            }),
    {
        self.state = WatchState::Closed;
        self.end_reason = Some(reason);
    }

    /// The teardown step: issued when the subscription is dropped.
    /// Exactly when a fingerprint was registered and teardown has not run
    /// before, this yields the one UNWATCH request for that fingerprint —
    /// whatever came of the stream, since the unwatch is attempted on a
    /// best-effort basis even after an error end. Afterwards the
    /// subscription is torn down, so a second call can never yield
    /// another.
    pub fn teardown_request(&mut self) -> (r: Option<Command>)
        ensures
            final(self).state is Closed,
            final(self).torn_down,
            final(self).fingerprint == old(self).fingerprint,
            final(self).session.id == old(self).session.id,
            (match old(self).fingerprint {
                Some(f) => {
                    if old(self).torn_down {
                        r is None
                    } else {
                        r matches Some(c) && c matches Command::UNWATCH { key } && key@ == f@
                    }
                },
                None => r is None,
            }),
    {
        let already_torn = self.torn_down;
        self.torn_down = true;
        self.state = WatchState::Closed;
        if already_torn {
            return None;
        }
        match &self.fingerprint {
            Some(f) => Some(Command::UNWATCH { key: f.clone() }),
            None => None,
        }
    }
}

/// A subscription with a registered fingerprint that is still live yields
/// one teardown request, and a torn-down subscription never yields
/// another.
///
/// Law: watch teardown. Dropping a subscription with a non-empty
/// fingerprint issues exactly one UNWATCH for it, whatever came of the
/// stream, and no further teardown can issue a second.
pub proof fn lemma_teardown_once(
    before: WatchStream,
    mid: WatchStream,
    after: WatchStream,
    r1: Option<Command>,
    r2: Option<Command>,
)
    requires
        before.fingerprint is Some,
        !before.torn_down,
        teardown_shape(before, mid, r1),
        teardown_shape(mid, after, r2),
    ensures
        (r1 matches Some(c) && c matches Command::UNWATCH { key } && key@
            == before.fingerprint->Some_0@),
        r2 is None,
{
}

/// What one call of [`WatchStream::teardown_request`] guarantees, as a
/// relation between the states before and after and its result.
pub open spec fn teardown_shape(before: WatchStream, after: WatchStream, r: Option<Command>) -> bool {
    &&& after.state is Closed
    &&& after.torn_down
    &&& after.fingerprint == before.fingerprint
    &&& (match before.fingerprint {
        Some(f) => {
            if before.torn_down {
                r is None
            } else {
                r matches Some(c) && c matches Command::UNWATCH { key } && key@ == f@
            }
        },
        None => r is None,
    })
}

} // verus!
