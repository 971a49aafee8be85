//! The per-player session: which step comes next, given what the server sent.
//!
//! The caller owns the connection. It hands each event to the session and
//! carries out the reaction that comes back.
use vstd::prelude::*;

use crate::direction::{compass_direction, direction_from_angle, RelativeDirection};
use crate::error::DecodeError;
use crate::navigation::{decide, move_player, Decision};
use crate::protocol::{ActionError, Hint, ServerPayload};
use crate::radar::{decoder, radar_spec};

verus! {

/// Where a session stands.
#[derive(Clone, Copy, Debug, PartialEq, Eq, Structural)]
pub enum SessionState {
    /// The subscription request is sent; its answer is awaited.
    Subscribing,
    /// Waiting for the next server message.
    Awaiting,
    /// Finished; the connection is to be released.
    Closed,
}

/// Something for the display to show; the session goes on.
#[derive(Clone, Copy, Debug, PartialEq, Eq, Structural)]
pub enum Notice {
    Hint(Hint),
    ActionError(ActionError),
    DecodeFailed(DecodeError),
}

/// Why a session ended without reaching the exit.
#[derive(Clone, Debug, PartialEq, Eq)]
pub enum SessionFailure {
    /// The server refused the subscription, with its message.
    Refused(String),
    /// A message that could not be parsed, as received.
    Protocol(Vec<u8>),
    /// The connection failed or closed.
    Connection,
}

/// What the caller does after an event.
#[derive(Clone, Debug, PartialEq, Eq)]
pub enum Reaction {
    /// Nothing to send: wait for the next message.
    Wait,
    /// Send this move, then wait for the next message.
    Move(RelativeDirection),
    /// Show this, then wait for the next message.
    Report(Notice),
    /// The exit is reached: the session ends successfully.
    Success,
    /// The session ends with this failure.
    Failure(SessionFailure),
}

/// The state of a session as the contracts speak of it.
pub ghost struct SessionView {
    pub state: SessionState,
    pub last_hint: Option<RelativeDirection>,
}

/// State machine of one player's session.
pub struct PlayerSession {
    state: SessionState,
    last_hint: Option<RelativeDirection>,
}

impl View for PlayerSession {
    type V = SessionView;

    closed spec fn view(&self) -> SessionView {
        SessionView { state: self.state, last_hint: self.last_hint }
    }
}

/// The stored hint after `h`: a compass hint replaces it, other hints leave it.
pub open spec fn hint_after(last: Option<RelativeDirection>, h: Hint) -> Option<
    RelativeDirection,
> {
    match h {
        Hint::RelativeCompass { angle } => Some(compass_direction(angle as int)),
        _ => last,
    }
}

impl PlayerSession {
    /// A session whose subscription request has just been sent.
    pub fn new() -> (r: PlayerSession)
        ensures
            r@ == (SessionView { state: SessionState::Subscribing, last_hint: None }),
    {
        PlayerSession { state: SessionState::Subscribing, last_hint: None }
    }

    pub fn state(&self) -> (r: SessionState)
        ensures
            r == self@.state,
    {
        self.state
    }

    /// The direction of the latest compass hint, if any came.
    pub fn last_hint(&self) -> (r: Option<RelativeDirection>)
        ensures
            r == self@.last_hint,
    {
        self.last_hint
    }

    /// The server answered the subscription: `Ok` to accept it, `Err` with
    /// its message to refuse it.
    pub fn on_subscription(&mut self, answer: Result<(), String>) -> (r: Reaction)
        requires
            old(self)@.state == SessionState::Subscribing,
        ensures
            answer is Ok ==> r == Reaction::Wait && final(self)@ == (SessionView {
                state: SessionState::Awaiting,
                ..old(self)@
            }),
            answer matches Err(m) ==> (r matches Reaction::Failure(SessionFailure::Refused(n))
                && n@ == m@ && final(self)@ == (SessionView {
                state: SessionState::Closed,
                ..old(self)@
            })),
    {
        match answer {
            Ok(()) => {
                self.state = SessionState::Awaiting;
                Reaction::Wait
            },
            Err(m) => {
                self.state = SessionState::Closed;
                Reaction::Failure(SessionFailure::Refused(m))
            },
        }
    }

    /// A message of the per-turn stream arrived.
    ///
    /// A radar view is decoded and answered with a move, or ends the session
    /// when the player stands on the exit; a view that does not decode is
    /// reported and the turn skipped. A compass hint is stored for the
    /// following turns. Every hint and action error is reported.
    pub fn on_payload(&mut self, payload: ServerPayload) -> (r: Reaction)
        requires
            old(self)@.state == SessionState::Awaiting,
        ensures
            match payload {
                ServerPayload::RadarView(s) => match radar_spec(s@) {
                    Err(e) => r == Reaction::Report(Notice::DecodeFailed(e)) && final(self)@
                        == old(self)@,
                    Ok(g) => match decide(g, old(self)@.last_hint) {
                        Decision::ExitReached => r == Reaction::Success && final(self)@ == (
                        SessionView { state: SessionState::Closed, ..old(self)@ }),
                        Decision::Move(d) => r == Reaction::Move(d) && final(self)@ == old(
                            self,
                        )@,
                    },
                },
                ServerPayload::Hint(h) => r == Reaction::Report(Notice::Hint(h)) && final(self)@
                    == (SessionView {
                    last_hint: hint_after(old(self)@.last_hint, h),
                    ..old(self)@
                }),
                ServerPayload::ActionError(e) => r == Reaction::Report(Notice::ActionError(e))
                    && final(self)@ == old(self)@,
            },
    {
        match payload {
            ServerPayload::RadarView(s) => match decoder(s.as_str()) {
                Err(e) => Reaction::Report(Notice::DecodeFailed(e)),
                Ok(grid) => match move_player(&grid, self.last_hint) {
                    Decision::ExitReached => {
                        self.state = SessionState::Closed;
                        Reaction::Success
                    },
                    Decision::Move(d) => Reaction::Move(d),
                },
            },
            ServerPayload::Hint(h) => {
                if let Hint::RelativeCompass { angle } = h {
                    self.last_hint = Some(direction_from_angle(angle));
                }
                Reaction::Report(Notice::Hint(h))
            },
            ServerPayload::ActionError(e) => Reaction::Report(Notice::ActionError(e)),
        }
    }

    /// A message could not be parsed: the stream cannot be resynchronised,
    /// so the session ends. `raw` is the message as received.
    pub fn on_malformed(&mut self, raw: Vec<u8>) -> (r: Reaction)
        ensures
            r matches Reaction::Failure(SessionFailure::Protocol(b)) && b@ == raw@,
            final(self)@ == (SessionView { state: SessionState::Closed, ..old(self)@ }),
    {
        self.state = SessionState::Closed;
        Reaction::Failure(SessionFailure::Protocol(raw))
    }

    /// The connection failed or closed: the session ends.
    pub fn on_connection_lost(&mut self) -> (r: Reaction)
        ensures
            r == Reaction::Failure(SessionFailure::Connection),
            final(self)@ == (SessionView { state: SessionState::Closed, ..old(self)@ }),
    {
        self.state = SessionState::Closed;
        Reaction::Failure(SessionFailure::Connection)
    }
}

} // verus!
