use vstd::prelude::*;

use crate::chat_session::sat_add;
use crate::outcome::{DecodeError, Outcome, SessionError};

verus! {

/// A logical message of the game protocol.
#[derive(Clone, Debug)]
pub enum GameMessage {
    /// The handshake that opens a round.
    Start,
    /// The round is over, with its figures as seen by this player.
    Stop { ticks: u32, bullets_fired: u32, won: bool, error_msg: Option<String> },
    /// A shot; sent by the client at its cadence.
    Fire,
    /// The peer reports an error.
    Error { msg: String },
    /// Made locally, never sent over the wire.
    Timeout,
}

/// What a player's round reports when it ends normally.
#[derive(Clone, Copy, Debug, PartialEq, Eq, Structural)]
pub struct GameRecord {
    pub ticks: u32,
    pub bullets_fired: u32,
    pub won: bool,
    /// Role in the round: 1 or 2.
    pub player: usize,
}

/// Where a game session stands.
#[derive(Clone, Copy, Debug, PartialEq, Eq, Structural)]
pub enum GamePhase {
    /// Waiting for the first inbound message, which must be the start.
    Handshaking,
    /// Firing at its cadence until the round stops.
    Active,
    /// Ended with this outcome.
    Done(Outcome<GameRecord>),
}

/// Something that happened to a game session.
pub enum GameEvent {
    /// An inbound frame, decoded or not.
    Inbound(Result<GameMessage, DecodeError>),
    /// The fire cadence has elapsed since the last shot.
    FireDue,
    /// The hard time budget ran out.
    Deadline,
    /// The connection failed.
    Failure(SessionError),
}

/// What the driver of a game session does next.
#[derive(Clone, Copy, Debug, PartialEq, Eq, Structural)]
pub enum GameAction {
    /// Keep waiting for the next event.
    Wait,
    /// Send one fire message.
    SendFire,
    /// Stop: the session has its outcome.
    Finish,
}

/// One simulated game player.
#[derive(Clone, Copy, Debug)]
pub struct GameSession {
    /// Role in the round: 1 or 2.
    pub player: usize,
    /// Fire messages asked for so far.
    pub fired: u64,
    pub phase: GamePhase,
}

/// How long to wait before the next shot: the cadence less the time since
/// the last one, and never less than zero, so that the cadence does not
/// drift when a wake-up comes late.
pub fn fire_wait(cadence_ms: u64, since_last_ms: u64) -> (r: u64)
    ensures
        r == (if since_last_ms >= cadence_ms {
            0
        } else {
            cadence_ms - since_last_ms
        }),
{
    cadence_ms.saturating_sub(since_last_ms)
}

/// The state and action that follow `event` in the session of role
/// `player` at `phase`.
pub open spec fn game_step(phase: GamePhase, player: usize, event: GameEvent) -> (GamePhase, GameAction) {
    match phase {
        GamePhase::Done(_) => (phase, GameAction::Finish),
        GamePhase::Handshaking => match event {
            GameEvent::Inbound(Ok(GameMessage::Start)) => (GamePhase::Active, GameAction::Wait),
            GameEvent::Inbound(_) => (
                GamePhase::Done(Outcome::Error(SessionError::Handshake)),
                GameAction::Finish,
            ),
            GameEvent::FireDue => (phase, GameAction::Wait),
            GameEvent::Deadline => (GamePhase::Done(Outcome::Timeout), GameAction::Finish),
            GameEvent::Failure(e) => (GamePhase::Done(Outcome::Error(e)), GameAction::Finish),
        },
        GamePhase::Active => match event {
            GameEvent::Inbound(Ok(GameMessage::Stop { ticks, bullets_fired, won, .. })) => (
                GamePhase::Done(Outcome::Success(GameRecord { ticks, bullets_fired, won, player })),
                GameAction::Finish,
            ),
            GameEvent::Inbound(Ok(GameMessage::Error { .. })) => (
                GamePhase::Done(Outcome::Error(SessionError::Protocol)),
                GameAction::Finish,
            ),
            GameEvent::Inbound(Err(_)) => (
                GamePhase::Done(Outcome::Error(SessionError::Decode)),
                GameAction::Finish,
            ),
            GameEvent::Inbound(_) => (phase, GameAction::Wait),
            GameEvent::FireDue => (phase, GameAction::SendFire),
            GameEvent::Deadline => (GamePhase::Done(Outcome::Timeout), GameAction::Finish),
            GameEvent::Failure(e) => (GamePhase::Done(Outcome::Error(e)), GameAction::Finish),
        },
    }
}

impl GameSession {
    pub fn new(player: usize) -> (r: GameSession)
        ensures
            r.player == player,
            r.fired == 0,
            r.phase == GamePhase::Handshaking,
    {
        GameSession { player, fired: 0, phase: GamePhase::Handshaking }
    }

    /// Takes in one event and says what to do next. Before the start
    /// message, any other inbound message, or one that does not decode, ends
    /// the session with a handshake error and nothing is fired. Once active,
    /// each due shot asks for exactly one fire message; a stop ends it with
    /// success, an error message or an undecodable frame with an error; other
    /// messages are ignored. The deadline ends it with a timeout, and a
    /// connection failure with that error. An ended session stays as it is.
    pub fn step(&mut self, event: GameEvent) -> (r: GameAction)
        ensures
            final(self).player == old(self).player,
            final(self).phase == game_step(old(self).phase, old(self).player, event).0,
            r == game_step(old(self).phase, old(self).player, event).1,
            final(self).fired == (if r == GameAction::SendFire {
                sat_add(old(self).fired as nat, 1, u64::MAX as nat)
            } else {
                old(self).fired as nat
            }),
    {
        match self.phase {
            GamePhase::Done(_) => GameAction::Finish,
            GamePhase::Handshaking => match event {
                GameEvent::Inbound(Ok(GameMessage::Start)) => {
                    self.phase = GamePhase::Active;
                    GameAction::Wait
                },
                GameEvent::Inbound(_) => {
                    self.phase = GamePhase::Done(Outcome::Error(SessionError::Handshake));
                    GameAction::Finish
                },
                GameEvent::FireDue => GameAction::Wait,
                GameEvent::Deadline => {
                    self.phase = GamePhase::Done(Outcome::Timeout);
                    GameAction::Finish
                },
                GameEvent::Failure(e) => {
                    self.phase = GamePhase::Done(Outcome::Error(e));
                    GameAction::Finish
                },
            },
            GamePhase::Active => match event {
                GameEvent::Inbound(Ok(GameMessage::Stop { ticks, bullets_fired, won, .. })) => {
                    self.phase = GamePhase::Done(
                        Outcome::Success(GameRecord { ticks, bullets_fired, won, player: self.player }),
                    );
                    GameAction::Finish
                },
                GameEvent::Inbound(Ok(GameMessage::Error { .. })) => {
                    self.phase = GamePhase::Done(Outcome::Error(SessionError::Protocol));
                    GameAction::Finish
                },
                GameEvent::Inbound(Err(_)) => {
                    self.phase = GamePhase::Done(Outcome::Error(SessionError::Decode));
                    GameAction::Finish
                },
                GameEvent::Inbound(_) => GameAction::Wait,
                GameEvent::FireDue => {
                    self.fired = self.fired.saturating_add(1);
                    GameAction::SendFire
                },
                GameEvent::Deadline => {
                    self.phase = GamePhase::Done(Outcome::Timeout);
                    GameAction::Finish
                },
                GameEvent::Failure(e) => {
                    self.phase = GamePhase::Done(Outcome::Error(e));
                    GameAction::Finish
                },
            },
        }
    }

    /// The session's outcome once it has ended.
    pub fn outcome(&self) -> (r: Option<Outcome<GameRecord>>)
        ensures
            r == (match self.phase {
                GamePhase::Done(o) => Some(o),
                _ => None::<Outcome<GameRecord>>,
            }),
    {
        match self.phase {
            GamePhase::Done(o) => Some(o),
            _ => None,
        }
    }
}

} // verus!
