use loadgen::chat::message_frame;
use loadgen::chat_session::{assigned_rooms, room_slot, ChatPhase, ChatRecord, ChatSession};
use loadgen::game::{fire_wait, GameAction, GameEvent, GameMessage, GamePhase, GameRecord, GameSession};
use loadgen::outcome::{DecodeError, Outcome, SessionError};

#[test]
fn echo_counts_for_its_sender_only() {
    let mut s3 = ChatSession::new(3, 1);
    let mut s4 = ChatSession::new(4, 1);
    let echo = b"MSG room-0 3: hello room-0";
    s3.on_frame(echo);
    s4.on_frame(echo);
    assert_eq!(s3.received, 1);
    assert_eq!(s3.matched, 1);
    assert_eq!(s3.phase, ChatPhase::Completed);
    assert_eq!(s4.received, 1);
    assert_eq!(s4.matched, 0);
    assert_eq!(s4.phase, ChatPhase::Active);
}

#[test]
fn chat_session_succeeds_at_target() {
    let mut s = ChatSession::new(2, 2);
    s.on_frame(&message_frame(b"room-2", 2));
    assert!(!s.awaiting_reply(0));
    assert!(s.awaiting_reply(1));
    s.add_latency(5);
    s.on_frame(&message_frame(b"room-3", 7));
    s.on_frame(&message_frame(b"room-3", 2));
    s.add_latency(7);
    assert_eq!(s.outcome(), Outcome::Success(ChatRecord { elapsed_ms: 12, matched: 2 }));
    assert_eq!(s.received, 3);
    s.on_frame(&message_frame(b"room-3", 2));
    assert_eq!(s.received, 3);
}

#[test]
fn chat_session_short_of_target_times_out() {
    let mut s = ChatSession::new(1, 3);
    s.on_frame(&message_frame(b"room-1", 1));
    s.on_deadline();
    assert_eq!(s.phase, ChatPhase::TimedOut);
    assert_eq!(s.outcome(), Outcome::Timeout);
    let mut z = ChatSession::new(1, 0);
    z.on_frame(&message_frame(b"room-1", 1));
    z.on_deadline();
    assert_eq!(z.outcome(), Outcome::Timeout);
}

#[test]
fn chat_malformed_frame_is_session_error() {
    let mut s = ChatSession::new(1, 1);
    s.on_frame(b"garbage");
    assert_eq!(s.outcome(), Outcome::Error(SessionError::Decode));
    s.on_frame(&message_frame(b"room-1", 1));
    assert_eq!(s.outcome(), Outcome::Error(SessionError::Decode));
}

#[test]
fn chat_io_failure_overrides_success() {
    let mut s = ChatSession::new(1, 1);
    s.on_frame(&message_frame(b"room-1", 1));
    s.on_failure(SessionError::Io);
    assert_eq!(s.outcome(), Outcome::Error(SessionError::Io));
}

#[test]
fn rooms_wrap_around() {
    assert_eq!(room_slot(3, 0, 20), 3);
    assert_eq!(room_slot(19, 2, 20), 1);
    assert_eq!(room_slot(usize::MAX, 1, usize::MAX), 1);
    assert_eq!(assigned_rooms(19, 3, 20), vec![19, 0, 1]);
    assert_eq!(assigned_rooms(5, 0, 0), Vec::<usize>::new());
}

#[test]
fn fire_wait_is_floored_at_zero() {
    assert_eq!(fire_wait(120, 20), 100);
    assert_eq!(fire_wait(120, 120), 0);
    assert_eq!(fire_wait(120, 500), 0);
}

fn stop(ticks: u32, bullets: u32, won: bool) -> GameEvent {
    GameEvent::Inbound(Ok(GameMessage::Stop { ticks, bullets_fired: bullets, won, error_msg: None }))
}

#[test]
fn game_fires_once_per_cadence_until_stop() {
    let mut g = GameSession::new(1);
    assert_eq!(g.step(GameEvent::Inbound(Ok(GameMessage::Start))), GameAction::Wait);
    assert_eq!(g.phase, GamePhase::Active);
    for k in 1..=3u64 {
        assert_eq!(g.step(GameEvent::FireDue), GameAction::SendFire);
        assert_eq!(g.fired, k);
    }
    assert_eq!(g.step(stop(40, 3, true)), GameAction::Finish);
    assert_eq!(
        g.outcome(),
        Some(Outcome::Success(GameRecord { ticks: 40, bullets_fired: 3, won: true, player: 1 }))
    );
    assert_eq!(g.step(GameEvent::FireDue), GameAction::Finish);
    assert_eq!(g.fired, 3);
}

#[test]
fn game_fires_until_deadline() {
    let mut g = GameSession::new(2);
    g.step(GameEvent::Inbound(Ok(GameMessage::Start)));
    assert_eq!(g.step(GameEvent::FireDue), GameAction::SendFire);
    assert_eq!(g.step(GameEvent::Deadline), GameAction::Finish);
    assert_eq!(g.outcome(), Some(Outcome::Timeout));
    assert_eq!(g.fired, 1);
}

#[test]
fn game_first_message_fire_is_handshake_error() {
    let mut g = GameSession::new(1);
    assert_eq!(g.outcome(), None);
    assert_eq!(g.step(GameEvent::Inbound(Ok(GameMessage::Fire))), GameAction::Finish);
    assert_eq!(g.outcome(), Some(Outcome::Error(SessionError::Handshake)));
    assert_eq!(g.step(GameEvent::FireDue), GameAction::Finish);
    assert_eq!(g.fired, 0);
}

#[test]
fn game_unreadable_payload_is_session_error() {
    let mut g = GameSession::new(1);
    g.step(GameEvent::Inbound(Ok(GameMessage::Start)));
    let bad = GameEvent::Inbound(Err(DecodeError { payload: b"{".to_vec() }));
    assert_eq!(g.step(bad), GameAction::Finish);
    assert_eq!(g.outcome(), Some(Outcome::Error(SessionError::Decode)));
}

#[test]
fn game_peer_error_ends_session() {
    let mut g = GameSession::new(2);
    g.step(GameEvent::Inbound(Ok(GameMessage::Start)));
    assert_eq!(g.step(GameEvent::Inbound(Ok(GameMessage::Fire))), GameAction::Wait);
    let e = GameEvent::Inbound(Ok(GameMessage::Error { msg: "boom".to_string() }));
    assert_eq!(g.step(e), GameAction::Finish);
    assert_eq!(g.outcome(), Some(Outcome::Error(SessionError::Protocol)));
}

#[test]
fn game_connection_failure_ends_session() {
    let mut g = GameSession::new(1);
    assert_eq!(g.step(GameEvent::Failure(SessionError::Io)), GameAction::Finish);
    assert_eq!(g.outcome(), Some(Outcome::Error(SessionError::Io)));
}
