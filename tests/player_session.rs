use maze_player::direction::RelativeDirection;
use maze_player::error::DecodeError;
use maze_player::protocol::{ActionError, Hint, Player, RegistrationSuccess, ServerPayload};
use maze_player::session::{Notice, PlayerSession, Reaction, SessionFailure, SessionState};

fn awaiting() -> PlayerSession {
    let mut s = PlayerSession::new();
    assert_eq!(s.on_subscription(Ok(())), Reaction::Wait);
    s
}

fn radar(s: &str) -> ServerPayload {
    ServerPayload::RadarView(s.to_string())
}

#[test]
fn subscription_accepted_starts_the_turns() {
    let s = awaiting();
    assert_eq!(s.state(), SessionState::Awaiting);
    assert_eq!(s.last_hint(), None);
}

#[test]
fn subscription_refused_ends_the_session() {
    let mut s = PlayerSession::new();
    assert_eq!(s.state(), SessionState::Subscribing);
    let r = s.on_subscription(Err("InvalidRegistrationToken".to_string()));
    assert_eq!(r, Reaction::Failure(SessionFailure::Refused("InvalidRegistrationToken".to_string())));
    assert_eq!(s.state(), SessionState::Closed);
}

#[test]
fn radar_view_is_answered_with_a_move() {
    let mut s = awaiting();
    assert_eq!(s.on_payload(radar("zveI8/8p8p8a8aa")), Reaction::Move(RelativeDirection::Back));
    assert_eq!(s.state(), SessionState::Awaiting);
}

#[test]
fn undecodable_view_is_reported_and_skipped() {
    let mut s = awaiting();
    let r = s.on_payload(radar("abcde"));
    assert_eq!(r, Reaction::Report(Notice::DecodeFailed(DecodeError::InvalidLength)));
    assert_eq!(s.state(), SessionState::Awaiting);
    let r = s.on_payload(radar("AAAA"));
    assert_eq!(r, Reaction::Report(Notice::DecodeFailed(DecodeError::TruncatedInput)));
}

#[test]
fn compass_hint_is_stored_and_steers_later_turns() {
    let mut s = awaiting();
    let h = Hint::RelativeCompass { angle: 300 };
    assert_eq!(s.on_payload(ServerPayload::Hint(h)), Reaction::Report(Notice::Hint(h)));
    assert_eq!(s.last_hint(), Some(RelativeDirection::Left));
    // Left is undefined in this view, so the hint does not apply.
    assert_eq!(s.on_payload(radar("zveI8/8p8p8a8aa")), Reaction::Move(RelativeDirection::Back));
    assert_eq!(s.last_hint(), Some(RelativeDirection::Left));
    // Right (3,5) is open in this view, and so is the hint's room when it points there.
    let h = Hint::RelativeCompass { angle: 90 };
    s.on_payload(ServerPayload::Hint(h));
    assert_eq!(s.last_hint(), Some(RelativeDirection::Right));
}

#[test]
fn other_hints_and_action_errors_are_only_reported() {
    let mut s = awaiting();
    s.on_payload(ServerPayload::Hint(Hint::RelativeCompass { angle: 180 }));
    let g = Hint::GridSize { columns: 10, rows: 12 };
    assert_eq!(s.on_payload(ServerPayload::Hint(g)), Reaction::Report(Notice::Hint(g)));
    let k = Hint::Secret(42);
    assert_eq!(s.on_payload(ServerPayload::Hint(k)), Reaction::Report(Notice::Hint(k)));
    let e = ActionError::CannotPassThroughWall;
    assert_eq!(
        s.on_payload(ServerPayload::ActionError(e)),
        Reaction::Report(Notice::ActionError(e))
    );
    assert_eq!(s.last_hint(), Some(RelativeDirection::Back));
    assert_eq!(s.state(), SessionState::Awaiting);
}

#[test]
fn exit_ends_the_session_successfully() {
    let mut s = awaiting();
    // Room digits 0x888..: every room, the centre included, is an exit.
    assert_eq!(s.on_payload(radar("AAAAAAAAiIiIiIg")), Reaction::Success);
    assert_eq!(s.state(), SessionState::Closed);
}

#[test]
fn malformed_message_ends_the_session() {
    let mut s = awaiting();
    let r = s.on_malformed(b"{oops".to_vec());
    assert_eq!(r, Reaction::Failure(SessionFailure::Protocol(b"{oops".to_vec())));
    assert_eq!(s.state(), SessionState::Closed);
}

#[test]
fn lost_connection_ends_the_session() {
    let mut s = awaiting();
    assert_eq!(s.on_connection_lost(), Reaction::Failure(SessionFailure::Connection));
    assert_eq!(s.state(), SessionState::Closed);
}

#[test]
fn records_keep_their_fields() {
    let p = Player::new(3, "alice".to_string());
    assert_eq!(p.id, 3);
    assert_eq!(p.name, "alice");
    let r = RegistrationSuccess { expected_players: 2, registration_token: "tok".to_string() };
    assert_eq!(r.expected_players, 2);
}
