//! The values that travel between a player and the server.
use vstd::prelude::*;

verus! {

/// Server-side rejection of the previous move. Informational only.
#[derive(Clone, Copy, Debug, PartialEq, Eq, Structural)]
pub enum ActionError {
    CannotPassThroughWall,
    NoRunningChallenge,
    SolveChallengeFirst,
    InvalidChallengeSolution,
}

/// Auxiliary information from the server.
#[derive(Clone, Copy, Debug, PartialEq, Eq, Structural)]
pub enum Hint {
    /// A bearing relative to the player, in whole degrees rounded down.
    RelativeCompass { angle: i64 },
    GridSize { columns: u32, rows: u32 },
    Secret(u64),
}

/// One message of the per-turn stream.
#[derive(Clone, Debug, PartialEq, Eq)]
pub enum ServerPayload {
    ActionError(ActionError),
    /// A base64 radar string.
    RadarView(String),
    Hint(Hint),
}

/// What the server answers to a successful team registration.
#[derive(Clone, Debug, PartialEq, Eq)]
pub struct RegistrationSuccess {
    pub expected_players: u32,
    pub registration_token: String,
}

/// A player of a team.
#[derive(Clone, Debug, PartialEq, Eq)]
pub struct Player {
    pub id: u32,
    pub name: String,
}

impl Player {
    pub fn new(id: u32, name: String) -> (r: Player)
        ensures
            r.id == id,
            r.name@ == name@,
    {
        Player { id, name }
    }
}

} // verus!
