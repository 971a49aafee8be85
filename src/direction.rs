//! Moves relative to the player's facing.
use vstd::prelude::*;

verus! {

/// A move relative to the player's current orientation.
#[derive(Clone, Copy, Debug, PartialEq, Eq, Structural)]
pub enum RelativeDirection {
    Left,
    Right,
    Back,
    Front,
}

/// The direction that a compass hint of `angle` whole degrees points to:
/// Front from 315 up to (not including) 45, Right from 45, Back from 135,
/// Left from 225.
pub open spec fn compass_direction(angle: int) -> RelativeDirection {
    if angle >= 315 || angle < 45 {
        RelativeDirection::Front
    } else if angle < 135 {
        RelativeDirection::Right
    } else if angle < 225 {
        RelativeDirection::Back
    } else {
        RelativeDirection::Left
    }
}

impl RelativeDirection {
    /// The direction's name as the wire protocol spells it.
    pub fn to_string(&self) -> (r: &'static str)
        ensures
            r@ == match *self {
                RelativeDirection::Left => "Left"@,
                RelativeDirection::Right => "Right"@,
                RelativeDirection::Back => "Back"@,
                RelativeDirection::Front => "Front"@,
            },
    {
        match self {
            RelativeDirection::Left => "Left",
            RelativeDirection::Right => "Right",
            RelativeDirection::Back => "Back",
            RelativeDirection::Front => "Front",
        }
    }
}

/// The direction that a compass hint points to; `angle` is in whole degrees,
/// rounded down.
pub fn direction_from_angle(angle: i64) -> (r: RelativeDirection)
    ensures
        r == compass_direction(angle as int),
{
    if angle >= 315 || angle < 45 {
        RelativeDirection::Front
    } else if angle < 135 {
        RelativeDirection::Right
    } else if angle < 225 {
        RelativeDirection::Back
    } else {
        RelativeDirection::Left
    }
}

} // verus!
