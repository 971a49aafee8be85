//! The per-turn move decision, from the grid and an optional hint.
use vstd::prelude::*;

use crate::cell::{Cell, CellView};
use crate::direction::RelativeDirection;
use crate::radar::RadarGrid;

verus! {

/// What the player does this turn.
#[derive(Clone, Copy, Debug, PartialEq, Eq, Structural)]
pub enum Decision {
    /// Send this move.
    Move(RelativeDirection),
    /// The player stands on the exit: the session ends successfully.
    ExitReached,
}

/// Row and column of the player's own room.
pub const CENTER: usize = 3;

/// The room two steps from the centre in direction `d`.
pub open spec fn neighbor_room(g: Seq<Seq<CellView>>, d: RelativeDirection) -> CellView {
    match d {
        RelativeDirection::Front => g[1][3],
        RelativeDirection::Back => g[5][3],
        RelativeDirection::Left => g[3][1],
        RelativeDirection::Right => g[3][5],
    }
}

/// The room in direction `d` is open.
pub open spec fn is_open_toward(g: Seq<Seq<CellView>>, d: RelativeDirection) -> bool {
    neighbor_room(g, d) is Open
}

/// The first open direction in the order Right, Front, Left, Back; Right when
/// none is open.
pub open spec fn preferred_direction(g: Seq<Seq<CellView>>) -> RelativeDirection {
    if is_open_toward(g, RelativeDirection::Right) {
        RelativeDirection::Right
    } else if is_open_toward(g, RelativeDirection::Front) {
        RelativeDirection::Front
    } else if is_open_toward(g, RelativeDirection::Left) {
        RelativeDirection::Left
    } else if is_open_toward(g, RelativeDirection::Back) {
        RelativeDirection::Back
    } else {
        RelativeDirection::Right
    }
}

/// The decision for grid `g` and hint `hint`: the exit ends the session;
/// otherwise the hint when its room is open, else the preferred direction.
pub open spec fn decide(g: Seq<Seq<CellView>>, hint: Option<RelativeDirection>) -> Decision {
    if g[3][3] is Exit {
        Decision::ExitReached
    } else {
        match hint {
            Some(d) if is_open_toward(g, d) => Decision::Move(d),
            _ => Decision::Move(preferred_direction(g)),
        }
    }
}

fn is_open(grid: &RadarGrid, row: usize, col: usize) -> (r: bool)
    requires
        row < 7,
        col < 7,
    ensures
        r == (grid@[row as int][col as int] is Open),
{
    match grid.cell(row, col) {
        Cell::Open => true,
        _ => false,
    }
}

/// Whether the room in direction `d` is open.
fn open_toward(grid: &RadarGrid, d: RelativeDirection) -> (r: bool)
    ensures
        r == is_open_toward(grid@, d),
{
    match d {
        RelativeDirection::Front => is_open(grid, CENTER - 2, CENTER),
        RelativeDirection::Back => is_open(grid, CENTER + 2, CENTER),
        RelativeDirection::Left => is_open(grid, CENTER, CENTER - 2),
        RelativeDirection::Right => is_open(grid, CENTER, CENTER + 2),
    }
}

/// Chooses this turn's move.
pub fn move_player(grid: &RadarGrid, hint: Option<RelativeDirection>) -> (r: Decision)
    ensures
        r == decide(grid@, hint),
        grid@[3][3] is Exit ==> r == Decision::ExitReached,
        !(grid@[3][3] is Exit) && !is_open_toward(grid@, RelativeDirection::Right)
            && !is_open_toward(grid@, RelativeDirection::Front) && !is_open_toward(
            grid@,
            RelativeDirection::Left,
        ) && !is_open_toward(grid@, RelativeDirection::Back) ==> r == Decision::Move(
            RelativeDirection::Right,
        ),
{
    if let Cell::Exit = grid.cell(CENTER, CENTER) {
        return Decision::ExitReached;
    }
    if let Some(d) = hint {
        if open_toward(grid, d) {
            return Decision::Move(d);
        }
    }
    if open_toward(grid, RelativeDirection::Right) {
        Decision::Move(RelativeDirection::Right)
    } else if open_toward(grid, RelativeDirection::Front) {
        Decision::Move(RelativeDirection::Front)
    } else if open_toward(grid, RelativeDirection::Left) {
        Decision::Move(RelativeDirection::Left)
    } else if open_toward(grid, RelativeDirection::Back) {
        Decision::Move(RelativeDirection::Back)
    } else {
        Decision::Move(RelativeDirection::Right)
    }
}

} // verus!
