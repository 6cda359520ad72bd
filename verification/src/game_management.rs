//! Player movement rules inside a windowed play area: keeping the player
//! within the boundary rectangle, turning wheel throttles into a movement
//! decision, and placing the boundary bars and the player's name tag.
//!
//! All distances are in milliunits. Rendering these decisions is the
//! embedder's business; this module computes what to render where.

use vstd::prelude::*;

verus! {

/// The player's movement speed, in milliunits per second.
pub const PLAYER_SPEED: i64 = 500_000;

/// The side of the player's square sprite, in milliunits.
pub const PLAYER_SIZE: i64 = 64_000;

/// The thickness of a boundary bar, in milliunits.
pub const BOUNDARY_THICKNESS: i64 = 5_000;

/// The width of the bounded play area, in milliunits.
pub const BOUNDARY_WIDTH: i64 = 700_000;

/// The height of the bounded play area, in milliunits.
pub const BOUNDARY_HEIGHT: i64 = 500_000;

/// Marks a boundary bar of the play area.
pub struct Boundary;

/// Ties a floating name tag to the ship it labels.
pub struct PlayerNameTag {
    /// The identifier of the labelled ship entity.
    pub ship_entity: u64,
}

/// What the wheel throttles tell the hull to do this frame.
#[derive(Clone, Copy, PartialEq, Eq, Structural, Debug)]
pub enum MoveAction {
    Forward,
    Backward,
    TurnRight,
    TurnLeft,
    Hold,
}

/// A value clamped into a closed interval.
pub open spec fn clamped(v: int, lo: int, hi: int) -> int {
    if v < lo {
        lo
    } else if v > hi {
        hi
    } else {
        v
    }
}

/// Keeps the player's centre inside the boundary rectangle of a window of
/// the given size: each coordinate is clamped so the whole sprite stays
/// between the bars.
pub fn block_players_in_bound(px: i64, py: i64, win_w: i64, win_h: i64) -> (r: (i64, i64))
    requires
        BOUNDARY_WIDTH <= win_w <= 100_000_000,
        BOUNDARY_HEIGHT <= win_h <= 100_000_000,
        -1_000_000_000 <= px <= 1_000_000_000,
        -1_000_000_000 <= py <= 1_000_000_000,
    ensures
        r.0 == clamped(
            px as int,
            (win_w - BOUNDARY_WIDTH) / 2 + PLAYER_SIZE / 2,
            (win_w + BOUNDARY_WIDTH) / 2 - PLAYER_SIZE / 2,
        ),
        r.1 == clamped(
            py as int,
            (win_h - BOUNDARY_HEIGHT) / 2 + PLAYER_SIZE / 2,
            (win_h + BOUNDARY_HEIGHT) / 2 - PLAYER_SIZE / 2,
        ),
{
    let half_player = PLAYER_SIZE / 2;
    let x_min = (win_w - BOUNDARY_WIDTH) / 2 + half_player;
    let x_max = (win_w + BOUNDARY_WIDTH) / 2 - half_player;
    let y_min = (win_h - BOUNDARY_HEIGHT) / 2 + half_player;
    let y_max = (win_h + BOUNDARY_HEIGHT) / 2 - half_player;
    let nx: i64 = if px < x_min {
        x_min
    } else if px > x_max {
        x_max
    } else {
        px
    };
    let ny: i64 = if py < y_min {
        y_min
    } else if py > y_max {
        y_max
    } else {
        py
    };
    (nx, ny)
}

/// Reads the wheel throttles as a movement decision: both full ahead
/// drives forward, both stopped reverses, one wheel full with the other
/// neutral turns toward the neutral side, and anything else holds.
pub fn player_mov(left_wheel: i64, right_wheel: i64) -> (r: MoveAction)
    ensures
        left_wheel == 1000 && right_wheel == 1000 ==> r == MoveAction::Forward,
        left_wheel == 0 && right_wheel == 0 ==> r == MoveAction::Backward,
        left_wheel == 1000 && right_wheel == 500 ==> r == MoveAction::TurnRight,
        right_wheel == 1000 && left_wheel == 500 ==> r == MoveAction::TurnLeft,
        !(left_wheel == 1000 && right_wheel == 1000) && !(left_wheel == 0 && right_wheel == 0) && !(
        left_wheel == 1000 && right_wheel == 500) && !(right_wheel == 1000 && left_wheel == 500)
            ==> r == MoveAction::Hold,
{
    if left_wheel == 1000 && right_wheel == 1000 {
        MoveAction::Forward
    } else if left_wheel == 0 && right_wheel == 0 {
        MoveAction::Backward
    } else if left_wheel == 1000 && right_wheel == 500 {
        MoveAction::TurnRight
    } else if right_wheel == 1000 && left_wheel == 500 {
        MoveAction::TurnLeft
    } else {
        MoveAction::Hold
    }
}

/// Where the name tag of a ship at the given centre floats: directly above
/// the sprite, fifteen units clear of its top edge.
pub fn update_name_tag_position(ship_x: i64, ship_y: i64) -> (r: (i64, i64))
    requires
        -1_000_000_000 <= ship_x <= 1_000_000_000,
        -1_000_000_000 <= ship_y <= 1_000_000_000,
    ensures
        r.0 == ship_x,
        r.1 == ship_y + PLAYER_SIZE / 2 + 15_000,
{
    (ship_x, ship_y + PLAYER_SIZE / 2 + 15_000)
}

/// The centres and sizes of the four boundary bars for a window of the
/// given size, as `(centre_x, centre_y, width, height)`, in the order
/// bottom, top, left, right.
pub fn boundary_rects(win_w: i64, win_h: i64) -> (r: Vec<(i64, i64, i64, i64)>)
    requires
        BOUNDARY_WIDTH <= win_w <= 100_000_000,
        BOUNDARY_HEIGHT <= win_h <= 100_000_000,
    ensures
        r@.len() == 4,
        r@[0] == (
            (win_w / 2) as i64,
            ((win_h - BOUNDARY_HEIGHT) / 2 + BOUNDARY_THICKNESS / 2) as i64,
            BOUNDARY_WIDTH,
            BOUNDARY_THICKNESS,
        ),
        r@[1] == (
            (win_w / 2) as i64,
            (win_h - (win_h - BOUNDARY_HEIGHT) / 2 - BOUNDARY_THICKNESS / 2) as i64,
            BOUNDARY_WIDTH,
            BOUNDARY_THICKNESS,
        ),
        r@[2] == (
            ((win_w - BOUNDARY_WIDTH) / 2 + BOUNDARY_THICKNESS / 2) as i64,
            (win_h / 2) as i64,
            BOUNDARY_THICKNESS,
            BOUNDARY_HEIGHT,
        ),
        r@[3] == (
            (win_w - (win_w - BOUNDARY_WIDTH) / 2 - BOUNDARY_THICKNESS / 2) as i64,
            (win_h / 2) as i64,
            BOUNDARY_THICKNESS,
            BOUNDARY_HEIGHT,
        ),
{
    let half_thickness = BOUNDARY_THICKNESS / 2;
    let x_offset = (win_w - BOUNDARY_WIDTH) / 2;
    let y_offset = (win_h - BOUNDARY_HEIGHT) / 2;
    let mut r: Vec<(i64, i64, i64, i64)> = Vec::new();
    r.push((win_w / 2, y_offset + half_thickness, BOUNDARY_WIDTH, BOUNDARY_THICKNESS));
    r.push((win_w / 2, win_h - y_offset - half_thickness, BOUNDARY_WIDTH, BOUNDARY_THICKNESS));
    r.push((x_offset + half_thickness, win_h / 2, BOUNDARY_THICKNESS, BOUNDARY_HEIGHT));
    r.push((win_w - x_offset - half_thickness, win_h / 2, BOUNDARY_THICKNESS, BOUNDARY_HEIGHT));
    r
}

} // verus!
