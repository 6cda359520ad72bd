//! Static obstacles scattered over the arena; the whole set is replaced
//! when the map regenerates.

use crate::physics::ColliderHandle;
use vstd::prelude::*;

verus! {

/// Represents an obstacle in the game.
///
/// An obstacle has a position, in milliunits, and a handle to its collider.
pub struct Obstacle {
    pub position: (i64, i64),
    pub collider_handle: ColliderHandle,
}

impl Obstacle {
    /// Creates a new obstacle at the given position with the given collider.
    pub fn new(position: (i64, i64), collider_handle: ColliderHandle) -> (r: Obstacle)
        ensures
            r.position == position,
            r.collider_handle == collider_handle,
    {
        Obstacle { position, collider_handle }
    }
}

} // verus!
