//! Player- and AI-controlled entities: identity, score, cached transform,
//! orientations, and AI targeting state, backed by one kinematic body with
//! one square collider in the physics world.

use crate::app_defines::AppDefines;
use crate::physics::{Collider, PhysicsEngine, RigidBody, RigidBodyHandle, ColliderHandle};
use crate::rng::random_below;
use crate::types::Rgb;
use vstd::prelude::*;

verus! {

/// Represents an entity in the physics simulation.
///
/// Positions are in milliunits; `gun_orientation` is in milliturns of a full
/// turn; the hull faces along the `self_orientation_x/y` direction vector;
/// times
/// are in simulation ticks.
#[derive(Debug, Clone)]
pub struct Entity {
    pub name: String,
    pub score: i32,
    pub handle: RigidBodyHandle,
    pub is_ai: bool,
    pub last_shot: u64,
    pub x: i64,
    pub y: i64,
    pub self_orientation_x: i64,
    pub self_orientation_y: i64,
    pub gun_orientation: u32,
    pub target_x: i64,
    pub target_y: i64,
    pub last_retarget: u64,
    pub retarget_interval: u64,
    pub color: Rgb,
}

/// An in-arena position, in milliunits.
pub open spec fn pos_in_arena(x: int, y: int) -> bool {
    &&& 0 <= x <= AppDefines::ARENA_WIDTH_MU
    &&& 0 <= y <= AppDefines::ARENA_HEIGHT_MU
}

/// An interior position: inside the arena with the spawn margin kept from
/// every wall.
pub open spec fn pos_in_interior(x: int, y: int) -> bool {
    &&& AppDefines::SPAWN_MARGIN_MU <= x <= AppDefines::ARENA_WIDTH_MU
        - AppDefines::SPAWN_MARGIN_MU
    &&& AppDefines::SPAWN_MARGIN_MU <= y <= AppDefines::ARENA_HEIGHT_MU
        - AppDefines::SPAWN_MARGIN_MU
}

/// The physics body every live entity owns: kinematic, at the entity's
/// cached position, with no linear velocity.
pub open spec fn entity_body(e: Entity) -> RigidBody {
    RigidBody { kinematic: true, x: e.x, y: e.y, vx: 0, vy: 0 }
}

/// Well-formedness of one entity against the physics world: its body is
/// live and mirrors the cached transform, and every cached field is within
/// its range.
pub open spec fn entity_wf(e: Entity, p: PhysicsEngine) -> bool {
    &&& p.body_live(e.handle)
    &&& p.body_at(e.handle) == entity_body(e)
    &&& pos_in_arena(e.x as int, e.y as int)
    &&& pos_in_interior(e.target_x as int, e.target_y as int)
    &&& e.gun_orientation < AppDefines::FULL_TURN
    &&& AppDefines::AI_RETARGET_MIN_TICKS <= e.retarget_interval
        <= AppDefines::AI_RETARGET_MAX_TICKS
}

/// Draws a uniformly random interior position, in milliunits.
pub(crate) fn random_interior_position() -> (p: (i64, i64))
    ensures
        pos_in_interior(p.0 as int, p.1 as int),
{
    let rx = random_below(
        (AppDefines::ARENA_WIDTH_MU - 2 * AppDefines::SPAWN_MARGIN_MU) as u64,
    );
    let ry = random_below(
        (AppDefines::ARENA_HEIGHT_MU - 2 * AppDefines::SPAWN_MARGIN_MU) as u64,
    );
    (AppDefines::SPAWN_MARGIN_MU + rx as i64, AppDefines::SPAWN_MARGIN_MU + ry as i64)
}

impl Entity {
    /// Creates a new `Entity` at a uniformly random interior point, with a
    /// kinematic body and a square collider in the physics world, zero
    /// score, and its target initialized to its spawn point.
    pub fn new(name: String, physics_engine: &mut PhysicsEngine, is_ai: bool, now: u64) -> (e:
        Entity)
        requires
            old(physics_engine).wf(),
        ensures
            final(physics_engine).wf(),
            entity_wf(e, *final(physics_engine)),
            e.name == name,
            e.score == 0,
            e.is_ai == is_ai,
            e.last_shot == now,
            e.last_retarget == now,
            pos_in_interior(e.x as int, e.y as int),
            e.target_x == e.x,
            e.target_y == e.y,
            e.gun_orientation == 0,
            !old(physics_engine).body_live(e.handle),
            final(physics_engine).body_live(e.handle),
            final(physics_engine).body_at(e.handle) == entity_body(e),
            forall|h2: RigidBodyHandle|
                h2 != e.handle ==> final(physics_engine).body_live(h2) == old(
                    physics_engine,
                ).body_live(h2),
            forall|h2: RigidBodyHandle|
                h2 != e.handle && old(physics_engine).body_live(h2) ==> final(physics_engine).body_at(h2) == old(physics_engine).body_at(h2),
            exists|ch: ColliderHandle|
                {
                    &&& !old(physics_engine).collider_live(ch)
                    &&& #[trigger] final(physics_engine).collider_live(ch)
                    &&& final(physics_engine).collider_at(ch) == (Collider {
                        parent: Some(e.handle),
                        x: 0,
                        y: 0,
                        hx: AppDefines::ENTITY_HALF_EXTENT_MU,
                        hy: AppDefines::ENTITY_HALF_EXTENT_MU,
                    })
                    &&& forall|c2: ColliderHandle|
                        c2 != ch ==> final(physics_engine).collider_live(c2) == old(
                            physics_engine,
                        ).collider_live(c2)
                    &&& forall|c2: ColliderHandle|
                        c2 != ch && old(physics_engine).collider_live(c2) ==> final(physics_engine).collider_at(c2) == old(physics_engine).collider_at(c2)
                },
            final(physics_engine).events() == old(physics_engine).events(),
    {
        let (x, y) = random_interior_position();
        let body = RigidBody { kinematic: true, x, y, vx: 0, vy: 0 };
        let handle = physics_engine.insert_body(body);
        let collider = Collider {
            parent: None,
            x: 0,
            y: 0,
            hx: AppDefines::ENTITY_HALF_EXTENT_MU,
            hy: AppDefines::ENTITY_HALF_EXTENT_MU,
        };
        let _attached = physics_engine.insert_collider_with_parent(collider, handle);
        let interval = AppDefines::AI_RETARGET_MIN_TICKS + random_below(
            AppDefines::AI_RETARGET_MAX_TICKS - AppDefines::AI_RETARGET_MIN_TICKS,
        );
        Entity {
            name,
            score: 0,
            handle,
            is_ai,
            last_shot: now,
            x,
            y,
            self_orientation_x: AppDefines::SCALE,
            self_orientation_y: 0,
            gun_orientation: 0,
            target_x: x,
            target_y: y,
            last_retarget: now,
            retarget_interval: interval,
            color: Rgb { r: 0, g: 255, b: 0 },
        }
    }
}

} // verus!
