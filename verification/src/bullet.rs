//! Transient projectiles: spawned from a shooter's position along its gun
//! orientation, destroyed by collision, leaving the arena, or old age.
//!
//! Orientations are milliturns of a full turn; the unit direction vector of
//! an orientation is approximated by an integer triangle wave scaled by
//! 1000, which keeps every trajectory a pure function of integers.

use crate::app_defines::AppDefines;
use crate::physics::{Collider, ColliderHandle, PhysicsEngine, RigidBody, RigidBodyHandle};
use vstd::prelude::*;

verus! {

/// The horizontal component of the unit direction of `t` milliturns,
/// scaled by 1000: a triangle-wave stand-in for the cosine.
pub open spec fn dir_x_spec(t: int) -> int {
    if t <= 500 {
        1000 - 4 * t
    } else {
        4 * t - 3000
    }
}

/// The vertical component of the unit direction of `t` milliturns, scaled
/// by 1000: the horizontal component a quarter turn earlier.
pub open spec fn dir_y_spec(t: int) -> int {
    if t < 250 {
        dir_x_spec(t + 750)
    } else {
        dir_x_spec(t - 250)
    }
}

/// A magnitude scaled by a direction component: `mag * d / 1000`, rounded
/// toward zero.
pub open spec fn scaled_dir(mag: int, d: int) -> int {
    if d >= 0 {
        mag * d / 1000
    } else {
        -(mag * (-d) / 1000)
    }
}

/// The per-tick velocity of a bullet fired at `angle` milliturns with the
/// given speed in milliunits per second.
pub open spec fn bullet_velocity(speed: int, angle: int) -> (int, int) {
    let per_tick = speed / (AppDefines::TARGET_FPS_2D_PHYSICS as int);
    (scaled_dir(per_tick, dir_x_spec(angle)), scaled_dir(per_tick, dir_y_spec(angle)))
}

/// Computes both direction components of `t` milliturns.
pub fn direction(t: u32) -> (d: (i64, i64))
    requires
        t < AppDefines::FULL_TURN,
    ensures
        d.0 == dir_x_spec(t as int),
        d.1 == dir_y_spec(t as int),
        -1000 <= d.0 <= 1000,
        -1000 <= d.1 <= 1000,
{
    let ti = t as i64;
    let dx: i64 = if ti <= 500 {
        1000 - 4 * ti
    } else {
        4 * ti - 3000
    };
    let ty: i64 = if ti < 250 {
        ti + 750
    } else {
        ti - 250
    };
    let dy: i64 = if ty <= 500 {
        1000 - 4 * ty
    } else {
        4 * ty - 3000
    };
    (dx, dy)
}

/// Scales a non-negative magnitude by a direction component.
pub fn scale_component(mag: i64, d: i64) -> (r: i64)
    requires
        0 <= mag <= 100_000,
        -1000 <= d <= 1000,
    ensures
        r == scaled_dir(mag as int, d as int),
        -mag <= r <= mag,
{
    if d >= 0 {
        proof {
            lemma_scale_bounds(mag as int, d as int);
        }
        let prod = mag * d;
        prod / 1000
    } else {
        proof {
            lemma_scale_bounds(mag as int, -d as int);
        }
        let prod = mag * (-d);
        let q = prod / 1000;
        -q
    }
}

/// Bounds of the scaled product `mag * d / 1000` for a direction component.
proof fn lemma_scale_bounds(mag: int, d: int)
    requires
        0 <= mag <= 100_000,
        0 <= d <= 1000,
    ensures
        0 <= mag * d <= 100_000_000,
        0 <= mag * d / 1000 <= mag,
{
    assert(0 <= mag * d <= 100_000_000) by (nonlinear_arith)
        requires
            0 <= mag <= 100_000,
            0 <= d <= 1000,
    ;
    assert(0 <= mag * d / 1000 <= mag) by (nonlinear_arith)
        requires
            0 <= mag <= 100_000,
            0 <= d <= 1000,
    ;
}

/// Represents a bullet in the physics simulation.
#[derive(Clone, Copy, PartialEq, Eq, Structural, Debug)]
pub struct Bullet {
    pub handle: RigidBodyHandle,
    pub shooter: RigidBodyHandle,
    pub created_at: u64,
}

impl Bullet {
    /// Creates a new `Bullet` at the shooter's position, flying along
    /// `angle` at the given speed, with a round collider of the given
    /// radius, stamped with the current tick.
    pub fn new(
        shooter_handle: RigidBodyHandle,
        physics_engine: &mut PhysicsEngine,
        speed: i64,
        radius: i64,
        angle: u32,
        now: u64,
    ) -> (b: Bullet)
        requires
            old(physics_engine).wf(),
            old(physics_engine).body_live(shooter_handle),
            0 <= speed <= 3_000_000,
            0 < radius <= crate::physics::EXTENT_LIMIT,
            angle < AppDefines::FULL_TURN,
        ensures
            final(physics_engine).wf(),
            b.shooter == shooter_handle,
            b.created_at == now,
            !old(physics_engine).body_live(b.handle),
            final(physics_engine).body_live(b.handle),
            final(physics_engine).body_at(b.handle) == (RigidBody {
                kinematic: false,
                x: old(physics_engine).body_at(shooter_handle).x,
                y: old(physics_engine).body_at(shooter_handle).y,
                vx: bullet_velocity(speed as int, angle as int).0 as i64,
                vy: bullet_velocity(speed as int, angle as int).1 as i64,
            }),
            forall|h2: RigidBodyHandle|
                h2 != b.handle ==> final(physics_engine).body_live(h2) == old(
                    physics_engine,
                ).body_live(h2),
            forall|h2: RigidBodyHandle|
                h2 != b.handle && old(physics_engine).body_live(h2) ==> final(physics_engine).body_at(h2) == old(physics_engine).body_at(h2),
            exists|ch: ColliderHandle|
                {
                    &&& !old(physics_engine).collider_live(ch)
                    &&& #[trigger] final(physics_engine).collider_live(ch)
                    &&& final(physics_engine).collider_at(ch) == (Collider {
                        parent: Some(b.handle),
                        x: 0,
                        y: 0,
                        hx: radius,
                        hy: radius,
                    })
                    &&& forall|c2: ColliderHandle|
                        c2 != ch ==> final(physics_engine).collider_live(c2) == old(
                            physics_engine,
                        ).collider_live(c2)
                    &&& forall|c2: ColliderHandle|
                        c2 != ch && old(physics_engine).collider_live(c2) ==> final(physics_engine).collider_at(c2) == old(physics_engine).collider_at(c2)
                },
            final(physics_engine).events() == old(physics_engine).events(),
    {
        let pos = physics_engine.translation(shooter_handle);
        proof {
            physics_engine.lemma_wf_facts(
                shooter_handle,
                ColliderHandle { index: 0, generation: 0 },
            );
        }
        let per_tick = speed / (AppDefines::TARGET_FPS_2D_PHYSICS as i64);
        let d = direction(angle);
        let vx = scale_component(per_tick, d.0);
        let vy = scale_component(per_tick, d.1);
        let rigid_body = RigidBody { kinematic: false, x: pos.0, y: pos.1, vx, vy };
        let handle = physics_engine.insert_body(rigid_body);
        let collider = Collider { parent: None, x: 0, y: 0, hx: radius, hy: radius };
        let _attached = physics_engine.insert_collider_with_parent(collider, handle);
        Bullet { handle, shooter: shooter_handle, created_at: now }
    }
}

} // verus!
