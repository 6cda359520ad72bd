//! Free-flying balls and a fixed-position player: the simplest dynamic
//! objects the physics world can host.

use crate::physics::{Collider, ColliderHandle, PhysicsEngine, RigidBody, RigidBodyHandle};
use crate::rng::random_below;
use vstd::prelude::*;

verus! {

/// A free-flying ball, identified by its body handle.
pub struct Ball {
    pub handle: RigidBodyHandle,
}

/// A named, scoring actor with a fixed spawn position.
pub struct Player {
    pub name: String,
    pub score: i32,
    pub handle: RigidBodyHandle,
}

/// Creates `count` balls at uniformly random positions with small random
/// velocities: exactly `count` fresh dynamic bodies, each carrying one
/// round collider, and nothing else changes.
pub fn create_balls(engine: &mut PhysicsEngine, count: usize) -> (balls: Vec<Ball>)
    requires
        old(engine).wf(),
    ensures
        final(engine).wf(),
        balls@.len() == count,
        forall|i: int|
            0 <= i < count ==> final(engine).body_live(#[trigger] balls@[i].handle) && !old(engine).body_live(balls@[i].handle) && {
                let b = final(engine).body_at(balls@[i].handle);
                &&& !b.kinematic
                &&& 50_000 <= b.x < 1_150_000
                &&& 50_000 <= b.y < 950_000
                &&& -1_667 <= b.vx <= 1_667
                &&& -1_667 <= b.vy <= 1_667
            },
        forall|i: int, j: int|
            0 <= i < j < count ==> (#[trigger] balls@[i]).handle != (#[trigger] balls@[j]).handle,
        forall|i: int|
            0 <= i < count ==> exists|ch: ColliderHandle|
                {
                    &&& !old(engine).collider_live(ch)
                    &&& final(engine).collider_live(ch)
                    &&& final(engine).collider_at(ch) == (Collider {
                        parent: Some((#[trigger] balls@[i]).handle),
                        x: 0,
                        y: 0,
                        hx: 10_000,
                        hy: 10_000,
                    })
                    &&& forall|c2: ColliderHandle|
                        c2 != ch && final(engine).collider_live(c2) && !old(
                            engine,
                        ).collider_live(c2) ==> final(engine).collider_at(c2).parent != Some(
                            balls@[i].handle,
                        )
                },
        forall|ch: ColliderHandle|
            final(engine).collider_live(ch) && !old(engine).collider_live(ch) ==> exists|i: int|
                0 <= i < count && final(engine).collider_at(ch).parent == Some(
                    (#[trigger] balls@[i]).handle,
                ),
        forall|h2: RigidBodyHandle|
            old(engine).body_live(h2) ==> final(engine).body_live(h2) && final(engine).body_at(h2)
                == old(engine).body_at(h2),
        forall|h2: RigidBodyHandle|
            final(engine).body_live(h2) && !old(engine).body_live(h2) ==> exists|i: int|
                0 <= i < count && (#[trigger] balls@[i]).handle == h2,
        forall|ch: ColliderHandle|
            old(engine).collider_live(ch) ==> final(engine).collider_live(ch) && final(engine).collider_at(ch) == old(engine).collider_at(ch),
{
    let mut balls: Vec<Ball> = Vec::new();
    let mut k: usize = 0;
    while k < count
        invariant
            old(engine).wf(),
            engine.wf(),
            k <= count,
            balls@.len() == k,
            forall|i: int|
                0 <= i < k ==> engine.body_live(#[trigger] balls@[i].handle) && !old(engine).body_live(balls@[i].handle) && {
                    let b = engine.body_at(balls@[i].handle);
                    &&& !b.kinematic
                    &&& 50_000 <= b.x < 1_150_000
                    &&& 50_000 <= b.y < 950_000
                    &&& -1_667 <= b.vx <= 1_667
                    &&& -1_667 <= b.vy <= 1_667
                },
            forall|i: int, j: int|
                0 <= i < j < k ==> (#[trigger] balls@[i]).handle != (#[trigger] balls@[j]).handle,
            forall|i: int|
                0 <= i < k ==> exists|ch: ColliderHandle|
                    {
                        &&& !old(engine).collider_live(ch)
                        &&& engine.collider_live(ch)
                        &&& engine.collider_at(ch) == (Collider {
                            parent: Some((#[trigger] balls@[i]).handle),
                            x: 0,
                            y: 0,
                            hx: 10_000,
                            hy: 10_000,
                        })
                        &&& forall|c2: ColliderHandle|
                            c2 != ch && engine.collider_live(c2) && !old(engine).collider_live(c2)
                                ==> engine.collider_at(c2).parent != Some(balls@[i].handle)
                    },
            forall|ch: ColliderHandle|
                engine.collider_live(ch) && !old(engine).collider_live(ch) ==> exists|i: int|
                    0 <= i < k && engine.collider_at(ch).parent == Some(
                        (#[trigger] balls@[i]).handle,
                    ),
            forall|h2: RigidBodyHandle|
                old(engine).body_live(h2) ==> engine.body_live(h2) && engine.body_at(h2) == old(engine).body_at(h2),
            forall|h2: RigidBodyHandle|
                engine.body_live(h2) && !old(engine).body_live(h2) ==> exists|i: int|
                    0 <= i < k && (#[trigger] balls@[i]).handle == h2,
            forall|ch: ColliderHandle|
                old(engine).collider_live(ch) ==> engine.collider_live(ch) && engine.collider_at(
                    ch,
                ) == old(engine).collider_at(ch),
        decreases count - k,
    {
        let x = 50_000 + random_below(1_100_000) as i64;
        let y = 50_000 + random_below(900_000) as i64;
        let vx = random_below(3_335) as i64 - 1_667;
        let vy = random_below(3_335) as i64 - 1_667;
        let body = RigidBody { kinematic: false, x, y, vx, vy };
        let ghost mid0 = *engine;
        let ball_handle = engine.insert_body(body);
        let collider = Collider { parent: None, x: 0, y: 0, hx: 10_000, hy: 10_000 };
        let new_ch = engine.insert_collider_with_parent(collider, ball_handle);
        let ghost balls0 = balls@;
        balls.push(Ball { handle: ball_handle });
        proof {
            assert(balls@ =~= balls0.push(Ball { handle: ball_handle }));
            assert forall|ch: ColliderHandle|
                engine.collider_live(ch) && !old(engine).collider_live(ch) implies exists|i: int|
                0 <= i < k + 1 && engine.collider_at(ch).parent == Some(
                    (#[trigger] balls@[i]).handle,
                ) by {
                if ch == new_ch {
                    assert(balls@[k as int].handle == ball_handle);
                } else {
                    assert(mid0.collider_live(ch));
                    let j = choose|j: int|
                        0 <= j < k && mid0.collider_at(ch).parent == Some(
                            (#[trigger] balls0[j]).handle,
                        );
                    assert(balls@[j] == balls0[j]);
                    assert(engine.collider_at(ch).parent == Some(balls@[j].handle));
                }
            }
            assert forall|i: int| 0 <= i < k + 1 implies exists|ch: ColliderHandle|
                {
                    &&& !old(engine).collider_live(ch)
                    &&& engine.collider_live(ch)
                    &&& engine.collider_at(ch) == (Collider {
                        parent: Some((#[trigger] balls@[i]).handle),
                        x: 0,
                        y: 0,
                        hx: 10_000,
                        hy: 10_000,
                    })
                    &&& forall|c2: ColliderHandle|
                        c2 != ch && engine.collider_live(c2) && !old(engine).collider_live(c2)
                            ==> engine.collider_at(c2).parent != Some(balls@[i].handle)
                } by {
                if i < k {
                    assert(balls@[i] == balls0[i]);
                    let w = choose|ch: ColliderHandle|
                        {
                            &&& !old(engine).collider_live(ch)
                            &&& mid0.collider_live(ch)
                            &&& mid0.collider_at(ch) == (Collider {
                                parent: Some(balls0[i].handle),
                                x: 0,
                                y: 0,
                                hx: 10_000,
                                hy: 10_000,
                            })
                            &&& forall|c2: ColliderHandle|
                                c2 != ch && mid0.collider_live(c2) && !old(
                                    engine,
                                ).collider_live(c2) ==> mid0.collider_at(c2).parent != Some(
                                    balls0[i].handle,
                                )
                        };
                    assert(w != new_ch);
                    assert(engine.collider_live(w));
                    assert forall|c2: ColliderHandle|
                        c2 != w && engine.collider_live(c2) && !old(
                            engine,
                        ).collider_live(c2) implies engine.collider_at(c2).parent != Some(
                        balls@[i].handle,
                    ) by {
                        if c2 == new_ch {
                            assert(engine.collider_at(new_ch).parent == Some(ball_handle));
                            assert(mid0.body_live(balls0[i].handle));
                            assert(!mid0.body_live(ball_handle));
                        } else {
                            assert(mid0.collider_live(c2));
                            assert(engine.collider_at(c2) == mid0.collider_at(c2));
                        }
                    }
                } else {
                    assert(engine.collider_live(new_ch));
                    assert(engine.collider_at(new_ch) == (Collider {
                        parent: Some(ball_handle),
                        x: 0,
                        y: 0,
                        hx: 10_000,
                        hy: 10_000,
                    }));
                    assert forall|c2: ColliderHandle|
                        c2 != new_ch && engine.collider_live(c2) && !old(
                            engine,
                        ).collider_live(c2) implies engine.collider_at(c2).parent != Some(
                        balls@[i].handle,
                    ) by {
                        assert(mid0.collider_live(c2));
                        let j = choose|j: int|
                            0 <= j < k && mid0.collider_at(c2).parent == Some(
                                (#[trigger] balls0[j]).handle,
                            );
                        assert(mid0.body_live(balls0[j].handle));
                        assert(!mid0.body_live(ball_handle));
                        assert(engine.collider_at(c2) == mid0.collider_at(c2));
                    }
                }
            }
            assert forall|h2: RigidBodyHandle|
                engine.body_live(h2) && !old(engine).body_live(h2) implies exists|i: int|
                0 <= i < k + 1 && (#[trigger] balls@[i]).handle == h2 by {
                if h2 == ball_handle {
                    assert(balls@[k as int].handle == h2);
                } else {
                    assert(mid0.body_live(h2));
                    let i = choose|i: int|
                        0 <= i < k && (#[trigger] balls0[i]).handle == h2;
                    assert(balls@[i] == balls0[i]);
                    assert(balls@[i].handle == h2);
                }
            }
        }
        k += 1;
    }
    balls
}

/// Creates a player at the centre of the arena with zero score: one fresh
/// dynamic body carrying one square collider, and nothing else changes.
pub fn create_player(engine: &mut PhysicsEngine, name: String) -> (player: Player)
    requires
        old(engine).wf(),
    ensures
        final(engine).wf(),
        player.name == name,
        player.score == 0,
        !old(engine).body_live(player.handle),
        final(engine).body_live(player.handle),
        final(engine).body_at(player.handle) == (RigidBody {
            kinematic: false,
            x: 600_000,
            y: 500_000,
            vx: 0,
            vy: 0,
        }),
        forall|h2: RigidBodyHandle|
            h2 != player.handle ==> final(engine).body_live(h2) == old(engine).body_live(h2),
        forall|h2: RigidBodyHandle|
            h2 != player.handle && old(engine).body_live(h2) ==> final(engine).body_at(h2) == old(engine).body_at(h2),
        exists|ch: ColliderHandle|
            {
                &&& !old(engine).collider_live(ch)
                &&& #[trigger] final(engine).collider_live(ch)
                &&& final(engine).collider_at(ch) == (Collider {
                    parent: Some(player.handle),
                    x: 0,
                    y: 0,
                    hx: 10_000,
                    hy: 10_000,
                })
                &&& forall|c2: ColliderHandle|
                    c2 != ch ==> final(engine).collider_live(c2) == old(engine).collider_live(c2)
                &&& forall|c2: ColliderHandle|
                    c2 != ch && old(engine).collider_live(c2) ==> final(engine).collider_at(c2)
                        == old(engine).collider_at(c2)
            },
{
    let x: i64 = 600_000;
    let y: i64 = 500_000;
    let player_handle = engine.insert_body(RigidBody { kinematic: false, x, y, vx: 0, vy: 0 });
    let collider = Collider { parent: None, x: 0, y: 0, hx: 10_000, hy: 10_000 };
    let _attached = engine.insert_collider_with_parent(collider, player_handle);
    Player { name, score: 0, handle: player_handle }
}

} // verus!
