//! The physics world: a generation-checked slot map of rigid bodies and
//! colliders over integer milliunit coordinates, with a fixed-tick `step`
//! that integrates dynamic bodies and reports collision-start events.
//!
//! Bodies are points with an axis-aligned box collider attached; two
//! colliders collide when their boxes overlap. A collision-start event is a
//! pair of colliders that overlap after a step but did not before it.

use crate::app_defines::AppDefines;
use vstd::prelude::*;

verus! {

/// Largest magnitude a coordinate may take; integration clamps to it.
pub const POS_LIMIT: i64 = 2_000_000_000;
/// Largest magnitude a velocity component may take, in milliunits per tick.
pub const VEL_LIMIT: i64 = 1_000_000;
/// Largest half-extent of a collider box, in milliunits.
pub const EXTENT_LIMIT: i64 = 1_000_000_000;

/// Non-owning, generation-checked reference to a rigid body.
#[derive(Clone, Copy, PartialEq, Eq, Structural, Debug)]
pub struct RigidBodyHandle {
    pub index: usize,
    pub generation: u64,
}

/// Non-owning, generation-checked reference to a collider.
#[derive(Clone, Copy, PartialEq, Eq, Structural, Debug)]
pub struct ColliderHandle {
    pub index: usize,
    pub generation: u64,
}

/// A point mass: position and velocity in milliunits. Kinematic bodies are
/// moved only by explicit repositioning; dynamic bodies integrate velocity.
#[derive(Clone, Copy, PartialEq, Eq, Structural, Debug)]
pub struct RigidBody {
    pub kinematic: bool,
    pub x: i64,
    pub y: i64,
    pub vx: i64,
    pub vy: i64,
}

/// An axis-aligned box. A collider with a parent sits at its parent body's
/// position; a parentless collider is static at its own `x`, `y`.
#[derive(Clone, Copy, Debug)]
pub struct Collider {
    pub parent: Option<RigidBodyHandle>,
    pub x: i64,
    pub y: i64,
    pub hx: i64,
    pub hy: i64,
}

struct BodySlot {
    live: bool,
    generation: u64,
    body: RigidBody,
}

struct ColliderSlot {
    live: bool,
    generation: u64,
    collider: Collider,
}

/// Represents the physics engine and its components.
pub struct PhysicsEngine {
    bodies: Vec<BodySlot>,
    colliders: Vec<ColliderSlot>,
    collision_events: Vec<(ColliderHandle, ColliderHandle)>,
}

/// Both states hold exactly the same live bodies, with the same data.
pub open spec fn bodies_unchanged(pre: PhysicsEngine, post: PhysicsEngine) -> bool {
    &&& forall|h: RigidBodyHandle| post.body_live(h) == pre.body_live(h)
    &&& forall|h: RigidBodyHandle| pre.body_live(h) ==> post.body_at(h) == pre.body_at(h)
}

/// Both states hold exactly the same live colliders, with the same data.
pub open spec fn colliders_unchanged(pre: PhysicsEngine, post: PhysicsEngine) -> bool {
    &&& forall|ch: ColliderHandle| post.collider_live(ch) == pre.collider_live(ch)
    &&& forall|ch: ColliderHandle| pre.collider_live(ch) ==> post.collider_at(ch) == pre.collider_at(ch)
}

/// A body whose coordinates the engine can hold.
pub open spec fn valid_body(b: RigidBody) -> bool {
    &&& -POS_LIMIT <= b.x <= POS_LIMIT
    &&& -POS_LIMIT <= b.y <= POS_LIMIT
    &&& -VEL_LIMIT <= b.vx <= VEL_LIMIT
    &&& -VEL_LIMIT <= b.vy <= VEL_LIMIT
}

/// A collider whose geometry the engine can hold.
pub open spec fn valid_collider(c: Collider) -> bool {
    &&& -POS_LIMIT <= c.x <= POS_LIMIT
    &&& -POS_LIMIT <= c.y <= POS_LIMIT
    &&& 0 < c.hx <= EXTENT_LIMIT
    &&& 0 < c.hy <= EXTENT_LIMIT
}

/// Clamps a coordinate into the representable range.
pub open spec fn clamp_pos(v: int) -> int {
    if v < -POS_LIMIT as int {
        -POS_LIMIT as int
    } else if v > POS_LIMIT as int {
        POS_LIMIT as int
    } else {
        v
    }
}

/// The state of a body after one tick of integration.
pub open spec fn stepped_body(b: RigidBody) -> RigidBody {
    if b.kinematic {
        b
    } else {
        RigidBody {
            kinematic: b.kinematic,
            x: clamp_pos(b.x + b.vx) as i64,
            y: clamp_pos(b.y + b.vy) as i64,
            vx: b.vx,
            vy: b.vy,
        }
    }
}

/// Whether two boxes at the given centres overlap.
pub open spec fn boxes_touch(
    x1: int,
    y1: int,
    c1: Collider,
    x2: int,
    y2: int,
    c2: Collider,
) -> bool {
    &&& -(c1.hx + c2.hx) <= x1 - x2 <= c1.hx + c2.hx
    &&& -(c1.hy + c2.hy) <= y1 - y2 <= c1.hy + c2.hy
}

/// The four static boundary colliders of the arena, indexed top, bottom,
/// left, right, in milliunits.
pub open spec fn boundary_collider(k: int) -> Collider {
    let w = (AppDefines::ARENA_WIDTH * AppDefines::SCALE) as i64;
    let h = (AppDefines::ARENA_HEIGHT * AppDefines::SCALE) as i64;
    let hw = (w / 2) as i64;
    let hh = (h / 2) as i64;
    let edge = AppDefines::SCALE;
    if k == 0 {
        Collider { parent: None, x: hw, y: h, hx: hw, hy: edge }
    } else if k == 1 {
        Collider { parent: None, x: hw, y: 0, hx: hw, hy: edge }
    } else if k == 2 {
        Collider { parent: None, x: 0, y: hh, hx: edge, hy: hh }
    } else {
        Collider { parent: None, x: w, y: hh, hx: edge, hy: hh }
    }
}

/// The four arena boundary colliders stand in `post`, fresh against
/// `pre`, pairwise distinct, and no collider beyond `pre`'s came to life
/// besides them: the collider set grew by exactly the four boundaries.
pub open spec fn boundaries_installed(pre: PhysicsEngine, post: PhysicsEngine) -> bool {
    exists|ch0: ColliderHandle, ch1: ColliderHandle, ch2: ColliderHandle, ch3: ColliderHandle|
        #![trigger post.collider_at(ch0), post.collider_at(ch1), post.collider_at(ch2), post.collider_at(ch3)]
        {
            &&& !pre.collider_live(ch0) && post.collider_live(ch0) && post.collider_at(ch0)
                == boundary_collider(0)
            &&& !pre.collider_live(ch1) && post.collider_live(ch1) && post.collider_at(ch1)
                == boundary_collider(1)
            &&& !pre.collider_live(ch2) && post.collider_live(ch2) && post.collider_at(ch2)
                == boundary_collider(2)
            &&& !pre.collider_live(ch3) && post.collider_live(ch3) && post.collider_at(ch3)
                == boundary_collider(3)
            &&& ch0 != ch1 && ch0 != ch2 && ch0 != ch3 && ch1 != ch2 && ch1 != ch3 && ch2 != ch3
            &&& forall|ch: ColliderHandle|
                post.collider_live(ch) ==> pre.collider_live(ch) || ch == ch0 || ch == ch1 || ch
                    == ch2 || ch == ch3
        }
}

/// A world whose live colliders are exactly the four arena boundaries.
pub open spec fn only_boundaries(post: PhysicsEngine) -> bool {
    exists|ch0: ColliderHandle, ch1: ColliderHandle, ch2: ColliderHandle, ch3: ColliderHandle|
        #![trigger post.collider_at(ch0), post.collider_at(ch1), post.collider_at(ch2), post.collider_at(ch3)]
        {
            &&& post.collider_live(ch0) && post.collider_at(ch0) == boundary_collider(0)
            &&& post.collider_live(ch1) && post.collider_at(ch1) == boundary_collider(1)
            &&& post.collider_live(ch2) && post.collider_at(ch2) == boundary_collider(2)
            &&& post.collider_live(ch3) && post.collider_at(ch3) == boundary_collider(3)
            &&& ch0 != ch1 && ch0 != ch2 && ch0 != ch3 && ch1 != ch2 && ch1 != ch3 && ch2 != ch3
            &&& forall|ch: ColliderHandle|
                post.collider_live(ch) ==> ch == ch0 || ch == ch1 || ch == ch2 || ch == ch3
        }
}

impl Default for PhysicsEngine {
    /// Creates a new default `PhysicsEngine` instance: an empty world.
    fn default() -> (r: PhysicsEngine)
        ensures
            r.wf(),
            forall|h: RigidBodyHandle| !r.body_live(h),
            forall|ch: ColliderHandle| !r.collider_live(ch),
            r.events().len() == 0,
    {
        PhysicsEngine::new()
    }
}

/// Decides whether two boxes at the given centres overlap.
fn touches(x1: i64, y1: i64, hx1: i64, hy1: i64, x2: i64, y2: i64, hx2: i64, hy2: i64) -> (r: bool)
    requires
        -POS_LIMIT <= x1 <= POS_LIMIT,
        -POS_LIMIT <= y1 <= POS_LIMIT,
        -POS_LIMIT <= x2 <= POS_LIMIT,
        -POS_LIMIT <= y2 <= POS_LIMIT,
        0 < hx1 <= EXTENT_LIMIT,
        0 < hy1 <= EXTENT_LIMIT,
        0 < hx2 <= EXTENT_LIMIT,
        0 < hy2 <= EXTENT_LIMIT,
    ensures
        r == boxes_touch(
            x1 as int,
            y1 as int,
            Collider { parent: None, x: 0, y: 0, hx: hx1, hy: hy1 },
            x2 as int,
            y2 as int,
            Collider { parent: None, x: 0, y: 0, hx: hx2, hy: hy2 },
        ),
{
    let dx = x1 - x2;
    let dy = y1 - y2;
    let sx = hx1 + hx2;
    let sy = hy1 + hy2;
    -sx <= dx && dx <= sx && -sy <= dy && dy <= sy
}

/// Membership in a sequence extended by `push`.
proof fn lemma_contains_push<T>(s: Seq<T>, e: T)
    ensures
        forall|x: T| s.contains(x) ==> #[trigger] s.push(e).contains(x),
        s.push(e).contains(e),
        forall|x: T| #[trigger] s.push(e).contains(x) ==> s.contains(x) || x == e,
{
    assert(s.push(e)[s.len() as int] == e);
    assert forall|x: T| s.contains(x) implies #[trigger] s.push(e).contains(x) by {
        let i = choose|i: int| 0 <= i < s.len() && s[i] == x;
        assert(s.push(e)[i] == x);
    }
    assert forall|x: T| #[trigger] s.push(e).contains(x) implies s.contains(x) || x == e by {
        let i = choose|i: int| 0 <= i < s.push(e).len() && s.push(e)[i] == x;
        if i < s.len() {
            assert(s[i] == x);
        }
    }
}

impl PhysicsEngine {
    /// Whether `h` refers to a live body of this engine.
    pub closed spec fn body_live(&self, h: RigidBodyHandle) -> bool {
        &&& h.index < self.bodies@.len()
        &&& self.bodies@[h.index as int].live
        &&& self.bodies@[h.index as int].generation == h.generation
    }

    /// The body `h` refers to, meaningful when `body_live(h)`.
    pub closed spec fn body_at(&self, h: RigidBodyHandle) -> RigidBody {
        self.bodies@[h.index as int].body
    }

    /// Whether `ch` refers to a live collider of this engine.
    pub closed spec fn collider_live(&self, ch: ColliderHandle) -> bool {
        &&& ch.index < self.colliders@.len()
        &&& self.colliders@[ch.index as int].live
        &&& self.colliders@[ch.index as int].generation == ch.generation
    }

    /// The collider `ch` refers to, meaningful when `collider_live(ch)`.
    pub closed spec fn collider_at(&self, ch: ColliderHandle) -> Collider {
        self.colliders@[ch.index as int].collider
    }

    /// The collision-start events yielded by the most recent `step`.
    pub closed spec fn events(&self) -> Seq<(ColliderHandle, ColliderHandle)> {
        self.collision_events@
    }

    /// A collider handle that is dead and can never come back: its slot has
    /// moved past the handle's generation. Retirement is preserved by every
    /// operation of the engine.
    pub closed spec fn collider_retired(&self, ch: ColliderHandle) -> bool {
        &&& ch.index < self.colliders@.len()
        &&& {
            ||| self.colliders@[ch.index as int].generation > ch.generation
            ||| (self.colliders@[ch.index as int].generation == ch.generation
                && !self.colliders@[ch.index as int].live)
        }
    }

    /// A retired collider handle is dead.
    pub proof fn lemma_retired_dead(&self, ch: ColliderHandle)
        ensures
            self.collider_retired(ch) ==> !self.collider_live(ch),
    {
    }

    /// The world position of a live collider before any stepping: its
    /// parent's position, or its own when it has no parent.
    pub open spec fn collider_world(&self, ch: ColliderHandle) -> (int, int) {
        match self.collider_at(ch).parent {
            Some(h) => (self.body_at(h).x as int, self.body_at(h).y as int),
            None => (self.collider_at(ch).x as int, self.collider_at(ch).y as int),
        }
    }

    /// The world position the collider will have after one integration tick.
    pub open spec fn collider_world_after(&self, ch: ColliderHandle) -> (int, int) {
        match self.collider_at(ch).parent {
            Some(h) => (
                stepped_body(self.body_at(h)).x as int,
                stepped_body(self.body_at(h)).y as int,
            ),
            None => (self.collider_at(ch).x as int, self.collider_at(ch).y as int),
        }
    }

    /// Whether two live colliders overlap before stepping.
    pub open spec fn overlap(&self, a: ColliderHandle, b: ColliderHandle) -> bool {
        boxes_touch(
            self.collider_world(a).0,
            self.collider_world(a).1,
            self.collider_at(a),
            self.collider_world(b).0,
            self.collider_world(b).1,
            self.collider_at(b),
        )
    }

    /// Whether two live colliders overlap after one integration tick.
    pub open spec fn overlap_after(&self, a: ColliderHandle, b: ColliderHandle) -> bool {
        boxes_touch(
            self.collider_world_after(a).0,
            self.collider_world_after(a).1,
            self.collider_at(a),
            self.collider_world_after(b).0,
            self.collider_world_after(b).1,
            self.collider_at(b),
        )
    }

    /// A collision-start: evaluated on the pre-step state, the pair comes to
    /// overlap through this tick's integration without overlapping before.
    pub open spec fn collision_started(&self, a: ColliderHandle, b: ColliderHandle) -> bool {
        &&& self.collider_live(a)
        &&& self.collider_live(b)
        &&& a.index < b.index
        &&& self.overlap_after(a, b)
        &&& !self.overlap(a, b)
    }

    /// Well-formedness: every live collider's parent is live, and all live
    /// geometry is within the representable ranges.
    pub closed spec fn wf(&self) -> bool {
        &&& forall|i: int|
            0 <= i < self.bodies@.len() && self.bodies@[i].live ==> valid_body(
                #[trigger] self.bodies@[i].body,
            )
        &&& forall|i: int|
            0 <= i < self.colliders@.len() && self.colliders@[i].live ==> valid_collider(
                #[trigger] self.colliders@[i].collider,
            )
        &&& forall|i: int|
            0 <= i < self.colliders@.len() && self.colliders@[i].live
                && (#[trigger] self.colliders@[i].collider).parent is Some ==> self.body_live(
                self.colliders@[i].collider.parent->0,
            )
    }

    /// Bridges the slot view of `wf` to handle-based facts callers use.
    pub proof fn lemma_wf_facts(&self, h: RigidBodyHandle, ch: ColliderHandle)
        requires
            self.wf(),
        ensures
            self.body_live(h) ==> valid_body(self.body_at(h)),
            self.collider_live(ch) ==> valid_collider(self.collider_at(ch)),
            self.collider_live(ch) && self.collider_at(ch).parent is Some ==> self.body_live(
                self.collider_at(ch).parent->0,
            ),
    {
    }

    /// Creates an empty world.
    pub fn new() -> (r: PhysicsEngine)
        ensures
            r.wf(),
            forall|h: RigidBodyHandle| !r.body_live(h),
            forall|ch: ColliderHandle| !r.collider_live(ch),
            r.events().len() == 0,
    {
        PhysicsEngine { bodies: Vec::new(), colliders: Vec::new(), collision_events: Vec::new() }
    }

    /// Inserts a body and returns a fresh handle to it.
    pub fn insert_body(&mut self, body: RigidBody) -> (h: RigidBodyHandle)
        requires
            old(self).wf(),
            valid_body(body),
        ensures
            final(self).wf(),
            !old(self).body_live(h),
            final(self).body_live(h),
            final(self).body_at(h) == body,
            forall|h2: RigidBodyHandle|
                h2 != h ==> final(self).body_live(h2) == old(self).body_live(h2),
            forall|h2: RigidBodyHandle|
                h2 != h && old(self).body_live(h2) ==> final(self).body_at(h2) == old(self).body_at(h2),
            colliders_unchanged(*old(self), *final(self)),
            final(self).events() == old(self).events(),
    {
        let mut i: usize = 0;
        let n = self.bodies.len();
        while i < n
            invariant
                old(self).wf(),
                valid_body(body),
                n == self.bodies@.len(),
                i <= n,
                *self == *old(self),
                forall|k: int| 0 <= k < i ==> self.bodies@[k].live || self.bodies@[k].generation == u64::MAX,
            decreases n - i,
        {
            if !self.bodies[i].live && self.bodies[i].generation < u64::MAX {
                let generation = self.bodies[i].generation + 1;
                self.bodies.set(i, BodySlot { live: true, generation, body });
                let h = RigidBodyHandle { index: i, generation };
                proof {
                    assert forall|h2: RigidBodyHandle| h2 != h implies self.body_live(h2) == old(self).body_live(h2) by {
                        if h2.index == i {
                            assert(!old(self).body_live(h2) && !self.body_live(h2));
                        }
                    }
                    assert forall|k: int|
                        0 <= k < self.colliders@.len() && self.colliders@[k].live && (
                        #[trigger] self.colliders@[k].collider).parent is Some implies self
                        .body_live(self.colliders@[k].collider.parent->0) by {
                        let p = self.colliders@[k].collider.parent->0;
                        assert(old(self).colliders@[k].collider == self.colliders@[k].collider);
                        assert(old(self).body_live(p));
                        assert(p.index != i);
                    }
                }
                return h;
            }
            i += 1;
        }
        let generation: u64 = 0;
        let index = self.bodies.len();
        self.bodies.push(BodySlot { live: true, generation, body });
        RigidBodyHandle { index, generation }
    }

    /// Inserts a static, parentless collider and returns a fresh handle.
    pub fn insert_collider(&mut self, collider: Collider) -> (ch: ColliderHandle)
        requires
            old(self).wf(),
            valid_collider(collider),
            collider.parent is None,
        ensures
            final(self).wf(),
            !old(self).collider_live(ch),
            final(self).collider_live(ch),
            final(self).collider_at(ch) == collider,
            forall|c2: ColliderHandle|
                c2 != ch ==> final(self).collider_live(c2) == old(self).collider_live(c2),
            forall|c2: ColliderHandle|
                c2 != ch && old(self).collider_live(c2) ==> final(self).collider_at(c2) == old(self).collider_at(c2),
            bodies_unchanged(*old(self), *final(self)),
            final(self).events() == old(self).events(),
            forall|c2: ColliderHandle|
                old(self).collider_retired(c2) ==> final(self).collider_retired(c2),
    {
        self.insert_collider_slot(collider)
    }

    /// Inserts a collider attached to the live body `parent`.
    pub fn insert_collider_with_parent(
        &mut self,
        collider: Collider,
        parent: RigidBodyHandle,
    ) -> (ch: ColliderHandle)
        requires
            old(self).wf(),
            valid_collider(collider),
            old(self).body_live(parent),
        ensures
            final(self).wf(),
            !old(self).collider_live(ch),
            final(self).collider_live(ch),
            final(self).collider_at(ch) == (Collider { parent: Some(parent), ..collider }),
            forall|c2: ColliderHandle|
                c2 != ch ==> final(self).collider_live(c2) == old(self).collider_live(c2),
            forall|c2: ColliderHandle|
                c2 != ch && old(self).collider_live(c2) ==> final(self).collider_at(c2) == old(self).collider_at(c2),
            bodies_unchanged(*old(self), *final(self)),
            final(self).events() == old(self).events(),
            forall|c2: ColliderHandle|
                old(self).collider_retired(c2) ==> final(self).collider_retired(c2),
    {
        let c = Collider {
            parent: Some(parent),
            x: collider.x,
            y: collider.y,
            hx: collider.hx,
            hy: collider.hy,
        };
        self.insert_collider_slot(c)
    }

    /// Shared slot allocation for collider insertion.
    fn insert_collider_slot(&mut self, collider: Collider) -> (ch: ColliderHandle)
        requires
            old(self).wf(),
            valid_collider(collider),
            collider.parent matches Some(p) ==> old(self).body_live(p),
        ensures
            final(self).wf(),
            !old(self).collider_live(ch),
            final(self).collider_live(ch),
            final(self).collider_at(ch) == collider,
            forall|c2: ColliderHandle|
                c2 != ch ==> final(self).collider_live(c2) == old(self).collider_live(c2),
            forall|c2: ColliderHandle|
                c2 != ch && old(self).collider_live(c2) ==> final(self).collider_at(c2) == old(self).collider_at(c2),
            bodies_unchanged(*old(self), *final(self)),
            final(self).events() == old(self).events(),
            forall|c2: ColliderHandle|
                old(self).collider_retired(c2) ==> final(self).collider_retired(c2),
    {
        let mut i: usize = 0;
        let n = self.colliders.len();
        while i < n
            invariant
                old(self).wf(),
                valid_collider(collider),
                collider.parent matches Some(p) ==> old(self).body_live(p),
                n == self.colliders@.len(),
                i <= n,
                *self == *old(self),
            decreases n - i,
        {
            if !self.colliders[i].live && self.colliders[i].generation < u64::MAX {
                let generation = self.colliders[i].generation + 1;
                self.colliders.set(i, ColliderSlot { live: true, generation, collider });
                let ch = ColliderHandle { index: i, generation };
                proof {
                    assert forall|c2: ColliderHandle| c2 != ch implies self.collider_live(c2)
                        == old(self).collider_live(c2) by {
                        if c2.index == i {
                            assert(!old(self).collider_live(c2) && !self.collider_live(c2));
                        }
                    }
                    assert forall|k: int|
                        0 <= k < self.colliders@.len() && self.colliders@[k].live && (
                        #[trigger] self.colliders@[k].collider).parent is Some implies self
                        .body_live(self.colliders@[k].collider.parent->0) by {
                        if k != i {
                            assert(old(self).colliders@[k].collider
                                == self.colliders@[k].collider);
                            assert(old(self).body_live(self.colliders@[k].collider.parent->0));
                        }
                    }
                }
                return ch;
            }
            i += 1;
        }
        let generation: u64 = 0;
        let index = self.colliders.len();
        self.colliders.push(ColliderSlot { live: true, generation, collider });
        let ch = ColliderHandle { index, generation };
        proof {
            assert forall|k: int|
                0 <= k < self.colliders@.len() && self.colliders@[k].live && (
                #[trigger] self.colliders@[k].collider).parent is Some implies self.body_live(
                self.colliders@[k].collider.parent->0,
            ) by {
                if k < old(self).colliders@.len() {
                    assert(old(self).colliders@[k].collider == self.colliders@[k].collider);
                    assert(old(self).body_live(self.colliders@[k].collider.parent->0));
                }
            }
        }
        ch
    }

    /// Removes a body together with every collider attached to it; a no-op
    /// when the handle is already dead, so removal is idempotent.
    pub fn remove_body(&mut self, h: RigidBodyHandle)
        requires
            old(self).wf(),
        ensures
            final(self).wf(),
            !final(self).body_live(h),
            forall|h2: RigidBodyHandle|
                h2 != h ==> final(self).body_live(h2) == old(self).body_live(h2),
            forall|h2: RigidBodyHandle|
                h2 != h && old(self).body_live(h2) ==> final(self).body_at(h2) == old(self).body_at(h2),
            forall|ch: ColliderHandle|
                final(self).collider_live(ch) == (old(self).collider_live(ch) && old(self).collider_at(ch).parent != Some(h)),
            forall|ch: ColliderHandle|
                final(self).collider_live(ch) ==> final(self).collider_at(ch) == old(self).collider_at(ch),
            forall|c2: ColliderHandle|
                old(self).collider_retired(c2) ==> final(self).collider_retired(c2),
            final(self).events() == old(self).events(),
    {
        let live = h.index < self.bodies.len() && self.bodies[h.index].live
            && self.bodies[h.index].generation == h.generation;
        if !live {
            return ;
        }
        let slot_body = self.bodies[h.index].body;
        let generation = self.bodies[h.index].generation;
        self.bodies.set(h.index, BodySlot { live: false, generation, body: slot_body });
        let n = self.colliders.len();
        let mut i: usize = 0;
        while i < n
            invariant
                old(self).wf(),
                old(self).body_live(h),
                n == self.colliders@.len(),
                i <= n,
                self.bodies@ == old(self).bodies@.update(
                    h.index as int,
                    BodySlot {
                        live: false,
                        generation: h.generation,
                        body: old(self).body_at(h),
                    },
                ),
                self.collision_events@ == old(self).collision_events@,
                forall|k: int|
                    0 <= k < i ==> #[trigger] self.colliders@[k].live == (old(self).colliders@[k].live && old(self).colliders@[k].collider.parent != Some(h)),
                forall|k: int|
                    i <= k < n ==> #[trigger] self.colliders@[k] == old(self).colliders@[k],
                forall|k: int|
                    0 <= k < n ==> (#[trigger] self.colliders@[k]).generation == old(self).colliders@[k].generation && self.colliders@[k].collider == old(self).colliders@[k].collider,
            decreases n - i,
        {
            if self.colliders[i].live {
                let c = self.colliders[i].collider;
                let is_child = match c.parent {
                    Some(p) => p.index == h.index && p.generation == h.generation,
                    None => false,
                };
                if is_child {
                    let generation = self.colliders[i].generation;
                    self.colliders.set(i, ColliderSlot { live: false, generation, collider: c });
                }
            }
            i += 1;
        }
        proof {
            assert forall|k: int|
                0 <= k < self.colliders@.len() && self.colliders@[k].live && (
                #[trigger] self.colliders@[k].collider).parent is Some implies self.body_live(
                self.colliders@[k].collider.parent->0,
            ) by {
                let p = self.colliders@[k].collider.parent->0;
                assert(old(self).colliders@[k].collider == self.colliders@[k].collider);
                assert(old(self).colliders@[k].live);
                assert(old(self).body_live(p));
                assert(p != h);
            }
        }
    }

    /// Removes a single collider; a no-op when the handle is already dead.
    pub fn remove_collider(&mut self, ch: ColliderHandle)
        requires
            old(self).wf(),
        ensures
            final(self).wf(),
            !final(self).collider_live(ch),
            forall|c2: ColliderHandle|
                c2 != ch ==> final(self).collider_live(c2) == old(self).collider_live(c2),
            forall|c2: ColliderHandle|
                c2 != ch && old(self).collider_live(c2) ==> final(self).collider_at(c2) == old(self).collider_at(c2),
            bodies_unchanged(*old(self), *final(self)),
            final(self).events() == old(self).events(),
            old(self).collider_live(ch) || old(self).collider_retired(ch) ==> final(self).collider_retired(ch),
            forall|c2: ColliderHandle|
                old(self).collider_retired(c2) ==> final(self).collider_retired(c2),
    {
        let live = ch.index < self.colliders.len() && self.colliders[ch.index].live
            && self.colliders[ch.index].generation == ch.generation;
        if !live {
            return ;
        }
        let c = self.colliders[ch.index].collider;
        let generation = self.colliders[ch.index].generation;
        self.colliders.set(ch.index, ColliderSlot { live: false, generation, collider: c });
        proof {
            assert forall|k: int|
                0 <= k < self.colliders@.len() && self.colliders@[k].live && (
                #[trigger] self.colliders@[k].collider).parent is Some implies self.body_live(
                self.colliders@[k].collider.parent->0,
            ) by {
                assert(old(self).colliders@[k].collider == self.colliders@[k].collider);
                assert(old(self).colliders@[k].live);
                assert(old(self).body_live(self.colliders@[k].collider.parent->0));
            }
        }
    }

    /// Decides whether `ch` refers to a live collider.
    pub fn is_collider_live(&self, ch: ColliderHandle) -> (r: bool)
        ensures
            r == self.collider_live(ch),
    {
        ch.index < self.colliders.len() && self.colliders[ch.index].live
            && self.colliders[ch.index].generation == ch.generation
    }

    /// Reads the parent body of a live collider.
    pub fn collider_parent(&self, ch: ColliderHandle) -> (r: Option<RigidBodyHandle>)
        requires
            self.collider_live(ch),
        ensures
            r == self.collider_at(ch).parent,
    {
        self.colliders[ch.index].collider.parent
    }

    /// Reads the position of a live body.
    pub fn translation(&self, h: RigidBodyHandle) -> (p: (i64, i64))
        requires
            self.body_live(h),
        ensures
            p.0 == self.body_at(h).x,
            p.1 == self.body_at(h).y,
    {
        let b = &self.bodies[h.index].body;
        (b.x, b.y)
    }

    /// Moves a live body to the given position.
    pub fn set_translation(&mut self, h: RigidBodyHandle, x: i64, y: i64)
        requires
            old(self).wf(),
            old(self).body_live(h),
            -POS_LIMIT <= x <= POS_LIMIT,
            -POS_LIMIT <= y <= POS_LIMIT,
        ensures
            final(self).wf(),
            forall|h2: RigidBodyHandle|
                final(self).body_live(h2) == old(self).body_live(h2),
            final(self).body_at(h) == (RigidBody { x, y, ..old(self).body_at(h) }),
            forall|h2: RigidBodyHandle|
                h2 != h && old(self).body_live(h2) ==> final(self).body_at(h2) == old(self).body_at(h2),
            colliders_unchanged(*old(self), *final(self)),
            final(self).events() == old(self).events(),
            forall|c2: ColliderHandle|
                old(self).collider_retired(c2) ==> final(self).collider_retired(c2),
    {
        let b = self.bodies[h.index].body;
        let generation = self.bodies[h.index].generation;
        let nb = RigidBody { kinematic: b.kinematic, x, y, vx: b.vx, vy: b.vy };
        self.bodies.set(h.index, BodySlot { live: true, generation, body: nb });
        proof {
            assert forall|k: int|
                0 <= k < self.colliders@.len() && self.colliders@[k].live && (
                #[trigger] self.colliders@[k].collider).parent is Some implies self.body_live(
                self.colliders@[k].collider.parent->0,
            ) by {
                assert(old(self).colliders@[k].collider == self.colliders@[k].collider);
                assert(old(self).body_live(self.colliders@[k].collider.parent->0));
            }
        }
    }

    /// The handle that designates the collider in slot `i`.
    pub closed spec fn chandle(&self, i: int) -> ColliderHandle {
        ColliderHandle { index: i as usize, generation: self.colliders@[i].generation }
    }

    /// Computes the post-integration state of a body.
    fn stepped_exec(&self, b: RigidBody) -> (r: RigidBody)
        requires
            valid_body(b),
        ensures
            r == stepped_body(b),
    {
        if b.kinematic {
            b
        } else {
            let mut nx = b.x + b.vx;
            let mut ny = b.y + b.vy;
            if nx < -POS_LIMIT {
                nx = -POS_LIMIT;
            }
            if nx > POS_LIMIT {
                nx = POS_LIMIT;
            }
            if ny < -POS_LIMIT {
                ny = -POS_LIMIT;
            }
            if ny > POS_LIMIT {
                ny = POS_LIMIT;
            }
            RigidBody { kinematic: b.kinematic, x: nx, y: ny, vx: b.vx, vy: b.vy }
        }
    }

    /// The world position of the collider in slot `i`, before stepping when
    /// `after` is false and after one integration tick when it is true.
    fn slot_world(&self, i: usize, after: bool) -> (p: (i64, i64))
        requires
            self.wf(),
            i < self.colliders@.len(),
            self.colliders@[i as int].live,
        ensures
            !after ==> (p.0 as int, p.1 as int) == self.collider_world(self.chandle(i as int)),
            after ==> (p.0 as int, p.1 as int) == self.collider_world_after(
                self.chandle(i as int),
            ),
            -POS_LIMIT <= p.0 <= POS_LIMIT,
            -POS_LIMIT <= p.1 <= POS_LIMIT,
    {
        let c = self.colliders[i].collider;
        proof {
            assert(self.collider_at(self.chandle(i as int)) == c);
        }
        match c.parent {
            Some(h) => {
                proof {
                    self.lemma_wf_facts(h, self.chandle(i as int));
                }
                let b = self.bodies[h.index].body;
                if after {
                    let sb = self.stepped_exec(b);
                    (sb.x, sb.y)
                } else {
                    (b.x, b.y)
                }
            },
            None => (c.x, c.y),
        }
    }

    /// Decides whether the live colliders in slots `a` and `b` start
    /// colliding through this tick's integration.
    fn check_started(&self, a: usize, b: usize) -> (r: bool)
        requires
            self.wf(),
            a < b,
            b < self.colliders@.len(),
            self.colliders@[a as int].live,
            self.colliders@[b as int].live,
        ensures
            r == self.collision_started(self.chandle(a as int), self.chandle(b as int)),
    {
        let ca = self.colliders[a].collider;
        let cb = self.colliders[b].collider;
        proof {
            self.lemma_wf_facts(RigidBodyHandle { index: 0, generation: 0 }, self.chandle(a as int));
            self.lemma_wf_facts(RigidBodyHandle { index: 0, generation: 0 }, self.chandle(b as int));
        }
        let pa_old = self.slot_world(a, false);
        let pb_old = self.slot_world(b, false);
        let pa_new = self.slot_world(a, true);
        let pb_new = self.slot_world(b, true);
        let touched_before = touches(pa_old.0, pa_old.1, ca.hx, ca.hy, pb_old.0, pb_old.1, cb.hx, cb.hy);
        let touches_after = touches(pa_new.0, pa_new.1, ca.hx, ca.hy, pb_new.0, pb_new.1, cb.hx, cb.hy);
        touches_after && !touched_before
    }

    /// Advances the physics simulation by one step.
    ///
    /// Clears previous collision events, integrates every dynamic body by
    /// its velocity, and records the collision-start events of this tick.
    pub fn step(&mut self)
        requires
            old(self).wf(),
        ensures
            final(self).wf(),
            forall|h: RigidBodyHandle| final(self).body_live(h) == old(self).body_live(h),
            forall|h: RigidBodyHandle|
                old(self).body_live(h) ==> final(self).body_at(h) == stepped_body(
                    old(self).body_at(h),
                ),
            colliders_unchanged(*old(self), *final(self)),
            forall|k: int|
                0 <= k < final(self).events().len() ==> old(self).collision_started(
                    (#[trigger] final(self).events()[k]).0,
                    final(self).events()[k].1,
                ),
            forall|a: ColliderHandle, b: ColliderHandle|
                old(self).collision_started(a, b) ==> final(self).events().contains((a, b)),
    {
        let ghost pre = *self;
        let mut events: Vec<(ColliderHandle, ColliderHandle)> = Vec::new();
        let ncol = self.colliders.len();
        let mut a: usize = 0;
        while a < ncol
            invariant
                *self == pre,
                pre.wf(),
                ncol == self.colliders@.len(),
                a <= ncol,
                forall|k: int|
                    0 <= k < events@.len() ==> pre.collision_started(
                        (#[trigger] events@[k]).0,
                        events@[k].1,
                    ),
                forall|a2: ColliderHandle, b2: ColliderHandle|
                    pre.collision_started(a2, b2) && a2.index < a ==> events@.contains((a2, b2)),
            decreases ncol - a,
        {
            if self.colliders[a].live {
                let mut b = a + 1;
                while b < ncol
                    invariant
                        *self == pre,
                        pre.wf(),
                        ncol == self.colliders@.len(),
                        a < ncol,
                        self.colliders@[a as int].live,
                        a < b <= ncol,
                        forall|k: int|
                            0 <= k < events@.len() ==> pre.collision_started(
                                (#[trigger] events@[k]).0,
                                events@[k].1,
                            ),
                        forall|a2: ColliderHandle, b2: ColliderHandle|
                            pre.collision_started(a2, b2) && a2.index < a ==> events@.contains(
                                (a2, b2),
                            ),
                        forall|b2: ColliderHandle|
                            pre.collision_started(pre.chandle(a as int), b2) && b2.index < b
                                ==> events@.contains((pre.chandle(a as int), b2)),
                    decreases ncol - b,
                {
                    if self.colliders[b].live {
                        if self.check_started(a, b) {
                            let ha = ColliderHandle {
                                index: a,
                                generation: self.colliders[a].generation,
                            };
                            let hb = ColliderHandle {
                                index: b,
                                generation: self.colliders[b].generation,
                            };
                            proof {
                                lemma_contains_push(events@, (ha, hb));
                            }
                            events.push((ha, hb));
                        } else {
                            proof {
                                assert forall|b2: ColliderHandle|
                                    pre.collision_started(pre.chandle(a as int), b2) && b2.index
                                        < b + 1 implies events@.contains(
                                    (pre.chandle(a as int), b2),
                                ) by {
                                    if b2.index == b {
                                        assert(b2 == pre.chandle(b as int));
                                    }
                                }
                            }
                        }
                    } else {
                        proof {
                            assert forall|b2: ColliderHandle|
                                pre.collision_started(pre.chandle(a as int), b2) && b2.index < b
                                    + 1 implies events@.contains((pre.chandle(a as int), b2)) by {
                                if b2.index == b {
                                    assert(!pre.collider_live(b2));
                                }
                            }
                        }
                    }
                    b += 1;
                }
                proof {
                    assert forall|a2: ColliderHandle, b2: ColliderHandle|
                        pre.collision_started(a2, b2) && a2.index < a + 1 implies events@.contains(
                        (a2, b2),
                    ) by {
                        if a2.index == a {
                            assert(a2 == pre.chandle(a as int));
                            assert(b2.index < ncol);
                        }
                    }
                }
            } else {
                proof {
                    assert forall|a2: ColliderHandle, b2: ColliderHandle|
                        pre.collision_started(a2, b2) && a2.index < a + 1 implies events@.contains(
                        (a2, b2),
                    ) by {
                        if a2.index == a {
                            assert(!pre.collider_live(a2));
                        }
                    }
                }
            }
            a += 1;
        }
        let nbod = self.bodies.len();
        let mut i: usize = 0;
        while i < nbod
            invariant
                pre.wf(),
                nbod == self.bodies@.len(),
                nbod == pre.bodies@.len(),
                i <= nbod,
                self.colliders@ == pre.colliders@,
                self.collision_events@ == pre.collision_events@,
                forall|k: int|
                    0 <= k < i ==> #[trigger] self.bodies@[k] == (BodySlot {
                        live: pre.bodies@[k].live,
                        generation: pre.bodies@[k].generation,
                        body: if pre.bodies@[k].live {
                            stepped_body(pre.bodies@[k].body)
                        } else {
                            pre.bodies@[k].body
                        },
                    }),
                forall|k: int| i <= k < nbod ==> #[trigger] self.bodies@[k] == pre.bodies@[k],
            decreases nbod - i,
        {
            let slot_live = self.bodies[i].live;
            if slot_live {
                let b = self.bodies[i].body;
                let generation = self.bodies[i].generation;
                proof {
                    assert(pre.bodies@[i as int].live);
                    assert(valid_body(pre.bodies@[i as int].body));
                }
                let nb = self.stepped_exec(b);
                self.bodies.set(i, BodySlot { live: true, generation, body: nb });
            }
            i += 1;
        }
        self.collision_events = events;
        proof {
            assert forall|k: int|
                0 <= k < self.colliders@.len() && self.colliders@[k].live && (
                #[trigger] self.colliders@[k].collider).parent is Some implies self.body_live(
                self.colliders@[k].collider.parent->0,
            ) by {
                assert(pre.colliders@[k].collider == self.colliders@[k].collider);
                assert(pre.body_live(self.colliders@[k].collider.parent->0));
            }
        }
    }

    /// Sets up the boundary colliders for the simulation area: four static
    /// boxes along the top, bottom, left, and right arena edges.
    pub fn setup_boundaries(&mut self)
        requires
            old(self).wf(),
        ensures
            final(self).wf(),
            boundaries_installed(*old(self), *final(self)),
            forall|c2: ColliderHandle|
                old(self).collider_live(c2) ==> final(self).collider_live(c2) && final(self).collider_at(c2) == old(self).collider_at(c2),
            bodies_unchanged(*old(self), *final(self)),
            final(self).events() == old(self).events(),
    {
        let ghost pre = *self;
        let w = AppDefines::ARENA_WIDTH * AppDefines::SCALE;
        let h = AppDefines::ARENA_HEIGHT * AppDefines::SCALE;
        let edge = AppDefines::SCALE;
        let top = Collider { parent: None, x: w / 2, y: h, hx: w / 2, hy: edge };
        let bottom = Collider { parent: None, x: w / 2, y: 0, hx: w / 2, hy: edge };
        let left = Collider { parent: None, x: 0, y: h / 2, hx: edge, hy: h / 2 };
        let right = Collider { parent: None, x: w, y: h / 2, hx: edge, hy: h / 2 };
        let ch0 = self.insert_collider(top);
        let ghost s0 = *self;
        let ch1 = self.insert_collider(bottom);
        let ghost s1 = *self;
        let ch2 = self.insert_collider(left);
        let ghost s2 = *self;
        let ch3 = self.insert_collider(right);
        proof {
            assert(!pre.collider_live(ch0) && self.collider_live(ch0) && self.collider_at(ch0)
                == boundary_collider(0));
            assert(!pre.collider_live(ch1) && self.collider_live(ch1) && self.collider_at(ch1)
                == boundary_collider(1));
            assert(!pre.collider_live(ch2) && self.collider_live(ch2) && self.collider_at(ch2)
                == boundary_collider(2));
            assert(!pre.collider_live(ch3) && self.collider_live(ch3) && self.collider_at(ch3)
                == boundary_collider(3));
            assert(ch0 != ch1 && ch0 != ch2 && ch0 != ch3 && ch1 != ch2 && ch1 != ch3 && ch2
                != ch3) by {
                assert(s0.collider_live(ch0) && !s0.collider_live(ch1));
                assert(s1.collider_live(ch1) && !s1.collider_live(ch2));
                assert(s2.collider_live(ch2) && !s2.collider_live(ch3));
            }
            assert forall|ch: ColliderHandle|
                self.collider_live(ch) implies pre.collider_live(ch) || ch == ch0 || ch == ch1
                || ch == ch2 || ch == ch3 by {
                if ch != ch0 && ch != ch1 && ch != ch2 && ch != ch3 {
                    assert(s2.collider_live(ch));
                    assert(s1.collider_live(ch));
                    assert(s0.collider_live(ch));
                    assert(pre.collider_live(ch));
                }
            }
            assert(boundaries_installed(pre, *self));
        }
    }

    /// Sets up the physics simulation, including boundaries.
    pub fn setup_physics(&mut self)
        requires
            old(self).wf(),
        ensures
            final(self).wf(),
            boundaries_installed(*old(self), *final(self)),
            forall|c2: ColliderHandle|
                old(self).collider_live(c2) ==> final(self).collider_live(c2) && final(self).collider_at(c2) == old(self).collider_at(c2),
            bodies_unchanged(*old(self), *final(self)),
            final(self).events() == old(self).events(),
    {
        self.setup_boundaries();
    }

    /// Hands out this tick's collision events, clearing the internal list.
    pub fn drain_events(&mut self) -> (evs: Vec<(ColliderHandle, ColliderHandle)>)
        requires
            old(self).wf(),
        ensures
            final(self).wf(),
            evs@ == old(self).events(),
            final(self).events().len() == 0,
            bodies_unchanged(*old(self), *final(self)),
            colliders_unchanged(*old(self), *final(self)),
    {
        let mut evs: Vec<(ColliderHandle, ColliderHandle)> = Vec::new();
        core::mem::swap(&mut evs, &mut self.collision_events);
        evs
    }
}

} // verus!
