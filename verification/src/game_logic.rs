//! The game logic: the authoritative composition of physics world,
//! entities, bullets, and obstacles, with the per-tick update, collision
//! scoring, pruning, reset, and map regeneration rules.

use crate::app_defines::AppDefines;
use crate::bullet::{bullet_velocity, Bullet};
use crate::entities::{entity_body, entity_wf, pos_in_arena, pos_in_interior, Entity};
use crate::obstacles::Obstacle;
use crate::physics::{Collider, ColliderHandle, PhysicsEngine, RigidBody, RigidBodyHandle};
use vstd::prelude::*;

verus! {

/// Represents the game logic and manages the state of the game.
///
/// Times are in simulation ticks; `now` is the current tick.
pub struct GameLogic {
    /// The physics engine managing the physical simulation.
    pub physics_engine: PhysicsEngine,
    /// A list of entities in the game.
    pub entities: Vec<Entity>,
    /// A list of bullets currently in the game.
    pub bullets: Vec<Bullet>,
    /// A list of obstacles in the game.
    pub obstacles: Vec<Obstacle>,
    /// The current simulation tick.
    pub now: u64,
}

/// Whether the event pairs a collider owned by the body `bh` with a
/// collider owned by the body `eh`.
pub open spec fn event_links(
    p: PhysicsEngine,
    ev: (ColliderHandle, ColliderHandle),
    bh: RigidBodyHandle,
    eh: RigidBodyHandle,
) -> bool {
    ||| {
        &&& p.collider_live(ev.0)
        &&& p.collider_at(ev.0).parent == Some(bh)
        &&& p.collider_live(ev.1)
        &&& p.collider_at(ev.1).parent == Some(eh)
    }
    ||| {
        &&& p.collider_live(ev.1)
        &&& p.collider_at(ev.1).parent == Some(bh)
        &&& p.collider_live(ev.0)
        &&& p.collider_at(ev.0).parent == Some(eh)
    }
}

/// Whether some event of `events` hits bullet `b` against an entity other
/// than its shooter.
pub open spec fn bullet_hit_events(
    p: PhysicsEngine,
    entities: Seq<Entity>,
    events: Seq<(ColliderHandle, ColliderHandle)>,
    b: Bullet,
) -> bool {
    exists|k: int, j: int|
        {
            &&& 0 <= k < events.len()
            &&& 0 <= j < entities.len()
            &&& entities[j].handle != b.shooter
            &&& event_links(p, events[k], b.handle, entities[j].handle)
        }
}

/// `bullet_hit_events` reads only collider data, which both states share.
proof fn lemma_hit_same(
    p1: PhysicsEngine,
    p2: PhysicsEngine,
    entities: Seq<Entity>,
    events: Seq<(ColliderHandle, ColliderHandle)>,
    b: Bullet,
)
    requires
        crate::physics::colliders_unchanged(p1, p2),
    ensures
        bullet_hit_events(p1, entities, events, b) == bullet_hit_events(p2, entities, events, b),
{
    if bullet_hit_events(p1, entities, events, b) {
        let (k, j) = choose|k: int, j: int|
            {
                &&& 0 <= k < events.len()
                &&& 0 <= j < entities.len()
                &&& entities[j].handle != b.shooter
                &&& event_links(p1, events[k], b.handle, entities[j].handle)
            };
        assert(event_links(p2, events[k], b.handle, entities[j].handle));
        assert(bullet_hit_events(p2, entities, events, b));
    }
    if bullet_hit_events(p2, entities, events, b) {
        let (k, j) = choose|k: int, j: int|
            {
                &&& 0 <= k < events.len()
                &&& 0 <= j < entities.len()
                &&& entities[j].handle != b.shooter
                &&& event_links(p2, events[k], b.handle, entities[j].handle)
            };
        assert(event_links(p1, events[k], b.handle, entities[j].handle));
        assert(bullet_hit_events(p1, entities, events, b));
    }
}

/// How many of the bullets in `bs` both were hit this tick (under `pre`'s
/// events) and belong to the shooter `shooter`: the score this tick awards.
pub open spec fn hits_scored(pre: GameLogic, bs: Seq<Bullet>, shooter: RigidBodyHandle) -> int
    decreases bs.len(),
{
    if bs.len() == 0 {
        0
    } else {
        hits_scored(pre, bs.drop_last(), shooter) + if pre.bullet_hit(bs.last())
            && bs.last().shooter == shooter {
            1int
        } else {
            0int
        }
    }
}

/// The bullets of `bs` that survive `pre`'s collision events, in order.
pub open spec fn surviving(pre: GameLogic, bs: Seq<Bullet>) -> Seq<Bullet>
    decreases bs.len(),
{
    if bs.len() == 0 {
        Seq::empty()
    } else if pre.bullet_hit(bs.first()) {
        surviving(pre, bs.drop_first())
    } else {
        seq![bs.first()] + surviving(pre, bs.drop_first())
    }
}

/// Whether `h` is the body of some bullet of `bs` that was hit this tick.
pub open spec fn hit_body(pre: GameLogic, bs: Seq<Bullet>, h: RigidBodyHandle) -> bool {
    exists|i: int| 0 <= i < bs.len() && (#[trigger] bs[i]).handle == h && pre.bullet_hit(bs[i])
}

/// The bullets of `bs` not marked dead by `dead`, in order.
pub open spec fn kept_front(bs: Seq<Bullet>, dead: spec_fn(Bullet) -> bool) -> Seq<Bullet>
    decreases bs.len(),
{
    if bs.len() == 0 {
        Seq::empty()
    } else if dead(bs.first()) {
        kept_front(bs.drop_first(), dead)
    } else {
        seq![bs.first()] + kept_front(bs.drop_first(), dead)
    }
}

/// Whether `h` is the body of some bullet of `bs` marked dead by `dead`.
pub open spec fn marked_body(
    bs: Seq<Bullet>,
    dead: spec_fn(Bullet) -> bool,
    h: RigidBodyHandle,
) -> bool {
    exists|i: int| 0 <= i < bs.len() && (#[trigger] bs[i]).handle == h && dead(bs[i])
}

/// Whether the collider `ch` is attached to the body of some bullet of
/// `bs` marked dead by `dead`, and so goes when those bullets go.
pub open spec fn collider_doomed(
    eng: PhysicsEngine,
    bs: Seq<Bullet>,
    dead: spec_fn(Bullet) -> bool,
    ch: ColliderHandle,
) -> bool {
    match eng.collider_at(ch).parent {
        Some(p) => marked_body(bs, dead, p),
        None => false,
    }
}

/// Unrolls `marked_body` of a suffix by one element.
proof fn lemma_marked_body_skip(
    bs: Seq<Bullet>,
    dead: spec_fn(Bullet) -> bool,
    i: int,
    h: RigidBodyHandle,
)
    requires
        0 <= i < bs.len(),
    ensures
        marked_body(bs.skip(i), dead, h) == (marked_body(bs.skip(i + 1), dead, h) || (bs[i].handle
            == h && dead(bs[i]))),
{
    let s1 = bs.skip(i);
    let s2 = bs.skip(i + 1);
    if marked_body(s1, dead, h) {
        let k = choose|k: int| 0 <= k < s1.len() && s1[k].handle == h && dead(s1[k]);
        if k == 0 {
            assert(s1[0] == bs[i]);
        } else {
            assert(s2[k - 1] == s1[k]);
            assert(marked_body(s2, dead, h));
        }
    }
    if marked_body(s2, dead, h) {
        let k = choose|k: int| 0 <= k < s2.len() && s2[k].handle == h && dead(s2[k]);
        assert(s1[k + 1] == s2[k]);
        assert(marked_body(s1, dead, h));
    }
    if bs[i].handle == h && dead(bs[i]) {
        assert(s1[0] == bs[i]);
        assert(marked_body(s1, dead, h));
    }
}

/// A bullet whose age has reached the maximum age, in ticks.
pub open spec fn bullet_expired(now: u64, max_age: u64, b: Bullet) -> bool {
    now - b.created_at >= max_age
}

/// A bullet whose body lies outside the arena rectangle.
pub open spec fn bullet_oob(p: PhysicsEngine, b: Bullet) -> bool {
    !pos_in_arena(p.body_at(b.handle).x as int, p.body_at(b.handle).y as int)
}

/// Unrolls `hit_body` of a suffix by one element.
proof fn lemma_hit_body_skip(pre: GameLogic, bs: Seq<Bullet>, i: int, h: RigidBodyHandle)
    requires
        0 <= i < bs.len(),
    ensures
        hit_body(pre, bs.skip(i), h) == (hit_body(pre, bs.skip(i + 1), h) || (bs[i].handle == h
            && pre.bullet_hit(bs[i]))),
{
    let s1 = bs.skip(i);
    let s2 = bs.skip(i + 1);
    if hit_body(pre, s1, h) {
        let k = choose|k: int| 0 <= k < s1.len() && s1[k].handle == h && pre.bullet_hit(s1[k]);
        if k == 0 {
            assert(s1[0] == bs[i]);
        } else {
            assert(s2[k - 1] == s1[k]);
            assert(hit_body(pre, s2, h));
        }
    }
    if hit_body(pre, s2, h) {
        let k = choose|k: int| 0 <= k < s2.len() && s2[k].handle == h && pre.bullet_hit(s2[k]);
        assert(s1[k + 1] == s2[k]);
        assert(hit_body(pre, s1, h));
    }
    if bs[i].handle == h && pre.bullet_hit(bs[i]) {
        assert(s1[0] == bs[i]);
        assert(hit_body(pre, s1, h));
    }
}

impl GameLogic {
    /// Whether this tick's collision events hit bullet `b` against some
    /// entity other than its shooter.
    pub open spec fn bullet_hit(&self, b: Bullet) -> bool {
        bullet_hit_events(
            self.physics_engine,
            self.entities@,
            self.physics_engine.events(),
            b,
        )
    }

    /// Whether some live entity carries this name.
    pub open spec fn has_name(&self, name: Seq<char>) -> bool {
        exists|i: int| 0 <= i < self.entities@.len() && self.entities@[i].name@ == name
    }

    /// Well-formedness of the whole game state: the physics world is well
    /// formed; every entity is well formed, with unique names and distinct
    /// bodies; every bullet has a live body distinct from every other
    /// bullet's and every entity's; every obstacle's collider is live and
    /// parentless; and no timestamp lies in the future.
    pub open spec fn wf(&self) -> bool {
        &&& self.physics_engine.wf()
        &&& forall|i: int|
            0 <= i < self.entities@.len() ==> entity_wf(
                #[trigger] self.entities@[i],
                self.physics_engine,
            )
        &&& forall|i: int, j: int|
            0 <= i < j < self.entities@.len() ==> (#[trigger] self.entities@[i]).handle != (
            #[trigger] self.entities@[j]).handle
        &&& forall|i: int, j: int|
            0 <= i < j < self.entities@.len() ==> (#[trigger] self.entities@[i]).name@ != (
            #[trigger] self.entities@[j]).name@
        &&& forall|i: int|
            0 <= i < self.bullets@.len() ==> self.physics_engine.body_live(
                (#[trigger] self.bullets@[i]).handle,
            )
        &&& forall|i: int, j: int|
            0 <= i < j < self.bullets@.len() ==> (#[trigger] self.bullets@[i]).handle != (
            #[trigger] self.bullets@[j]).handle
        &&& forall|i: int, j: int|
            0 <= i < self.entities@.len() && 0 <= j < self.bullets@.len() ==> (
            #[trigger] self.entities@[i]).handle != (#[trigger] self.bullets@[j]).handle
        &&& forall|i: int|
            0 <= i < self.obstacles@.len() ==> self.physics_engine.collider_live(
                (#[trigger] self.obstacles@[i]).collider_handle,
            ) && self.physics_engine.collider_at(self.obstacles@[i].collider_handle).parent
                is None
        &&& forall|i: int|
            0 <= i < self.entities@.len() ==> (#[trigger] self.entities@[i]).last_shot
                <= self.now && self.entities@[i].last_retarget <= self.now
        &&& forall|i: int| 0 <= i < self.entities@.len() ==> (#[trigger] self.entities@[i]).score >= 0
        &&& forall|i: int|
            0 <= i < self.bullets@.len() ==> (#[trigger] self.bullets@[i]).created_at <= self.now
    }

    /// Creates a new `GameLogic` instance: an empty arena with its boundary
    /// colliders in place, at tick zero.
    pub fn new() -> (r: GameLogic)
        ensures
            r.wf(),
            r.entities@.len() == 0,
            r.bullets@.len() == 0,
            r.obstacles@.len() == 0,
            r.now == 0,
            forall|h: RigidBodyHandle| !r.physics_engine.body_live(h),
            crate::physics::only_boundaries(r.physics_engine),
            r.physics_engine.events().len() == 0,
    {
        let mut physics_engine = PhysicsEngine::default();
        let ghost empty_world = physics_engine;
        physics_engine.setup_boundaries();
        proof {
            let (c0, c1, c2, c3) = choose|c0: ColliderHandle, c1: ColliderHandle, c2: ColliderHandle, c3: ColliderHandle|
                #![trigger physics_engine.collider_at(c0), physics_engine.collider_at(c1), physics_engine.collider_at(c2), physics_engine.collider_at(c3)]
                {
                    &&& !empty_world.collider_live(c0) && physics_engine.collider_live(c0)
                        && physics_engine.collider_at(c0) == crate::physics::boundary_collider(0)
                    &&& !empty_world.collider_live(c1) && physics_engine.collider_live(c1)
                        && physics_engine.collider_at(c1) == crate::physics::boundary_collider(1)
                    &&& !empty_world.collider_live(c2) && physics_engine.collider_live(c2)
                        && physics_engine.collider_at(c2) == crate::physics::boundary_collider(2)
                    &&& !empty_world.collider_live(c3) && physics_engine.collider_live(c3)
                        && physics_engine.collider_at(c3) == crate::physics::boundary_collider(3)
                    &&& c0 != c1 && c0 != c2 && c0 != c3 && c1 != c2 && c1 != c3 && c2 != c3
                    &&& forall|ch: ColliderHandle|
                        physics_engine.collider_live(ch) ==> empty_world.collider_live(ch) || ch
                            == c0 || ch == c1 || ch == c2 || ch == c3
                };
            assert(crate::physics::only_boundaries(physics_engine));
        }
        GameLogic {
            physics_engine,
            entities: Vec::new(),
            bullets: Vec::new(),
            obstacles: Vec::new(),
            now: 0,
        }
    }

    /// Looks up the index of the entity carrying `name`.
    fn find_entity(&self, name: &String) -> (r: Option<usize>)
        ensures
            match r {
                Some(i) => i < self.entities@.len() && self.entities@[i as int].name@ == name@,
                None => !self.has_name(name@),
            },
    {
        let n = self.entities.len();
        let mut i: usize = 0;
        while i < n
            invariant
                n == self.entities@.len(),
                i <= n,
                forall|k: int| 0 <= k < i ==> (#[trigger] self.entities@[k]).name@ != name@,
            decreases n - i,
        {
            if self.entities[i].name == *name {
                return Some(i);
            }
            i += 1;
        }
        None
    }

    /// Shared spawning for players and AI entities: rejects duplicate
    /// names, otherwise appends a freshly spawned entity.
    fn spawn_entity(&mut self, name: String, is_ai: bool)
        requires
            old(self).wf(),
        ensures
            final(self).wf(),
            old(self).has_name(name@) ==> *final(self) == *old(self),
            !old(self).has_name(name@) ==> {
                &&& final(self).entities@.len() == old(self).entities@.len() + 1
                &&& forall|i: int|
                    0 <= i < old(self).entities@.len() ==> final(self).entities@[i] == old(self).entities@[i]
                &&& {
                    let e = final(self).entities@.last();
                    &&& e.name@ == name@
                    &&& e.score == 0
                    &&& e.is_ai == is_ai
                    &&& pos_in_interior(e.x as int, e.y as int)
                    &&& final(self).physics_engine.body_live(e.handle)
                    &&& final(self).physics_engine.body_at(e.handle) == entity_body(e)
                    &&& !old(self).physics_engine.body_live(e.handle)
                }
                &&& exists|ch: ColliderHandle|
                    {
                        &&& !old(self).physics_engine.collider_live(ch)
                        &&& #[trigger] final(self).physics_engine.collider_live(ch)
                        &&& final(self).physics_engine.collider_at(ch) == (Collider {
                            parent: Some(final(self).entities@.last().handle),
                            x: 0,
                            y: 0,
                            hx: AppDefines::ENTITY_HALF_EXTENT_MU,
                            hy: AppDefines::ENTITY_HALF_EXTENT_MU,
                        })
                        &&& forall|c2: ColliderHandle|
                            c2 != ch ==> final(self).physics_engine.collider_live(c2) == old(self).physics_engine.collider_live(c2)
                        &&& forall|c2: ColliderHandle|
                            c2 != ch && old(self).physics_engine.collider_live(c2) ==> final(self).physics_engine.collider_at(c2) == old(self).physics_engine.collider_at(c2)
                    }
                &&& forall|h2: RigidBodyHandle|
                    old(self).physics_engine.body_live(h2) ==> final(self).physics_engine.body_live(h2) && final(self).physics_engine.body_at(h2)
                        == old(self).physics_engine.body_at(h2)
                &&& forall|c2: ColliderHandle|
                    old(self).physics_engine.collider_live(c2) ==> final(self).physics_engine.collider_live(c2) && final(self).physics_engine.collider_at(
                        c2,
                    ) == old(self).physics_engine.collider_at(c2)
            },
            final(self).bullets == old(self).bullets,
            final(self).obstacles == old(self).obstacles,
            final(self).now == old(self).now,
            final(self).physics_engine.events() == old(self).physics_engine.events(),
    {
        match self.find_entity(&name) {
            Some(_) => {},
            None => {
                let entity = Entity::new(name, &mut self.physics_engine, is_ai, self.now);
                self.entities.push(entity);
            },
        }
    }

    /// Adds a new player entity to the game.
    ///
    /// Spawning a previously used name is a no-op: names are unique among
    /// live entities. A fresh name adds exactly one entity with that name,
    /// zero score, and a live body within the arena interior.
    pub fn add_entity(&mut self, name: String)
        requires
            old(self).wf(),
        ensures
            final(self).wf(),
            old(self).has_name(name@) ==> *final(self) == *old(self),
            !old(self).has_name(name@) ==> {
                &&& final(self).entities@.len() == old(self).entities@.len() + 1
                &&& forall|i: int|
                    0 <= i < old(self).entities@.len() ==> final(self).entities@[i] == old(self).entities@[i]
                &&& {
                    let e = final(self).entities@.last();
                    &&& e.name@ == name@
                    &&& e.score == 0
                    &&& !e.is_ai
                    &&& pos_in_interior(e.x as int, e.y as int)
                    &&& final(self).physics_engine.body_live(e.handle)
                    &&& final(self).physics_engine.body_at(e.handle) == entity_body(e)
                }
                &&& exists|ch: ColliderHandle|
                    {
                        &&& !old(self).physics_engine.collider_live(ch)
                        &&& #[trigger] final(self).physics_engine.collider_live(ch)
                        &&& final(self).physics_engine.collider_at(ch) == (Collider {
                            parent: Some(final(self).entities@.last().handle),
                            x: 0,
                            y: 0,
                            hx: AppDefines::ENTITY_HALF_EXTENT_MU,
                            hy: AppDefines::ENTITY_HALF_EXTENT_MU,
                        })
                        &&& forall|c2: ColliderHandle|
                            c2 != ch ==> final(self).physics_engine.collider_live(c2) == old(self).physics_engine.collider_live(c2)
                        &&& forall|c2: ColliderHandle|
                            c2 != ch && old(self).physics_engine.collider_live(c2) ==> final(self).physics_engine.collider_at(c2) == old(self).physics_engine.collider_at(c2)
                    }
            },
            final(self).bullets == old(self).bullets,
            final(self).obstacles == old(self).obstacles,
            final(self).now == old(self).now,
    {
        self.spawn_entity(name, false);
    }

    /// Adds a new AI-controlled entity to the game, under the same naming
    /// rule as `add_entity`.
    pub fn add_ai(&mut self, name: String)
        requires
            old(self).wf(),
        ensures
            final(self).wf(),
            old(self).has_name(name@) ==> *final(self) == *old(self),
            !old(self).has_name(name@) ==> {
                &&& final(self).entities@.len() == old(self).entities@.len() + 1
                &&& forall|i: int|
                    0 <= i < old(self).entities@.len() ==> final(self).entities@[i] == old(self).entities@[i]
                &&& {
                    let e = final(self).entities@.last();
                    &&& e.name@ == name@
                    &&& e.score == 0
                    &&& e.is_ai
                    &&& pos_in_interior(e.x as int, e.y as int)
                    &&& final(self).physics_engine.body_live(e.handle)
                    &&& final(self).physics_engine.body_at(e.handle) == entity_body(e)
                }
                &&& exists|ch: ColliderHandle|
                    {
                        &&& !old(self).physics_engine.collider_live(ch)
                        &&& #[trigger] final(self).physics_engine.collider_live(ch)
                        &&& final(self).physics_engine.collider_at(ch) == (Collider {
                            parent: Some(final(self).entities@.last().handle),
                            x: 0,
                            y: 0,
                            hx: AppDefines::ENTITY_HALF_EXTENT_MU,
                            hy: AppDefines::ENTITY_HALF_EXTENT_MU,
                        })
                        &&& forall|c2: ColliderHandle|
                            c2 != ch ==> final(self).physics_engine.collider_live(c2) == old(self).physics_engine.collider_live(c2)
                        &&& forall|c2: ColliderHandle|
                            c2 != ch && old(self).physics_engine.collider_live(c2) ==> final(self).physics_engine.collider_at(c2) == old(self).physics_engine.collider_at(c2)
                    }
            },
            final(self).bullets == old(self).bullets,
            final(self).obstacles == old(self).obstacles,
            final(self).now == old(self).now,
    {
        self.spawn_entity(name, true);
    }

    /// Removes the entity carrying `name` together with its physics body
    /// and collider as one atomic operation; a no-op if no entity carries
    /// that name. Bullets the entity shot stay: ownership is a
    /// back-reference, never a lifetime bond.
    pub fn remove_entity(&mut self, name: &String)
        requires
            old(self).wf(),
        ensures
            final(self).wf(),
            !final(self).has_name(name@),
            !old(self).has_name(name@) ==> *final(self) == *old(self),
            old(self).has_name(name@) ==> {
                &&& final(self).entities@.len() == old(self).entities@.len() - 1
                &&& exists|i: int|
                    {
                        &&& 0 <= i < old(self).entities@.len()
                        &&& (#[trigger] old(self).entities@[i]).name@ == name@
                        &&& final(self).entities@ == old(self).entities@.remove(i)
                        &&& !final(self).physics_engine.body_live(old(self).entities@[i].handle)
                        &&& forall|h2: RigidBodyHandle|
                            h2 != old(self).entities@[i].handle ==> final(self).physics_engine.body_live(h2) == old(self).physics_engine.body_live(
                                h2,
                            )
                        &&& forall|h2: RigidBodyHandle|
                            h2 != old(self).entities@[i].handle && old(self).physics_engine.body_live(h2) ==> final(self).physics_engine.body_at(
                                h2,
                            ) == old(self).physics_engine.body_at(h2)
                    }
            },
            final(self).bullets == old(self).bullets,
            final(self).obstacles == old(self).obstacles,
            final(self).now == old(self).now,
            final(self).physics_engine.events() == old(self).physics_engine.events(),
    {
        match self.find_entity(name) {
            None => {},
            Some(i) => {
                let ghost pre = *self;
                let e = self.entities.remove(i);
                self.physics_engine.remove_body(e.handle);
                proof {
                    assert forall|i5: int|
                        0 <= i5 < self.entities@.len() implies entity_wf(
                        #[trigger] self.entities@[i5],
                        self.physics_engine,
                    ) by {
                        if i5 < i {
                            assert(self.entities@[i5] == pre.entities@[i5]);
                        } else {
                            assert(self.entities@[i5] == pre.entities@[i5 + 1]);
                        }
                        assert(entity_wf(self.entities@[i5], pre.physics_engine));
                        assert(self.entities@[i5].handle != e.handle);
                    }
                    assert forall|i5: int|
                        0 <= i5 < self.bullets@.len() implies self.physics_engine.body_live(
                        (#[trigger] self.bullets@[i5]).handle,
                    ) by {
                        assert(pre.physics_engine.body_live(pre.bullets@[i5].handle));
                        assert(pre.bullets@[i5].handle != e.handle);
                    }
                    assert forall|i5: int|
                        0 <= i5 < self.obstacles@.len() implies self.physics_engine.collider_live(
                        (#[trigger] self.obstacles@[i5]).collider_handle,
                    ) && self.physics_engine.collider_at(
                        self.obstacles@[i5].collider_handle,
                    ).parent is None by {
                        assert(pre.physics_engine.collider_at(
                            self.obstacles@[i5].collider_handle,
                        ).parent is None);
                    }
                    assert forall|j: int|
                        0 <= j < self.entities@.len() implies (
                    #[trigger] self.entities@[j]).name@ != name@ by {
                        if j < i {
                            assert(self.entities@[j] == pre.entities@[j]);
                            lemma_names_unique_helper(pre, j, i as int);
                        } else {
                            assert(self.entities@[j] == pre.entities@[j + 1]);
                            lemma_names_unique_helper(pre, j + 1, i as int);
                        }
                    }
                }
            },
        }
    }

    /// Sets every entity's score back to zero, touching nothing else.
    pub fn reset_scores(&mut self)
        requires
            old(self).wf(),
        ensures
            final(self).wf(),
            final(self).entities@.len() == old(self).entities@.len(),
            forall|j: int|
                0 <= j < old(self).entities@.len() ==> #[trigger] final(self).entities@[j] == (
                Entity { score: 0, ..old(self).entities@[j] }),
            final(self).bullets == old(self).bullets,
            final(self).obstacles == old(self).obstacles,
            final(self).now == old(self).now,
            final(self).physics_engine == old(self).physics_engine,
    {
        let ghost pre = *self;
        let m = self.entities.len();
        let mut j: usize = 0;
        while j < m
            invariant
                pre.wf(),
                self.wf(),
                self.physics_engine == pre.physics_engine,
                self.bullets == pre.bullets,
                self.obstacles == pre.obstacles,
                self.now == pre.now,
                m == self.entities@.len(),
                m == pre.entities@.len(),
                j <= m,
                forall|k: int|
                    0 <= k < j ==> #[trigger] self.entities@[k] == (Entity {
                        score: 0,
                        ..pre.entities@[k]
                    }),
                forall|k: int| j <= k < m ==> #[trigger] self.entities@[k] == pre.entities@[k],
            decreases m - j,
        {
            let ghost entities_before = self.entities@;
            let mut e = self.entities.remove(j);
            e.score = 0;
            self.entities.insert(j, e);
            proof {
                assert(self.entities@ =~= entities_before.update(j as int, e));
                assert forall|i5: int|
                    0 <= i5 < self.entities@.len() implies entity_wf(
                    #[trigger] self.entities@[i5],
                    self.physics_engine,
                ) by {
                    assert(entity_wf(entities_before[i5], self.physics_engine));
                }
            }
            j += 1;
        }
    }

    /// Makes the entity at `shooter_index` shoot a bullet, rate limited to
    /// one shot per cooldown; an out-of-range index or a shot before the
    /// cooldown has elapsed is a silent no-op.
    pub fn shoot_ball(&mut self, shooter_index: usize)
        requires
            old(self).wf(),
        ensures
            final(self).wf(),
            !(shooter_index < old(self).entities@.len() && old(self).now - old(self).entities@[shooter_index as int].last_shot >= AppDefines::SHOT_COOLDOWN_TICKS)
                ==> *final(self) == *old(self),
            (shooter_index < old(self).entities@.len() && old(self).now - old(self).entities@[shooter_index as int].last_shot >= AppDefines::SHOT_COOLDOWN_TICKS) ==> {
                let shooter = old(self).entities@[shooter_index as int];
                &&& final(self).bullets@.len() == old(self).bullets@.len() + 1
                &&& forall|i: int|
                    0 <= i < old(self).bullets@.len() ==> final(self).bullets@[i] == old(self).bullets@[i]
                &&& {
                    let b = final(self).bullets@.last();
                    &&& b.shooter == shooter.handle
                    &&& b.created_at == old(self).now
                    &&& final(self).physics_engine.body_live(b.handle)
                    &&& !old(self).physics_engine.body_live(b.handle)
                    &&& final(self).physics_engine.body_at(b.handle).x == shooter.x
                    &&& final(self).physics_engine.body_at(b.handle).y == shooter.y
                    &&& final(self).physics_engine.body_at(b.handle).vx == bullet_velocity(
                        AppDefines::BULLET_SPEED_MU_PER_SEC as int,
                        shooter.gun_orientation as int,
                    ).0
                    &&& final(self).physics_engine.body_at(b.handle).vy == bullet_velocity(
                        AppDefines::BULLET_SPEED_MU_PER_SEC as int,
                        shooter.gun_orientation as int,
                    ).1
                    &&& exists|ch: ColliderHandle|
                        {
                            &&& !old(self).physics_engine.collider_live(ch)
                            &&& #[trigger] final(self).physics_engine.collider_live(ch)
                            &&& final(self).physics_engine.collider_at(ch) == (Collider {
                                parent: Some(b.handle),
                                x: 0,
                                y: 0,
                                hx: AppDefines::BULLET_RADIUS_MU,
                                hy: AppDefines::BULLET_RADIUS_MU,
                            })
                            &&& forall|c2: ColliderHandle|
                                c2 != ch ==> final(self).physics_engine.collider_live(c2) == old(self).physics_engine.collider_live(c2)
                            &&& forall|c2: ColliderHandle|
                                c2 != ch && old(self).physics_engine.collider_live(c2) ==> final(self).physics_engine.collider_at(c2) == old(self).physics_engine.collider_at(c2)
                        }
                }
                &&& final(self).entities@ == old(self).entities@.update(
                    shooter_index as int,
                    Entity { last_shot: old(self).now, ..shooter },
                )
                &&& forall|h2: RigidBodyHandle|
                    old(self).physics_engine.body_live(h2) ==> final(self).physics_engine.body_live(h2) && final(self).physics_engine.body_at(h2)
                        == old(self).physics_engine.body_at(h2)
            },
            final(self).obstacles == old(self).obstacles,
            final(self).now == old(self).now,
    {
        if shooter_index >= self.entities.len() {
            return ;
        }
        if self.now - self.entities[shooter_index].last_shot < AppDefines::SHOT_COOLDOWN_TICKS {
            return ;
        }
        let shooter_handle = self.entities[shooter_index].handle;
        let angle = self.entities[shooter_index].gun_orientation;
        let bullet = Bullet::new(
            shooter_handle,
            &mut self.physics_engine,
            AppDefines::BULLET_SPEED_MU_PER_SEC,
            AppDefines::BULLET_RADIUS_MU,
            angle,
            self.now,
        );
        self.bullets.push(bullet);
        let mut shooter = self.entities.remove(shooter_index);
        shooter.last_shot = self.now;
        self.entities.insert(shooter_index, shooter);
        proof {
            assert(self.entities@ =~= old(self).entities@.update(
                shooter_index as int,
                Entity { last_shot: old(self).now, ..old(self).entities@[shooter_index as int] },
            ));
        }
    }

    /// Decides whether any of `events` hits bullet `b` against an entity
    /// other than its shooter, reading collider ownership from the current
    /// physics world.
    fn bullet_hit_exec(&self, events: &Vec<(ColliderHandle, ColliderHandle)>, b: Bullet) -> (r:
        bool)
        ensures
            r == bullet_hit_events(self.physics_engine, self.entities@, events@, b),
    {
        let ne = events.len();
        let mut k: usize = 0;
        while k < ne
            invariant
                ne == events@.len(),
                k <= ne,
                forall|k2: int, j: int|
                    0 <= k2 < k && 0 <= j < self.entities@.len() ==> !(self.entities@[j].handle
                        != b.shooter && event_links(
                        self.physics_engine,
                        #[trigger] events@[k2],
                        b.handle,
                        (#[trigger] self.entities@[j]).handle,
                    )),
            decreases ne - k,
        {
            let ev = events[k];
            let live0 = self.physics_engine.is_collider_live(ev.0);
            let live1 = self.physics_engine.is_collider_live(ev.1);
            if live0 && live1 {
                let p0 = self.physics_engine.collider_parent(ev.0);
                let p1 = self.physics_engine.collider_parent(ev.1);
                let bullet0 = match p0 {
                    Some(h) => h.index == b.handle.index && h.generation == b.handle.generation,
                    None => false,
                };
                let bullet1 = match p1 {
                    Some(h) => h.index == b.handle.index && h.generation == b.handle.generation,
                    None => false,
                };
                let m = self.entities.len();
                let mut j: usize = 0;
                while j < m
                    invariant
                        ne == events@.len(),
                        k < ne,
                        ev == events@[k as int],
                        m == self.entities@.len(),
                        j <= m,
                        self.physics_engine.collider_live(ev.0),
                        self.physics_engine.collider_live(ev.1),
                        p0 == self.physics_engine.collider_at(ev.0).parent,
                        p1 == self.physics_engine.collider_at(ev.1).parent,
                        bullet0 == (p0 == Some(b.handle)),
                        bullet1 == (p1 == Some(b.handle)),
                        forall|j2: int|
                            0 <= j2 < j ==> !((#[trigger] self.entities@[j2]).handle != b.shooter
                                && event_links(
                                self.physics_engine,
                                events@[k as int],
                                b.handle,
                                self.entities@[j2].handle,
                            )),
                    decreases m - j,
                {
                    let eh = self.entities[j].handle;
                    if !(eh.index == b.shooter.index && eh.generation == b.shooter.generation) {
                        let link0 = bullet0 && (match p1 {
                            Some(h) => h.index == eh.index && h.generation == eh.generation,
                            None => false,
                        });
                        let link1 = bullet1 && (match p0 {
                            Some(h) => h.index == eh.index && h.generation == eh.generation,
                            None => false,
                        });
                        if link0 || link1 {
                            proof {
                                assert(event_links(
                                    self.physics_engine,
                                    events@[k as int],
                                    b.handle,
                                    self.entities@[j as int].handle,
                                ));
                                assert(bullet_hit_events(
                                    self.physics_engine,
                                    self.entities@,
                                    events@,
                                    b,
                                ));
                            }
                            return true;
                        }
                    }
                    j += 1;
                }
            }
            k += 1;
        }
        proof {
            assert forall|k2: int, j: int|
                !(0 <= k2 < events@.len() && 0 <= j < self.entities@.len()
                    && self.entities@[j].handle != b.shooter && event_links(
                    self.physics_engine,
                    events@[k2],
                    b.handle,
                    self.entities@[j].handle,
                )) by {
                if 0 <= k2 < events@.len() && 0 <= j < self.entities@.len() {
                    assert(!(self.entities@[j].handle != b.shooter && event_links(
                        self.physics_engine,
                        events@[k2],
                        b.handle,
                        self.entities@[j].handle,
                    )));
                }
            }
        }
        false
    }

    /// Handles collisions between entities and bullets.
    ///
    /// Drains this tick's collision-start events; every bullet paired by
    /// some event with an entity other than its shooter credits its
    /// shooter's score with one point and is removed, body and collider
    /// included, within the same call. A bullet that only touches its own
    /// shooter neither scores nor is removed.
    pub fn handle_collisions(&mut self)
        requires
            old(self).wf(),
        ensures
            final(self).wf(),
            final(self).physics_engine.events().len() == 0,
            final(self).bullets@ == surviving(*old(self), old(self).bullets@),
            final(self).entities@.len() == old(self).entities@.len(),
            forall|j: int|
                0 <= j < old(self).entities@.len() ==> {
                    let e = old(self).entities@[j];
                    let hits = hits_scored(*old(self), old(self).bullets@, e.handle);
                    #[trigger] final(self).entities@[j] == (Entity {
                        score: if e.score + hits <= i32::MAX {
                            (e.score + hits) as i32
                        } else {
                            i32::MAX
                        },
                        ..e
                    })
                },
            forall|h: RigidBodyHandle|
                final(self).physics_engine.body_live(h) == (old(self).physics_engine.body_live(h)
                    && !hit_body(*old(self), old(self).bullets@, h)),
            forall|h: RigidBodyHandle|
                final(self).physics_engine.body_live(h) ==> final(self).physics_engine.body_at(h)
                    == old(self).physics_engine.body_at(h),
            final(self).obstacles == old(self).obstacles,
            final(self).now == old(self).now,
    {
        let ghost pre = *self;
        let events = self.physics_engine.drain_events();
        proof {
            assert forall|i: int|
                0 <= i < self.entities@.len() implies entity_wf(
                #[trigger] self.entities@[i],
                self.physics_engine,
            ) by {
                assert(entity_wf(pre.entities@[i], pre.physics_engine));
            }
            assert(self.wf());
        }
        let ghost mid = *self;
        let n = self.bullets.len();
        let mut hit: Vec<bool> = Vec::new();
        let mut i: usize = 0;
        while i < n
            invariant
                *self == mid,
                pre.wf(),
                mid.wf(),
                mid.entities == pre.entities,
                mid.bullets == pre.bullets,
                crate::physics::colliders_unchanged(pre.physics_engine, mid.physics_engine),
                events@ == pre.physics_engine.events(),
                n == self.bullets@.len(),
                i <= n,
                hit@.len() == i,
                forall|k: int| 0 <= k < i ==> hit@[k] == pre.bullet_hit(pre.bullets@[k]),
            decreases n - i,
        {
            let b = self.bullets[i];
            let was_hit = self.bullet_hit_exec(&events, b);
            proof {
                lemma_hit_same(
                    self.physics_engine,
                    pre.physics_engine,
                    self.entities@,
                    events@,
                    b,
                );
            }
            hit.push(was_hit);
            i += 1;
        }
        let m = self.entities.len();
        let mut j: usize = 0;
        while j < m
            invariant
                pre.wf(),
                self.wf(),
                self.physics_engine == mid.physics_engine,
                mid.wf(),
                crate::physics::colliders_unchanged(pre.physics_engine, mid.physics_engine),
                crate::physics::bodies_unchanged(pre.physics_engine, mid.physics_engine),
                self.bullets == pre.bullets,
                self.obstacles == pre.obstacles,
                self.now == pre.now,
                self.physics_engine.events().len() == 0,
                m == self.entities@.len(),
                m == pre.entities@.len(),
                j <= m,
                n == pre.bullets@.len(),
                hit@.len() == n,
                forall|k: int| 0 <= k < n ==> hit@[k] == pre.bullet_hit(pre.bullets@[k]),
                forall|k: int|
                    0 <= k < j ==> {
                        let e = pre.entities@[k];
                        let hits = hits_scored(pre, pre.bullets@, e.handle);
                        #[trigger] self.entities@[k] == (Entity {
                            score: if e.score + hits <= i32::MAX {
                                (e.score + hits) as i32
                            } else {
                                i32::MAX
                            },
                            ..e
                        })
                    },
                forall|k: int| j <= k < m ==> #[trigger] self.entities@[k] == pre.entities@[k],
            decreases m - j,
        {
            let eh = self.entities[j].handle;
            let mut cnt: usize = 0;
            let mut i2: usize = 0;
            while i2 < n
                invariant
                    pre.wf(),
                    self.bullets == pre.bullets,
                    n == pre.bullets@.len(),
                    hit@.len() == n,
                    forall|k: int| 0 <= k < n ==> hit@[k] == pre.bullet_hit(pre.bullets@[k]),
                    i2 <= n,
                    cnt <= i2,
                    eh == pre.entities@[j as int].handle,
                    j < m,
                    m == pre.entities@.len(),
                    cnt == hits_scored(pre, pre.bullets@.take(i2 as int), eh),
                decreases n - i2,
            {
                proof {
                    assert(pre.bullets@.take(i2 + 1).drop_last() =~= pre.bullets@.take(i2 as int));
                    assert(pre.bullets@.take(i2 + 1).last() == pre.bullets@[i2 as int]);
                }
                if hit[i2] {
                    let bsh = self.bullets[i2].shooter;
                    if bsh.index == eh.index && bsh.generation == eh.generation {
                        cnt += 1;
                    }
                }
                i2 += 1;
            }
            proof {
                assert(pre.bullets@.take(n as int) =~= pre.bullets@);
            }
            let ghost entities_before = self.entities@;
            let mut e = self.entities.remove(j);
            let headroom = i32::MAX - e.score;
            if cnt >= headroom as usize {
                e.score = i32::MAX;
            } else {
                e.score = e.score + cnt as i32;
            }
            self.entities.insert(j, e);
            proof {
                assert(self.entities@ =~= entities_before.update(j as int, e));
                assert forall|i5: int|
                    0 <= i5 < self.entities@.len() implies entity_wf(
                    #[trigger] self.entities@[i5],
                    self.physics_engine,
                ) by {
                    assert(entity_wf(entities_before[i5], self.physics_engine));
                }
            }
            j += 1;
        }
        let ghost scored = *self;
        let mut i3: usize = n;
        proof {
            assert(self.bullets@ =~= pre.bullets@.take(n as int) + surviving(
                pre,
                pre.bullets@.skip(n as int),
            ));
            assert forall|h: RigidBodyHandle|
                self.physics_engine.body_live(h) == (pre.physics_engine.body_live(h) && !hit_body(
                    pre,
                    pre.bullets@.skip(n as int),
                    h,
                )) by {
                assert(pre.bullets@.skip(n as int).len() == 0);
            }
        }
        while i3 > 0
            invariant
                pre.wf(),
                self.wf(),
                n == pre.bullets@.len(),
                hit@.len() == n,
                forall|k: int| 0 <= k < n ==> hit@[k] == pre.bullet_hit(pre.bullets@[k]),
                i3 <= n,
                self.bullets@ == pre.bullets@.take(i3 as int) + surviving(
                    pre,
                    pre.bullets@.skip(i3 as int),
                ),
                self.entities == scored.entities,
                scored.entities@.len() == pre.entities@.len(),
                forall|k: int|
                    0 <= k < pre.entities@.len() ==> {
                        let e = pre.entities@[k];
                        let hits = hits_scored(pre, pre.bullets@, e.handle);
                        #[trigger] scored.entities@[k] == (Entity {
                            score: if e.score + hits <= i32::MAX {
                                (e.score + hits) as i32
                            } else {
                                i32::MAX
                            },
                            ..e
                        })
                    },
                self.obstacles == pre.obstacles,
                self.now == pre.now,
                self.physics_engine.events().len() == 0,
                forall|h: RigidBodyHandle|
                    self.physics_engine.body_live(h) == (pre.physics_engine.body_live(h)
                        && !hit_body(pre, pre.bullets@.skip(i3 as int), h)),
                forall|h: RigidBodyHandle|
                    self.physics_engine.body_live(h) ==> self.physics_engine.body_at(h)
                        == pre.physics_engine.body_at(h),
            decreases i3,
        {
            let i4 = i3 - 1;
            let ghost surv = surviving(pre, pre.bullets@.skip(i3 as int));
            proof {
                assert(pre.bullets@.skip(i4 as int).drop_first() =~= pre.bullets@.skip(
                    i3 as int,
                ));
                assert(pre.bullets@.skip(i4 as int).first() == pre.bullets@[i4 as int]);
                assert(self.bullets@[i4 as int] == pre.bullets@[i4 as int]);
            }
            if hit[i4] {
                self.remove_bullet(i4);
                proof {
                    assert(self.bullets@ =~= pre.bullets@.take(i4 as int) + surv);
                    assert(surviving(pre, pre.bullets@.skip(i4 as int)) == surv);
                    assert forall|h: RigidBodyHandle|
                        self.physics_engine.body_live(h) == (pre.physics_engine.body_live(h)
                            && !hit_body(pre, pre.bullets@.skip(i4 as int), h)) by {
                        lemma_hit_body_skip(pre, pre.bullets@, i4 as int, h);
                    }
                }
            } else {
                proof {
                    assert(self.bullets@ =~= pre.bullets@.take(i4 as int) + (seq![
                        pre.bullets@[i4 as int],
                    ] + surv));
                    assert(surviving(pre, pre.bullets@.skip(i4 as int)) == seq![
                        pre.bullets@[i4 as int],
                    ] + surv);
                    assert forall|h: RigidBodyHandle|
                        self.physics_engine.body_live(h) == (pre.physics_engine.body_live(h)
                            && !hit_body(pre, pre.bullets@.skip(i4 as int), h)) by {
                        lemma_hit_body_skip(pre, pre.bullets@, i4 as int, h);
                    }
                }
            }
            i3 = i4;
        }
        proof {
            assert(pre.bullets@.take(0) =~= Seq::<Bullet>::empty());
            assert(pre.bullets@.skip(0) =~= pre.bullets@);
            assert(self.bullets@ =~= surviving(pre, pre.bullets@));
        }
    }

    /// Removes the bullet at `index` from the game, destroying its physics
    /// body and attached collider as one atomic operation.
    pub fn remove_bullet(&mut self, index: usize)
        requires
            old(self).wf(),
            index < old(self).bullets@.len(),
        ensures
            final(self).wf(),
            final(self).bullets@ == old(self).bullets@.remove(index as int),
            final(self).entities == old(self).entities,
            final(self).obstacles == old(self).obstacles,
            final(self).now == old(self).now,
            forall|h: RigidBodyHandle|
                final(self).physics_engine.body_live(h) == (old(self).physics_engine.body_live(h)
                    && h != old(self).bullets@[index as int].handle),
            forall|h: RigidBodyHandle|
                h != old(self).bullets@[index as int].handle && old(self).physics_engine.body_live(
                    h,
                ) ==> final(self).physics_engine.body_at(h) == old(self).physics_engine.body_at(h),
            forall|ch: ColliderHandle|
                final(self).physics_engine.collider_live(ch) == (old(self).physics_engine.collider_live(ch) && old(self).physics_engine.collider_at(
                    ch,
                ).parent != Some(old(self).bullets@[index as int].handle)),
            forall|ch: ColliderHandle|
                final(self).physics_engine.collider_live(ch) ==> final(self).physics_engine.collider_at(ch) == old(self).physics_engine.collider_at(ch),
            forall|c2: ColliderHandle|
                old(self).physics_engine.collider_retired(c2) ==> final(self).physics_engine.collider_retired(c2),
            final(self).physics_engine.events() == old(self).physics_engine.events(),
    {
        let bullet = self.bullets.remove(index);
        self.physics_engine.remove_body(bullet.handle);
        proof {
            let pre = *old(self);
            assert forall|i: int|
                0 <= i < self.entities@.len() implies entity_wf(
                #[trigger] self.entities@[i],
                self.physics_engine,
            ) by {
                assert(entity_wf(pre.entities@[i], pre.physics_engine));
                assert(pre.entities@[i].handle != bullet.handle);
            }
            assert forall|i: int|
                0 <= i < self.bullets@.len() implies self.physics_engine.body_live(
                (#[trigger] self.bullets@[i]).handle,
            ) by {
                if i < index {
                    assert(self.bullets@[i] == pre.bullets@[i]);
                } else {
                    assert(self.bullets@[i] == pre.bullets@[i + 1]);
                }
            }
            assert forall|i: int|
                0 <= i < self.obstacles@.len() implies self.physics_engine.collider_live(
                (#[trigger] self.obstacles@[i]).collider_handle,
            ) && self.physics_engine.collider_at(self.obstacles@[i].collider_handle).parent
                is None by {
                assert(pre.physics_engine.collider_at(
                    self.obstacles@[i].collider_handle,
                ).parent is None);
            }
        }
    }

    /// Removes, in descending index order, every bullet whose flag is set;
    /// `flags` must mirror the ghost predicate `dead` on today's bullets.
    #[verifier::rlimit(30)]
    fn remove_marked(&mut self, Ghost(dead): Ghost<spec_fn(Bullet) -> bool>, flags: &Vec<bool>)
        requires
            old(self).wf(),
            flags@.len() == old(self).bullets@.len(),
            forall|k: int|
                0 <= k < old(self).bullets@.len() ==> flags@[k] == dead(old(self).bullets@[k]),
        ensures
            final(self).wf(),
            final(self).bullets@ == kept_front(old(self).bullets@, dead),
            final(self).entities == old(self).entities,
            final(self).obstacles == old(self).obstacles,
            final(self).now == old(self).now,
            final(self).physics_engine.events() == old(self).physics_engine.events(),
            forall|h: RigidBodyHandle|
                final(self).physics_engine.body_live(h) == (old(self).physics_engine.body_live(h)
                    && !marked_body(old(self).bullets@, dead, h)),
            forall|h: RigidBodyHandle|
                final(self).physics_engine.body_live(h) ==> final(self).physics_engine.body_at(h)
                    == old(self).physics_engine.body_at(h),
            forall|ch: ColliderHandle|
                final(self).physics_engine.collider_live(ch) == (old(self).physics_engine.collider_live(ch) && !collider_doomed(
                    old(self).physics_engine,
                    old(self).bullets@,
                    dead,
                    ch,
                )),
            forall|ch: ColliderHandle|
                final(self).physics_engine.collider_live(ch) ==> final(self).physics_engine.collider_at(ch) == old(self).physics_engine.collider_at(ch),
            forall|ch: ColliderHandle|
                old(self).physics_engine.collider_live(ch) && old(self).physics_engine.collider_at(ch).parent is None ==> final(self).physics_engine.collider_live(ch) && final(self).physics_engine.collider_at(ch)
                    == old(self).physics_engine.collider_at(ch),
            forall|c2: ColliderHandle|
                old(self).physics_engine.collider_retired(c2) ==> final(self).physics_engine.collider_retired(c2),
    {
        let ghost pre = *self;
        let n = self.bullets.len();
        let mut i: usize = n;
        proof {
            assert(self.bullets@ =~= pre.bullets@.take(n as int) + kept_front(
                pre.bullets@.skip(n as int),
                dead,
            ));
            assert forall|h: RigidBodyHandle|
                self.physics_engine.body_live(h) == (pre.physics_engine.body_live(h)
                    && !marked_body(pre.bullets@.skip(n as int), dead, h)) by {
                assert(pre.bullets@.skip(n as int).len() == 0);
            }
            assert forall|ch: ColliderHandle|
                self.physics_engine.collider_live(ch) == (pre.physics_engine.collider_live(ch)
                    && !collider_doomed(
                    pre.physics_engine,
                    pre.bullets@.skip(n as int),
                    dead,
                    ch,
                )) by {
                assert(pre.bullets@.skip(n as int).len() == 0);
            }
        }
        while i > 0
            invariant
                pre.wf(),
                self.wf(),
                n == pre.bullets@.len(),
                flags@.len() == n,
                forall|k: int| 0 <= k < n ==> flags@[k] == dead(pre.bullets@[k]),
                i <= n,
                self.bullets@ == pre.bullets@.take(i as int) + kept_front(
                    pre.bullets@.skip(i as int),
                    dead,
                ),
                self.entities == pre.entities,
                self.obstacles == pre.obstacles,
                self.now == pre.now,
                self.physics_engine.events() == pre.physics_engine.events(),
                forall|h: RigidBodyHandle|
                    self.physics_engine.body_live(h) == (pre.physics_engine.body_live(h)
                        && !marked_body(pre.bullets@.skip(i as int), dead, h)),
                forall|h: RigidBodyHandle|
                    self.physics_engine.body_live(h) ==> self.physics_engine.body_at(h)
                        == pre.physics_engine.body_at(h),
                forall|ch: ColliderHandle|
                    self.physics_engine.collider_live(ch) == (pre.physics_engine.collider_live(ch)
                        && !collider_doomed(
                        pre.physics_engine,
                        pre.bullets@.skip(i as int),
                        dead,
                        ch,
                    )),
                forall|ch: ColliderHandle|
                    self.physics_engine.collider_live(ch) ==> self.physics_engine.collider_at(ch)
                        == pre.physics_engine.collider_at(ch),
                forall|c2: ColliderHandle|
                    pre.physics_engine.collider_retired(c2) ==> self.physics_engine.collider_retired(
                        c2,
                    ),
            decreases i,
        {
            let i4 = i - 1;
            let ghost kept = kept_front(pre.bullets@.skip(i as int), dead);
            let ghost cur = *self;
            proof {
                assert(pre.bullets@.skip(i4 as int).drop_first() =~= pre.bullets@.skip(i as int));
                assert(pre.bullets@.skip(i4 as int).first() == pre.bullets@[i4 as int]);
                assert(self.bullets@[i4 as int] == pre.bullets@[i4 as int]);
            }
            if flags[i4] {
                self.remove_bullet(i4);
                proof {
                    let ghost removed = pre.bullets@[i4 as int];
                    assert(self.bullets@ =~= pre.bullets@.take(i4 as int) + kept);
                    assert(kept_front(pre.bullets@.skip(i4 as int), dead) == kept);
                    assert forall|h: RigidBodyHandle|
                        self.physics_engine.body_live(h) == (pre.physics_engine.body_live(h)
                            && !marked_body(pre.bullets@.skip(i4 as int), dead, h)) by {
                        lemma_marked_body_skip(pre.bullets@, dead, i4 as int, h);
                    }
                    assert forall|ch: ColliderHandle|
                        self.physics_engine.collider_live(ch) == (pre.physics_engine.collider_live(
                            ch,
                        ) && !collider_doomed(
                            pre.physics_engine,
                            pre.bullets@.skip(i4 as int),
                            dead,
                            ch,
                        )) by {
                        assert(self.physics_engine.collider_live(ch)
                            == (cur.physics_engine.collider_live(ch)
                            && cur.physics_engine.collider_at(ch).parent != Some(
                            removed.handle,
                        )));
                        if cur.physics_engine.collider_live(ch) {
                            assert(cur.physics_engine.collider_at(ch)
                                == pre.physics_engine.collider_at(ch));
                        }
                        if pre.physics_engine.collider_live(ch) && pre.physics_engine.collider_at(
                            ch,
                        ).parent is Some {
                            lemma_marked_body_skip(
                                pre.bullets@,
                                dead,
                                i4 as int,
                                pre.physics_engine.collider_at(ch).parent->0,
                            );
                            assert(dead(removed));
                        }
                    }
                }
            } else {
                proof {
                    assert(self.bullets@ =~= pre.bullets@.take(i4 as int) + (seq![
                        pre.bullets@[i4 as int],
                    ] + kept));
                    assert(kept_front(pre.bullets@.skip(i4 as int), dead) == seq![
                        pre.bullets@[i4 as int],
                    ] + kept);
                    assert forall|h: RigidBodyHandle|
                        self.physics_engine.body_live(h) == (pre.physics_engine.body_live(h)
                            && !marked_body(pre.bullets@.skip(i4 as int), dead, h)) by {
                        lemma_marked_body_skip(pre.bullets@, dead, i4 as int, h);
                    }
                    assert forall|ch: ColliderHandle|
                        self.physics_engine.collider_live(ch) == (pre.physics_engine.collider_live(
                            ch,
                        ) && !collider_doomed(
                            pre.physics_engine,
                            pre.bullets@.skip(i4 as int),
                            dead,
                            ch,
                        )) by {
                        if pre.physics_engine.collider_live(ch) && pre.physics_engine.collider_at(
                            ch,
                        ).parent is Some {
                            lemma_marked_body_skip(
                                pre.bullets@,
                                dead,
                                i4 as int,
                                pre.physics_engine.collider_at(ch).parent->0,
                            );
                        }
                    }
                }
            }
            i = i4;
        }
        proof {
            assert(pre.bullets@.take(0) =~= Seq::<Bullet>::empty());
            assert(pre.bullets@.skip(0) =~= pre.bullets@);
            assert(self.bullets@ =~= kept_front(pre.bullets@, dead));
        }
    }

    /// Removes every bullet whose body lies outside the arena rectangle.
    pub fn remove_out_of_bounds_bullets(&mut self)
        requires
            old(self).wf(),
        ensures
            final(self).wf(),
            final(self).bullets@ == kept_front(
                old(self).bullets@,
                (|b: Bullet| bullet_oob(old(self).physics_engine, b)),
            ),
            final(self).entities == old(self).entities,
            final(self).obstacles == old(self).obstacles,
            final(self).now == old(self).now,
            final(self).physics_engine.events() == old(self).physics_engine.events(),
            forall|h: RigidBodyHandle|
                final(self).physics_engine.body_live(h) == (old(self).physics_engine.body_live(h)
                    && !marked_body(
                    old(self).bullets@,
                    (|b: Bullet| bullet_oob(old(self).physics_engine, b)),
                    h,
                )),
            forall|h: RigidBodyHandle|
                final(self).physics_engine.body_live(h) ==> final(self).physics_engine.body_at(h)
                    == old(self).physics_engine.body_at(h),
            forall|ch: ColliderHandle|
                final(self).physics_engine.collider_live(ch) == (old(self).physics_engine.collider_live(ch)
                    && !collider_doomed(
                    old(self).physics_engine,
                    old(self).bullets@,
                    (|b: Bullet| bullet_oob(old(self).physics_engine, b)),
                    ch,
                )),
            forall|ch: ColliderHandle|
                final(self).physics_engine.collider_live(ch) ==> final(self).physics_engine.collider_at(ch)
                    == old(self).physics_engine.collider_at(ch),
    {
        let ghost pre = *self;
        let ghost dead = |b: Bullet| bullet_oob(pre.physics_engine, b);
        let n = self.bullets.len();
        let mut flags: Vec<bool> = Vec::new();
        let mut i: usize = 0;
        while i < n
            invariant
                *self == pre,
                pre.wf(),
                dead == (|b: Bullet| bullet_oob(pre.physics_engine, b)),
                n == self.bullets@.len(),
                i <= n,
                flags@.len() == i,
                forall|k: int| 0 <= k < i ==> flags@[k] == dead(pre.bullets@[k]),
            decreases n - i,
        {
            let b = &self.bullets[i];
            let p = self.physics_engine.translation(b.handle);
            let oob = p.0 < 0 || p.0 > AppDefines::ARENA_WIDTH_MU || p.1 < 0 || p.1
                > AppDefines::ARENA_HEIGHT_MU;
            proof {
                assert(dead(pre.bullets@[i as int]) == bullet_oob(
                    pre.physics_engine,
                    pre.bullets@[i as int],
                ));
            }
            flags.push(oob);
            i += 1;
        }
        self.remove_marked(Ghost(dead), &flags);
    }

    /// Removes every bullet whose age has reached the maximum bullet age.
    pub fn remove_expired_bullets(&mut self)
        requires
            old(self).wf(),
        ensures
            final(self).wf(),
            final(self).bullets@ == kept_front(
                old(self).bullets@,
                (|b: Bullet| bullet_expired(old(self).now, AppDefines::BULLET_MAX_AGE_TICKS, b)),
            ),
            final(self).entities == old(self).entities,
            final(self).obstacles == old(self).obstacles,
            final(self).now == old(self).now,
            final(self).physics_engine.events() == old(self).physics_engine.events(),
            forall|h: RigidBodyHandle|
                final(self).physics_engine.body_live(h) == (old(self).physics_engine.body_live(h)
                    && !marked_body(
                    old(self).bullets@,
                    (|b: Bullet| bullet_expired(
                        old(self).now,
                        AppDefines::BULLET_MAX_AGE_TICKS,
                        b,
                    )),
                    h,
                )),
            forall|h: RigidBodyHandle|
                final(self).physics_engine.body_live(h) ==> final(self).physics_engine.body_at(h)
                    == old(self).physics_engine.body_at(h),
            forall|ch: ColliderHandle|
                final(self).physics_engine.collider_live(ch) == (old(self).physics_engine.collider_live(ch)
                    && !collider_doomed(
                    old(self).physics_engine,
                    old(self).bullets@,
                    (|b: Bullet| bullet_expired(
                        old(self).now,
                        AppDefines::BULLET_MAX_AGE_TICKS,
                        b,
                    )),
                    ch,
                )),
            forall|ch: ColliderHandle|
                final(self).physics_engine.collider_live(ch) ==> final(self).physics_engine.collider_at(ch)
                    == old(self).physics_engine.collider_at(ch),
    {
        let ghost pre = *self;
        let ghost dead = |b: Bullet|
            bullet_expired(pre.now, AppDefines::BULLET_MAX_AGE_TICKS, b);
        let n = self.bullets.len();
        let mut flags: Vec<bool> = Vec::new();
        let mut i: usize = 0;
        while i < n
            invariant
                *self == pre,
                pre.wf(),
                dead == (|b: Bullet| bullet_expired(
                    pre.now,
                    AppDefines::BULLET_MAX_AGE_TICKS,
                    b,
                )),
                n == self.bullets@.len(),
                i <= n,
                flags@.len() == i,
                forall|k: int| 0 <= k < i ==> flags@[k] == dead(pre.bullets@[k]),
            decreases n - i,
        {
            let b = &self.bullets[i];
            let expired = self.now - b.created_at >= AppDefines::BULLET_MAX_AGE_TICKS;
            proof {
                assert(dead(pre.bullets@[i as int]) == bullet_expired(
                    pre.now,
                    AppDefines::BULLET_MAX_AGE_TICKS,
                    pre.bullets@[i as int],
                ));
            }
            flags.push(expired);
            i += 1;
        }
        self.remove_marked(Ghost(dead), &flags);
    }

    /// Resets the simulation: zeroes every score and destroys every bullet,
    /// leaving entity names, positions, and the obstacle set untouched.
    pub fn reset_simulation(&mut self)
        requires
            old(self).wf(),
        ensures
            final(self).wf(),
            final(self).bullets@.len() == 0,
            final(self).entities@.len() == old(self).entities@.len(),
            forall|j: int|
                0 <= j < old(self).entities@.len() ==> #[trigger] final(self).entities@[j] == (
                Entity { score: 0, ..old(self).entities@[j] }),
            final(self).obstacles == old(self).obstacles,
            final(self).now == old(self).now,
            forall|h: RigidBodyHandle|
                final(self).physics_engine.body_live(h) == (old(self).physics_engine.body_live(h)
                    && !marked_body(old(self).bullets@, (|b: Bullet| true), h)),
            forall|h: RigidBodyHandle|
                final(self).physics_engine.body_live(h) ==> final(self).physics_engine.body_at(h)
                    == old(self).physics_engine.body_at(h),
            forall|ch: ColliderHandle|
                final(self).physics_engine.collider_live(ch) == (old(self).physics_engine.collider_live(ch)
                    && !collider_doomed(
                    old(self).physics_engine,
                    old(self).bullets@,
                    (|b: Bullet| true),
                    ch,
                )),
            forall|ch: ColliderHandle|
                final(self).physics_engine.collider_live(ch) ==> final(self).physics_engine.collider_at(ch)
                    == old(self).physics_engine.collider_at(ch),
    {
        let ghost pre = *self;
        self.reset_scores();
        let n = self.bullets.len();
        let mut flags: Vec<bool> = Vec::new();
        let mut i: usize = 0;
        while i < n
            invariant
                i <= n,
                flags@.len() == i,
                forall|k: int| 0 <= k < i ==> flags@[k] == true,
            decreases n - i,
        {
            flags.push(true);
            i += 1;
        }
        self.remove_marked(Ghost((|b: Bullet| true)), &flags);
        proof {
            assert(kept_front(pre.bullets@, (|b: Bullet| true)) =~= Seq::<Bullet>::empty()) by {
                lemma_kept_all_dead(pre.bullets@);
            }
        }
    }
    /// Removes all obstacles from the game, retiring their colliders.
    pub fn remove_all_obstacles(&mut self)
        requires
            old(self).wf(),
        ensures
            final(self).wf(),
            final(self).obstacles@.len() == 0,
            forall|i: int|
                0 <= i < old(self).obstacles@.len() ==> final(self).physics_engine.collider_retired(
                    (#[trigger] old(self).obstacles@[i]).collider_handle,
                ),
            forall|ch: ColliderHandle|
                old(self).physics_engine.collider_live(ch) && !(exists|i: int|
                    0 <= i < old(self).obstacles@.len() && (#[trigger] old(self).obstacles@[i]).collider_handle == ch) ==> final(self).physics_engine.collider_live(ch) && final(self).physics_engine.collider_at(ch)
                    == old(self).physics_engine.collider_at(ch),
            crate::physics::bodies_unchanged(old(self).physics_engine, final(self).physics_engine),
            final(self).entities == old(self).entities,
            final(self).bullets == old(self).bullets,
            final(self).now == old(self).now,
            final(self).physics_engine.events() == old(self).physics_engine.events(),
            forall|c2: ColliderHandle|
                old(self).physics_engine.collider_retired(c2) ==> final(self).physics_engine.collider_retired(c2),
    {
        let ghost pre = *self;
        let n = self.obstacles.len();
        let mut i: usize = 0;
        while i < n
            invariant
                pre.wf(),
                self.physics_engine.wf(),
                n == pre.obstacles@.len(),
                i <= n,
                self.obstacles == pre.obstacles,
                self.entities == pre.entities,
                self.bullets == pre.bullets,
                self.now == pre.now,
                self.physics_engine.events() == pre.physics_engine.events(),
                crate::physics::bodies_unchanged(pre.physics_engine, self.physics_engine),
                forall|k: int|
                    0 <= k < i ==> self.physics_engine.collider_retired(
                        (#[trigger] pre.obstacles@[k]).collider_handle,
                    ),
                forall|ch: ColliderHandle|
                    pre.physics_engine.collider_live(ch) && !(exists|k: int|
                        0 <= k < i && (#[trigger] pre.obstacles@[k]).collider_handle == ch)
                        ==> self.physics_engine.collider_live(ch)
                        && self.physics_engine.collider_at(ch)
                        == pre.physics_engine.collider_at(ch),
                forall|c2: ColliderHandle|
                    pre.physics_engine.collider_retired(c2)
                        ==> self.physics_engine.collider_retired(c2),
            decreases n - i,
        {
            let ch = self.obstacles[i].collider_handle;
            self.physics_engine.remove_collider(ch);
            i += 1;
        }
        self.obstacles.clear();
        proof {
            assert forall|i2: int|
                0 <= i2 < self.entities@.len() implies entity_wf(
                #[trigger] self.entities@[i2],
                self.physics_engine,
            ) by {
                assert(entity_wf(pre.entities@[i2], pre.physics_engine));
            }
            assert forall|i2: int|
                0 <= i2 < self.bullets@.len() implies self.physics_engine.body_live(
                (#[trigger] self.bullets@[i2]).handle,
            ) by {
                assert(pre.physics_engine.body_live(pre.bullets@[i2].handle));
            }
        }
    }

    /// Scatters a fresh batch of obstacles at uniformly random interior
    /// positions, each with a live static collider.
    pub fn generate_obstacles(&mut self)
        requires
            old(self).wf(),
        ensures
            final(self).wf(),
            final(self).obstacles@.len() == old(self).obstacles@.len()
                + AppDefines::OBSTACLE_COUNT,
            forall|i: int|
                0 <= i < old(self).obstacles@.len() ==> final(self).obstacles@[i] == old(self).obstacles@[i],
            forall|i: int|
                old(self).obstacles@.len() <= i < final(self).obstacles@.len() ==> {
                    let ob = #[trigger] final(self).obstacles@[i];
                    &&& pos_in_interior(ob.position.0 as int, ob.position.1 as int)
                    &&& !old(self).physics_engine.collider_live(ob.collider_handle)
                    &&& final(self).physics_engine.collider_live(ob.collider_handle)
                    &&& final(self).physics_engine.collider_at(ob.collider_handle) == (Collider {
                        parent: None,
                        x: ob.position.0,
                        y: ob.position.1,
                        hx: AppDefines::OBSTACLE_HALF_EXTENT_MU,
                        hy: AppDefines::OBSTACLE_HALF_EXTENT_MU,
                    })
                },
            forall|ch: ColliderHandle|
                old(self).physics_engine.collider_live(ch) ==> final(self).physics_engine.collider_live(ch) && final(self).physics_engine.collider_at(ch)
                    == old(self).physics_engine.collider_at(ch),
            crate::physics::bodies_unchanged(old(self).physics_engine, final(self).physics_engine),
            final(self).entities == old(self).entities,
            final(self).bullets == old(self).bullets,
            final(self).now == old(self).now,
            final(self).physics_engine.events() == old(self).physics_engine.events(),
            forall|c2: ColliderHandle|
                old(self).physics_engine.collider_retired(c2) ==> final(self).physics_engine.collider_retired(c2),
    {
        let ghost pre = *self;
        let mut k: usize = 0;
        while k < AppDefines::OBSTACLE_COUNT
            invariant
                pre.wf(),
                self.physics_engine.wf(),
                k <= AppDefines::OBSTACLE_COUNT,
                self.obstacles@.len() == pre.obstacles@.len() + k,
                forall|i: int|
                    0 <= i < pre.obstacles@.len() ==> self.obstacles@[i] == pre.obstacles@[i],
                forall|i: int|
                    pre.obstacles@.len() <= i < self.obstacles@.len() ==> {
                        let ob = #[trigger] self.obstacles@[i];
                        &&& pos_in_interior(ob.position.0 as int, ob.position.1 as int)
                        &&& !pre.physics_engine.collider_live(ob.collider_handle)
                        &&& self.physics_engine.collider_live(ob.collider_handle)
                        &&& self.physics_engine.collider_at(ob.collider_handle) == (Collider {
                            parent: None,
                            x: ob.position.0,
                            y: ob.position.1,
                            hx: AppDefines::OBSTACLE_HALF_EXTENT_MU,
                            hy: AppDefines::OBSTACLE_HALF_EXTENT_MU,
                        })
                    },
                forall|ch: ColliderHandle|
                    pre.physics_engine.collider_live(ch) ==> self.physics_engine.collider_live(ch)
                        && self.physics_engine.collider_at(ch)
                        == pre.physics_engine.collider_at(ch),
                crate::physics::bodies_unchanged(pre.physics_engine, self.physics_engine),
                self.entities == pre.entities,
                self.bullets == pre.bullets,
                self.now == pre.now,
                self.physics_engine.events() == pre.physics_engine.events(),
                forall|c2: ColliderHandle|
                    pre.physics_engine.collider_retired(c2)
                        ==> self.physics_engine.collider_retired(c2),
            decreases AppDefines::OBSTACLE_COUNT - k,
        {
            let (x, y) = crate::entities::random_interior_position();
            let collider = crate::physics::Collider {
                parent: None,
                x,
                y,
                hx: AppDefines::OBSTACLE_HALF_EXTENT_MU,
                hy: AppDefines::OBSTACLE_HALF_EXTENT_MU,
            };
            let ch = self.physics_engine.insert_collider(collider);
            self.obstacles.push(Obstacle::new((x, y), ch));
            k += 1;
        }
        proof {
            assert forall|i2: int|
                0 <= i2 < self.entities@.len() implies entity_wf(
                #[trigger] self.entities@[i2],
                self.physics_engine,
            ) by {
                assert(entity_wf(pre.entities@[i2], pre.physics_engine));
            }
            assert forall|i2: int|
                0 <= i2 < self.bullets@.len() implies self.physics_engine.body_live(
                (#[trigger] self.bullets@[i2]).handle,
            ) by {
                assert(pre.physics_engine.body_live(pre.bullets@[i2].handle));
            }
            assert forall|i2: int|
                0 <= i2 < self.obstacles@.len() implies self.physics_engine.collider_live(
                (#[trigger] self.obstacles@[i2]).collider_handle,
            ) && self.physics_engine.collider_at(self.obstacles@[i2].collider_handle).parent
                is None by {
                if i2 < pre.obstacles@.len() {
                    assert(pre.physics_engine.collider_live(
                        pre.obstacles@[i2].collider_handle,
                    ));
                    assert(pre.physics_engine.collider_at(
                        pre.obstacles@[i2].collider_handle,
                    ).parent is None);
                }
            }
        }
    }

    /// Repositions every entity to a fresh uniformly random interior point,
    /// leaving every other entity field, scores included, untouched.
    pub fn reposition_entities(&mut self)
        requires
            old(self).wf(),
        ensures
            final(self).wf(),
            final(self).entities@.len() == old(self).entities@.len(),
            forall|j: int|
                0 <= j < old(self).entities@.len() ==> {
                    let e = #[trigger] final(self).entities@[j];
                    &&& pos_in_interior(e.x as int, e.y as int)
                    &&& (Entity { x: old(self).entities@[j].x, y: old(self).entities@[j].y, ..e })
                        == old(self).entities@[j]
                },
            final(self).bullets == old(self).bullets,
            final(self).obstacles == old(self).obstacles,
            final(self).now == old(self).now,
            forall|h: RigidBodyHandle|
                final(self).physics_engine.body_live(h) == old(self).physics_engine.body_live(h),
            forall|h: RigidBodyHandle|
                old(self).physics_engine.body_live(h) && !(exists|j: int|
                    0 <= j < old(self).entities@.len() && (#[trigger] old(self).entities@[j]).handle == h) ==> final(self).physics_engine.body_at(h) == old(self).physics_engine.body_at(h),
            crate::physics::colliders_unchanged(
                old(self).physics_engine,
                final(self).physics_engine,
            ),
            final(self).physics_engine.events() == old(self).physics_engine.events(),
            forall|c2: ColliderHandle|
                old(self).physics_engine.collider_retired(c2) ==> final(self).physics_engine.collider_retired(c2),
    {
        let ghost pre = *self;
        let m = self.entities.len();
        let mut j: usize = 0;
        while j < m
            invariant
                pre.wf(),
                self.wf(),
                m == self.entities@.len(),
                m == pre.entities@.len(),
                j <= m,
                forall|k: int|
                    0 <= k < j ==> {
                        let e = #[trigger] self.entities@[k];
                        &&& pos_in_interior(e.x as int, e.y as int)
                        &&& (Entity { x: pre.entities@[k].x, y: pre.entities@[k].y, ..e })
                            == pre.entities@[k]
                    },
                forall|k: int| j <= k < m ==> #[trigger] self.entities@[k] == pre.entities@[k],
                self.bullets == pre.bullets,
                self.obstacles == pre.obstacles,
                self.now == pre.now,
                forall|h: RigidBodyHandle|
                    self.physics_engine.body_live(h) == pre.physics_engine.body_live(h),
                forall|h: RigidBodyHandle|
                    pre.physics_engine.body_live(h) && !(exists|k: int|
                        0 <= k < m && (#[trigger] pre.entities@[k]).handle == h)
                        ==> self.physics_engine.body_at(h) == pre.physics_engine.body_at(h),
                crate::physics::colliders_unchanged(pre.physics_engine, self.physics_engine),
                self.physics_engine.events() == pre.physics_engine.events(),
                forall|c2: ColliderHandle|
                    pre.physics_engine.collider_retired(c2)
                        ==> self.physics_engine.collider_retired(c2),
            decreases m - j,
        {
            let ghost state0 = *self;
            let mut e = self.entities.remove(j);
            let (x, y) = crate::entities::random_interior_position();
            self.physics_engine.set_translation(e.handle, x, y);
            e.x = x;
            e.y = y;
            self.entities.insert(j, e);
            proof {
                assert(self.entities@ =~= state0.entities@.update(j as int, e));
                assert forall|i5: int|
                    0 <= i5 < self.entities@.len() implies entity_wf(
                    #[trigger] self.entities@[i5],
                    self.physics_engine,
                ) by {
                    assert(entity_wf(state0.entities@[i5], state0.physics_engine));
                    if i5 != j {
                        assert(state0.entities@[i5].handle != state0.entities@[j as int].handle);
                        assert(self.entities@[i5] == state0.entities@[i5]);
                    }
                }
            }
            j += 1;
        }
    }

    /// Generates a new map: replaces the whole obstacle set with a fresh
    /// one, retiring every old obstacle collider, and repositions every
    /// entity to a new interior coordinate, leaving names and scores alone.
    pub fn generate_map(&mut self)
        requires
            old(self).wf(),
        ensures
            final(self).wf(),
            final(self).obstacles@.len() == AppDefines::OBSTACLE_COUNT,
            forall|i: int|
                0 <= i < old(self).obstacles@.len() ==> !final(self).physics_engine.collider_live(
                    (#[trigger] old(self).obstacles@[i]).collider_handle,
                ),
            forall|i: int|
                0 <= i < final(self).obstacles@.len() ==> {
                    let ob = #[trigger] final(self).obstacles@[i];
                    &&& pos_in_interior(ob.position.0 as int, ob.position.1 as int)
                    &&& final(self).physics_engine.collider_live(ob.collider_handle)
                    &&& final(self).physics_engine.collider_at(ob.collider_handle) == (Collider {
                        parent: None,
                        x: ob.position.0,
                        y: ob.position.1,
                        hx: AppDefines::OBSTACLE_HALF_EXTENT_MU,
                        hy: AppDefines::OBSTACLE_HALF_EXTENT_MU,
                    })
                },
            final(self).entities@.len() == old(self).entities@.len(),
            forall|j: int|
                0 <= j < old(self).entities@.len() ==> {
                    let e = #[trigger] final(self).entities@[j];
                    &&& pos_in_interior(e.x as int, e.y as int)
                    &&& (Entity { x: old(self).entities@[j].x, y: old(self).entities@[j].y, ..e })
                        == old(self).entities@[j]
                },
            final(self).bullets == old(self).bullets,
            final(self).now == old(self).now,
    {
        let ghost pre = *self;
        self.remove_all_obstacles();
        self.generate_obstacles();
        self.reposition_entities();
        proof {
            assert forall|i: int|
                0 <= i < pre.obstacles@.len() implies !self.physics_engine.collider_live(
                (#[trigger] pre.obstacles@[i]).collider_handle,
            ) by {
                self.physics_engine.lemma_retired_dead(pre.obstacles@[i].collider_handle);
            }
        }
    }

    /// Advances the simulation by one step.
    ///
    /// Advances the clock one tick, steps the physics world, runs the AI
    /// pass, resolves this tick's collisions into scores and bullet
    /// removals, then prunes out-of-bounds and expired bullets, in that
    /// order. Entity identities survive every tick.
    pub fn step(&mut self)
        requires
            old(self).wf(),
            old(self).now < u64::MAX,
        ensures
            final(self).wf(),
            final(self).now == old(self).now + 1,
            final(self).entities@.len() == old(self).entities@.len(),
            forall|j: int|
                0 <= j < old(self).entities@.len() ==> {
                    let e = old(self).entities@[j];
                    let f = #[trigger] final(self).entities@[j];
                    f.name == e.name && f.handle == e.handle && f.is_ai == e.is_ai
                },
            final(self).obstacles == old(self).obstacles,
            exists|s1: GameLogic, s2: GameLogic, s3: GameLogic, s4: GameLogic|
                {
                    &&& #[trigger] physics_phase(*old(self), s1)
                    &&& #[trigger] ai_phase(s1, s2)
                    &&& #[trigger] collision_phase(s2, s3)
                    &&& #[trigger] bounds_phase(s3, s4)
                    &&& expiry_phase(s4, *final(self))
                },
            forall|i: int|
                0 <= i < final(self).bullets@.len() ==> final(self).now - (#[trigger] final(self).bullets@[i]).created_at < AppDefines::BULLET_MAX_AGE_TICKS,
            forall|i: int|
                0 <= i < final(self).bullets@.len() ==> pos_in_arena(
                    final(self).physics_engine.body_at(
                        (#[trigger] final(self).bullets@[i]).handle,
                    ).x as int,
                    final(self).physics_engine.body_at(final(self).bullets@[i].handle).y as int,
                ),
    {
        self.now = self.now + 1;
        let ghost s0 = *self;
        self.physics_engine.step();
        proof {
            assert forall|i: int|
                0 <= i < self.entities@.len() implies entity_wf(
                #[trigger] self.entities@[i],
                self.physics_engine,
            ) by {
                assert(entity_wf(s0.entities@[i], s0.physics_engine));
                assert(self.physics_engine.body_at(s0.entities@[i].handle)
                    == crate::physics::stepped_body(s0.physics_engine.body_at(
                    s0.entities@[i].handle,
                )));
            }
            assert forall|i: int|
                0 <= i < self.bullets@.len() implies self.physics_engine.body_live(
                (#[trigger] self.bullets@[i]).handle,
            ) by {
                assert(s0.physics_engine.body_live(s0.bullets@[i].handle));
            }
        }
        let ghost s1 = *self;
        self.update_ai();
        let ghost s2 = *self;
        self.handle_collisions();
        let ghost s3 = *self;
        self.remove_out_of_bounds_bullets();
        let ghost s4 = *self;
        self.remove_expired_bullets();
        proof {
            assert(physics_phase(*old(self), s1));
            assert(ai_phase(s1, s2));
            assert(collision_phase(s2, s3));
            assert(bounds_phase(s3, s4));
            assert(expiry_phase(s4, *self));
            assert forall|j: int|
                0 <= j < old(self).entities@.len() implies {
                let e = old(self).entities@[j];
                let f = #[trigger] self.entities@[j];
                f.name == e.name && f.handle == e.handle && f.is_ai == e.is_ai
            } by {
                assert(s1.entities@[j] == old(self).entities@[j]);
                if s1.entities@[j].is_ai {
                    assert(ai_updated(s1.entities@[j], s2.entities@[j], s1.now));
                } else {
                    assert(s2.entities@[j] == s1.entities@[j]);
                }
                assert(s3.entities@[j] == (Entity {
                    score: s3.entities@[j].score,
                    ..s2.entities@[j]
                }));
            }
            let dead_oob = |b: Bullet| bullet_oob(s3.physics_engine, b);
            let dead_exp = |b: Bullet|
                bullet_expired(s4.now, AppDefines::BULLET_MAX_AGE_TICKS, b);
            lemma_kept_front_characterization(s4.bullets@, dead_exp);
            lemma_kept_front_characterization(s3.bullets@, dead_oob);
            assert forall|i: int|
                0 <= i < self.bullets@.len() implies {
                let b = #[trigger] self.bullets@[i];
                &&& self.now - b.created_at < AppDefines::BULLET_MAX_AGE_TICKS
                &&& pos_in_arena(
                    self.physics_engine.body_at(b.handle).x as int,
                    self.physics_engine.body_at(b.handle).y as int,
                )
            } by {
                let b = self.bullets@[i];
                assert(kept_front(s4.bullets@, dead_exp).contains(b));
                assert(s4.bullets@.contains(b) && !dead_exp(b));
                assert(kept_front(s3.bullets@, dead_oob).contains(b));
                assert(s3.bullets@.contains(b) && !dead_oob(b));
                let k = choose|k: int| 0 <= k < s3.bullets@.len() && s3.bullets@[k] == b;
                assert(s3.physics_engine.body_live(b.handle));
                assert(!marked_body(s3.bullets@, dead_oob, b.handle)) by {
                    if marked_body(s3.bullets@, dead_oob, b.handle) {
                        let j2 = choose|j2: int|
                            0 <= j2 < s3.bullets@.len() && (#[trigger] s3.bullets@[j2]).handle
                                == b.handle && dead_oob(s3.bullets@[j2]);
                        assert(s3.bullets@[j2] == s3.bullets@[k]);
                        assert(false);
                    }
                }
                assert(s4.physics_engine.body_live(b.handle));
                assert(s4.physics_engine.body_at(b.handle) == s3.physics_engine.body_at(
                    b.handle,
                ));
                let k4 = choose|k4: int| 0 <= k4 < s4.bullets@.len() && s4.bullets@[k4] == b;
                assert(!marked_body(s4.bullets@, dead_exp, b.handle)) by {
                    if marked_body(s4.bullets@, dead_exp, b.handle) {
                        let j2 = choose|j2: int|
                            0 <= j2 < s4.bullets@.len() && (#[trigger] s4.bullets@[j2]).handle
                                == b.handle && dead_exp(s4.bullets@[j2]);
                        assert(s4.bullets@[j2] == s4.bullets@[k4]);
                        assert(false);
                    }
                }
                assert(self.physics_engine.body_at(b.handle) == s4.physics_engine.body_at(
                    b.handle,
                ));
            }
        }
    }

    /// Updates AI entities in the game.
    ///
    /// Once per tick, every AI-flagged entity retargets when its randomized
    /// interval has elapsed (new random interior target, gun orientation,
    /// and interval), moves one unit-speed step toward its target unless it
    /// is already within the hold distance, faces its target, and fires a
    /// bullet along its gun orientation when its firing interval has
    /// elapsed. Player entities are untouched.
    pub fn update_ai(&mut self)
        requires
            old(self).wf(),
        ensures
            final(self).wf(),
            final(self).now == old(self).now,
            final(self).obstacles == old(self).obstacles,
            final(self).entities@.len() == old(self).entities@.len(),
            forall|j: int|
                0 <= j < old(self).entities@.len() ==> if old(self).entities@[j].is_ai {
                    ai_updated(
                        old(self).entities@[j],
                        #[trigger] final(self).entities@[j],
                        old(self).now,
                    )
                } else {
                    final(self).entities@[j] == old(self).entities@[j]
                },
            final(self).bullets@.len() == old(self).bullets@.len() + num_fired(
                old(self).entities@,
                old(self).now,
            ),
            forall|i: int|
                0 <= i < old(self).bullets@.len() ==> final(self).bullets@[i] == old(self).bullets@[i],
            forall|k: int|
                old(self).bullets@.len() <= k < final(self).bullets@.len() ==> (
                #[trigger] final(self).bullets@[k]).created_at == old(self).now && exists|j2: int|
                    0 <= j2 < old(self).entities@.len() && ai_fires(
                        #[trigger] old(self).entities@[j2],
                        old(self).now,
                    ) && final(self).bullets@[k].shooter == old(self).entities@[j2].handle,
            exists|firers: Seq<int>| ai_firing_record(*old(self), *final(self), firers),
            forall|h: RigidBodyHandle|
                old(self).physics_engine.body_live(h) ==> final(self).physics_engine.body_live(h),
            forall|ch: ColliderHandle|
                old(self).physics_engine.collider_live(ch) ==> final(self).physics_engine.collider_live(ch) && final(self).physics_engine.collider_at(ch)
                    == old(self).physics_engine.collider_at(ch),
            forall|ch: ColliderHandle|
                final(self).physics_engine.collider_live(ch) && !old(self).physics_engine.collider_live(ch) ==> exists|k: int|
                    old(self).bullets@.len() <= k < final(self).bullets@.len() && final(self).physics_engine.collider_at(ch) == (Collider {
                        parent: Some((#[trigger] final(self).bullets@[k]).handle),
                        x: 0,
                        y: 0,
                        hx: AppDefines::BULLET_RADIUS_MU,
                        hy: AppDefines::BULLET_RADIUS_MU,
                    }),
            final(self).physics_engine.events() == old(self).physics_engine.events(),
    {
        let ghost pre = *self;
        let ghost mut firers: Seq<int> = Seq::empty();
        let m = self.entities.len();
        let mut j: usize = 0;
        while j < m
            invariant
                pre.wf(),
                self.wf(),
                m == self.entities@.len(),
                m == pre.entities@.len(),
                j <= m,
                self.obstacles == pre.obstacles,
                self.now == pre.now,
                forall|k: int|
                    0 <= k < j ==> if pre.entities@[k].is_ai {
                        ai_updated(pre.entities@[k], #[trigger] self.entities@[k], pre.now)
                    } else {
                        self.entities@[k] == pre.entities@[k]
                    },
                forall|k: int| j <= k < m ==> #[trigger] self.entities@[k] == pre.entities@[k],
                pre.bullets@.len() <= self.bullets@.len(),
                self.bullets@.len() == pre.bullets@.len() + num_fired(
                    pre.entities@.take(j as int),
                    pre.now,
                ),
                forall|i: int|
                    0 <= i < pre.bullets@.len() ==> #[trigger] self.bullets@[i]
                        == pre.bullets@[i],
                forall|k: int|
                    pre.bullets@.len() <= k < self.bullets@.len() ==> (
                    #[trigger] self.bullets@[k]).created_at == pre.now && exists|j2: int|
                        0 <= j2 < m && ai_fires(#[trigger] pre.entities@[j2], pre.now)
                            && self.bullets@[k].shooter == pre.entities@[j2].handle,
                firers.len() + pre.bullets@.len() == self.bullets@.len(),
                forall|k1: int, k2: int| 0 <= k1 < k2 < firers.len() ==> firers[k1] < firers[k2],
                forall|k: int| 0 <= k < firers.len() ==> 0 <= #[trigger] firers[k] < j,
                forall|k: int|
                    0 <= k < firers.len() ==> ai_fired_bullet(
                        pre,
                        *self,
                        pre.bullets@.len() + k,
                        #[trigger] firers[k],
                    ),
                forall|j2: int|
                    0 <= j2 < j && ai_fires(#[trigger] pre.entities@[j2], pre.now)
                        ==> firers.contains(j2),
                forall|h: RigidBodyHandle|
                    pre.physics_engine.body_live(h) ==> self.physics_engine.body_live(h),
                forall|ch: ColliderHandle|
                    pre.physics_engine.collider_live(ch) ==> self.physics_engine.collider_live(ch)
                        && self.physics_engine.collider_at(ch)
                        == pre.physics_engine.collider_at(ch),
                forall|ch: ColliderHandle|
                    self.physics_engine.collider_live(ch) && !pre.physics_engine.collider_live(ch)
                        ==> exists|k: int|
                        pre.bullets@.len() <= k < self.bullets@.len()
                            && self.physics_engine.collider_at(ch) == (Collider {
                            parent: Some((#[trigger] self.bullets@[k]).handle),
                            x: 0,
                            y: 0,
                            hx: AppDefines::BULLET_RADIUS_MU,
                            hy: AppDefines::BULLET_RADIUS_MU,
                        }),
                self.physics_engine.events() == pre.physics_engine.events(),
            decreases m - j,
        {
            proof {
                assert(pre.entities@.take(j + 1).drop_last() =~= pre.entities@.take(j as int));
                assert(pre.entities@.take(j + 1).last() == pre.entities@[j as int]);
            }
            let ghost state0 = *self;
            let ghost mut mid_fire = *self;
            let ghost e0 = pre.entities@[j as int];
            let mut e = self.entities.remove(j);
            if e.is_ai {
                if self.now - e.last_retarget > e.retarget_interval {
                    let (tx, ty) = crate::entities::random_interior_position();
                    e.target_x = tx;
                    e.target_y = ty;
                    e.gun_orientation = crate::rng::random_below(
                        AppDefines::FULL_TURN as u64,
                    ) as u32;
                    e.last_retarget = self.now;
                    e.retarget_interval = AppDefines::AI_RETARGET_MIN_TICKS
                        + crate::rng::random_below(
                        AppDefines::AI_RETARGET_MAX_TICKS - AppDefines::AI_RETARGET_MIN_TICKS,
                    );
                }
                let p = ai_step_exec(e.x, e.y, e.target_x, e.target_y);
                e.x = p.0;
                e.y = p.1;
                self.physics_engine.set_translation(e.handle, p.0, p.1);
                e.self_orientation_x = e.target_x - p.0;
                e.self_orientation_y = e.target_y - p.1;
                if self.now - e.last_shot >= AppDefines::AI_FIRE_INTERVAL_TICKS {
                    proof {
                        mid_fire = *self;
                    }
                    let b = Bullet::new(
                        e.handle,
                        &mut self.physics_engine,
                        AppDefines::BULLET_SPEED_MU_PER_SEC,
                        AppDefines::BULLET_RADIUS_MU,
                        e.gun_orientation,
                        self.now,
                    );
                    self.bullets.push(b);
                    e.last_shot = self.now;
                }
            }
            self.entities.insert(j, e);
            proof {
                assert(self.entities@ =~= state0.entities@.update(j as int, e));
                if e0.is_ai {
                    assert(ai_updated(e0, e, pre.now));
                }
                assert forall|i5: int|
                    0 <= i5 < self.entities@.len() implies entity_wf(
                    #[trigger] self.entities@[i5],
                    self.physics_engine,
                ) by {
                    assert(entity_wf(state0.entities@[i5], state0.physics_engine));
                    if i5 != j {
                        assert(state0.entities@[i5].handle != state0.entities@[j as int].handle);
                        assert(self.entities@[i5] == state0.entities@[i5]);
                    }
                }
                assert forall|i6: int| 0 <= i6 < pre.bullets@.len() implies #[trigger] self.bullets@[i6]
                    == pre.bullets@[i6] by {
                    assert(state0.bullets@[i6] == pre.bullets@[i6]);
                }
                let took = pre.entities@.take(j + 1);
                let fired = ai_fires(e0, pre.now);
                if fired {
                    assert(num_fired(took, pre.now) == num_fired(
                        pre.entities@.take(j as int),
                        pre.now,
                    ) + 1);
                    assert(self.bullets@.len() == state0.bullets@.len() + 1);
                    let nk = self.bullets@.len() - 1;
                    assert(self.bullets@[nk].created_at == pre.now);
                    assert(self.bullets@[nk].shooter == pre.entities@[j as int].handle);
                } else {
                    assert(num_fired(took, pre.now) == num_fired(
                        pre.entities@.take(j as int),
                        pre.now,
                    ));
                    assert(self.bullets@ == state0.bullets@);
                }
                assert forall|k: int|
                    pre.bullets@.len() <= k < self.bullets@.len() implies (
                #[trigger] self.bullets@[k]).created_at == pre.now && exists|j2: int|
                        0 <= j2 < m && ai_fires(#[trigger] pre.entities@[j2], pre.now)
                            && self.bullets@[k].shooter == pre.entities@[j2].handle by {
                    if k < state0.bullets@.len() {
                        assert(self.bullets@[k] == state0.bullets@[k]);
                        let j2 = choose|j2: int|
                            0 <= j2 < m && ai_fires(#[trigger] pre.entities@[j2], pre.now)
                                && state0.bullets@[k].shooter == pre.entities@[j2].handle;
                        assert(0 <= j2 < m && ai_fires(pre.entities@[j2], pre.now)
                            && self.bullets@[k].shooter == pre.entities@[j2].handle);
                    } else {
                        assert(fired);
                        assert(ai_fires(pre.entities@[j as int], pre.now));
                        assert(self.bullets@[k].shooter == pre.entities@[j as int].handle);
                    }
                }
                let ghost firers0 = firers;
                if fired {
                    firers = firers.push(j as int);
                }
                assert forall|k: int|
                    0 <= k < firers.len() implies ai_fired_bullet(
                    pre,
                    *self,
                    pre.bullets@.len() + k,
                    #[trigger] firers[k],
                ) by {
                    if k < firers0.len() {
                        assert(firers[k] == firers0[k]);
                        assert(ai_fired_bullet(
                            pre,
                            state0,
                            pre.bullets@.len() + k,
                            firers0[k],
                        ));
                        let bk = state0.bullets@[pre.bullets@.len() + k];
                        assert(self.bullets@[pre.bullets@.len() + k] == bk);
                        assert(self.entities@[firers0[k]] == state0.entities@[firers0[k]]);
                        assert(state0.physics_engine.body_live(bk.handle));
                        assert(state0.entities@[j as int].handle != bk.handle) by {
                            assert(state0.wf());
                            assert(state0.bullets@[pre.bullets@.len() + k] == bk);
                        }
                        assert(self.physics_engine.body_at(bk.handle)
                            == state0.physics_engine.body_at(bk.handle));
                    } else {
                        assert(fired);
                        assert(firers[k] == j as int);
                        let nk = pre.bullets@.len() + k;
                        assert(self.bullets@[nk] == self.bullets@.last());
                        assert(self.entities@[j as int] == e);
                        assert(ai_fired_bullet(pre, *self, nk, j as int));
                    }
                }
                assert forall|j2: int|
                    0 <= j2 < j + 1 && ai_fires(#[trigger] pre.entities@[j2], pre.now) implies firers.contains(
                    j2,
                ) by {
                    if j2 < j {
                        let w = choose|w: int| 0 <= w < firers0.len() && firers0[w] == j2;
                        assert(firers[w] == j2);
                    } else {
                        assert(fired);
                        assert(firers[firers0.len() as int] == j2);
                    }
                }
                assert forall|ch: ColliderHandle|
                    self.physics_engine.collider_live(ch) && !pre.physics_engine.collider_live(
                        ch,
                    ) implies exists|k: int|
                    pre.bullets@.len() <= k < self.bullets@.len()
                        && self.physics_engine.collider_at(ch) == (Collider {
                        parent: Some((#[trigger] self.bullets@[k]).handle),
                        x: 0,
                        y: 0,
                        hx: AppDefines::BULLET_RADIUS_MU,
                        hy: AppDefines::BULLET_RADIUS_MU,
                    }) by {
                    if state0.physics_engine.collider_live(ch) {
                        let k0 = choose|k0: int|
                            pre.bullets@.len() <= k0 < state0.bullets@.len()
                                && state0.physics_engine.collider_at(ch) == (Collider {
                                parent: Some((#[trigger] state0.bullets@[k0]).handle),
                                x: 0,
                                y: 0,
                                hx: AppDefines::BULLET_RADIUS_MU,
                                hy: AppDefines::BULLET_RADIUS_MU,
                            });
                        assert(self.bullets@[k0] == state0.bullets@[k0]);
                        assert(self.physics_engine.collider_at(ch)
                            == state0.physics_engine.collider_at(ch)) by {
                            if fired {
                                assert(mid_fire.physics_engine.collider_live(ch));
                                assert(mid_fire.physics_engine.collider_at(ch)
                                    == state0.physics_engine.collider_at(ch));
                            }
                        }
                    } else {
                        assert(fired);
                        let w = choose|w: ColliderHandle|
                            {
                                &&& !mid_fire.physics_engine.collider_live(w)
                                &&& #[trigger] self.physics_engine.collider_live(w)
                                &&& self.physics_engine.collider_at(w) == (Collider {
                                    parent: Some(self.bullets@.last().handle),
                                    x: 0,
                                    y: 0,
                                    hx: AppDefines::BULLET_RADIUS_MU,
                                    hy: AppDefines::BULLET_RADIUS_MU,
                                })
                                &&& forall|c2: ColliderHandle|
                                    c2 != w ==> self.physics_engine.collider_live(c2)
                                        == mid_fire.physics_engine.collider_live(c2)
                                &&& forall|c2: ColliderHandle|
                                    c2 != w && mid_fire.physics_engine.collider_live(c2)
                                        ==> self.physics_engine.collider_at(c2)
                                        == mid_fire.physics_engine.collider_at(c2)
                            };
                        if ch == w {
                            let nk = self.bullets@.len() - 1;
                            assert(self.bullets@[nk] == self.bullets@.last());
                        } else {
                            assert(mid_fire.physics_engine.collider_live(ch));
                            assert(state0.physics_engine.collider_live(ch));
                            assert(false);
                        }
                    }
                }
            }
            j += 1;
        }
        proof {
            assert(pre.entities@.take(m as int) =~= pre.entities@);
            assert(ai_firing_record(pre, *self, firers));
        }
    }
}

/// The clock-and-integration phase of one tick: the clock advances one
/// tick; every live dynamic body integrates per `stepped_body`; colliders
/// and registries stand still; and the recorded events are exactly this
/// integration's collision starts.
pub open spec fn physics_phase(pre: GameLogic, post: GameLogic) -> bool {
    &&& post.now == pre.now + 1
    &&& post.entities == pre.entities
    &&& post.bullets == pre.bullets
    &&& post.obstacles == pre.obstacles
    &&& forall|h: RigidBodyHandle|
        post.physics_engine.body_live(h) == pre.physics_engine.body_live(h)
    &&& forall|h: RigidBodyHandle|
        pre.physics_engine.body_live(h) ==> post.physics_engine.body_at(h)
            == crate::physics::stepped_body(pre.physics_engine.body_at(h))
    &&& crate::physics::colliders_unchanged(pre.physics_engine, post.physics_engine)
    &&& forall|k: int|
        0 <= k < post.physics_engine.events().len() ==> pre.physics_engine.collision_started(
            (#[trigger] post.physics_engine.events()[k]).0,
            post.physics_engine.events()[k].1,
        )
    &&& forall|a: ColliderHandle, b: ColliderHandle|
        pre.physics_engine.collision_started(a, b) ==> post.physics_engine.events().contains(
            (a, b),
        )
}

/// The AI phase of one tick: every AI entity updates per `ai_updated`,
/// bullets grow by a complete firing record, and everything else,
/// players' bodies included, stands still.
pub open spec fn ai_phase(pre: GameLogic, post: GameLogic) -> bool {
    &&& post.now == pre.now
    &&& post.obstacles == pre.obstacles
    &&& post.entities@.len() == pre.entities@.len()
    &&& forall|j: int|
        0 <= j < pre.entities@.len() ==> if pre.entities@[j].is_ai {
            ai_updated(pre.entities@[j], #[trigger] post.entities@[j], pre.now)
        } else {
            post.entities@[j] == pre.entities@[j]
        }
    &&& post.bullets@.len() == pre.bullets@.len() + num_fired(pre.entities@, pre.now)
    &&& forall|i: int| 0 <= i < pre.bullets@.len() ==> post.bullets@[i] == pre.bullets@[i]
    &&& exists|firers: Seq<int>| ai_firing_record(pre, post, firers)
    &&& forall|h: RigidBodyHandle|
        pre.physics_engine.body_live(h) ==> post.physics_engine.body_live(h)
    &&& forall|ch: ColliderHandle|
        pre.physics_engine.collider_live(ch) ==> post.physics_engine.collider_live(ch)
            && post.physics_engine.collider_at(ch) == pre.physics_engine.collider_at(ch)
    &&& forall|ch: ColliderHandle|
        post.physics_engine.collider_live(ch) && !pre.physics_engine.collider_live(ch)
            ==> exists|k: int|
            pre.bullets@.len() <= k < post.bullets@.len() && post.physics_engine.collider_at(ch)
                == (Collider {
                parent: Some((#[trigger] post.bullets@[k]).handle),
                x: 0,
                y: 0,
                hx: AppDefines::BULLET_RADIUS_MU,
                hy: AppDefines::BULLET_RADIUS_MU,
            })
    &&& post.physics_engine.events() == pre.physics_engine.events()
}

/// The collision phase of one tick: the events are drained, exactly the
/// hit bullets leave, and each shooter is credited one point per hit
/// bullet of its own, saturating at the score type's ceiling.
pub open spec fn collision_phase(pre: GameLogic, post: GameLogic) -> bool {
    &&& post.physics_engine.events().len() == 0
    &&& post.bullets@ == surviving(pre, pre.bullets@)
    &&& post.entities@.len() == pre.entities@.len()
    &&& forall|j: int|
        0 <= j < pre.entities@.len() ==> {
            let e = pre.entities@[j];
            let hits = hits_scored(pre, pre.bullets@, e.handle);
            #[trigger] post.entities@[j] == (Entity {
                score: if e.score + hits <= i32::MAX {
                    (e.score + hits) as i32
                } else {
                    i32::MAX
                },
                ..e
            })
        }
    &&& forall|h: RigidBodyHandle|
        post.physics_engine.body_live(h) == (pre.physics_engine.body_live(h) && !hit_body(
            pre,
            pre.bullets@,
            h,
        ))
    &&& forall|h: RigidBodyHandle|
        post.physics_engine.body_live(h) ==> post.physics_engine.body_at(h)
            == pre.physics_engine.body_at(h)
    &&& post.obstacles == pre.obstacles
    &&& post.now == pre.now
}

/// The bounds-pruning phase of one tick: exactly the bullets whose bodies
/// lie outside the arena leave, in order.
pub open spec fn bounds_phase(pre: GameLogic, post: GameLogic) -> bool {
    &&& post.bullets@ == kept_front(
        pre.bullets@,
        (|b: Bullet| bullet_oob(pre.physics_engine, b)),
    )
    &&& post.entities == pre.entities
    &&& post.obstacles == pre.obstacles
    &&& post.now == pre.now
    &&& forall|h: RigidBodyHandle|
        post.physics_engine.body_live(h) == (pre.physics_engine.body_live(h) && !marked_body(
            pre.bullets@,
            (|b: Bullet| bullet_oob(pre.physics_engine, b)),
            h,
        ))
    &&& forall|h: RigidBodyHandle|
        post.physics_engine.body_live(h) ==> post.physics_engine.body_at(h)
            == pre.physics_engine.body_at(h)
}

/// The expiry-pruning phase of one tick: exactly the bullets whose age has
/// reached the maximum age leave, in order.
pub open spec fn expiry_phase(pre: GameLogic, post: GameLogic) -> bool {
    &&& post.bullets@ == kept_front(
        pre.bullets@,
        (|b: Bullet| bullet_expired(pre.now, AppDefines::BULLET_MAX_AGE_TICKS, b)),
    )
    &&& post.entities == pre.entities
    &&& post.obstacles == pre.obstacles
    &&& post.now == pre.now
    &&& forall|h: RigidBodyHandle|
        post.physics_engine.body_live(h) == (pre.physics_engine.body_live(h) && !marked_body(
            pre.bullets@,
            (|b: Bullet| bullet_expired(pre.now, AppDefines::BULLET_MAX_AGE_TICKS, b)),
            h,
        ))
    &&& forall|h: RigidBodyHandle|
        post.physics_engine.body_live(h) ==> post.physics_engine.body_at(h)
            == pre.physics_engine.body_at(h)
}

/// Whether an AI entity's randomized retarget interval has elapsed.
pub open spec fn ai_retargets(e: Entity, now: u64) -> bool {
    e.is_ai && now - e.last_retarget > e.retarget_interval
}

/// Whether an AI entity's fixed firing interval has elapsed.
pub open spec fn ai_fires(e: Entity, now: u64) -> bool {
    e.is_ai && now - e.last_shot >= AppDefines::AI_FIRE_INTERVAL_TICKS
}

/// One coordinate moved toward a target by at most `step`.
pub open spec fn move_toward(cur: int, tgt: int, step: int) -> int {
    if cur < tgt {
        if tgt - cur <= step {
            tgt
        } else {
            cur + step
        }
    } else if cur > tgt {
        if cur - tgt <= step {
            tgt
        } else {
            cur - step
        }
    } else {
        cur
    }
}

/// Whether the target lies beyond the hold distance on some axis.
pub open spec fn ai_far(x: int, y: int, tx: int, ty: int) -> bool {
    ||| tx - x > AppDefines::AI_EPSILON_MU
    ||| x - tx > AppDefines::AI_EPSILON_MU
    ||| ty - y > AppDefines::AI_EPSILON_MU
    ||| y - ty > AppDefines::AI_EPSILON_MU
}

/// The position after one AI movement tick: one unit-speed step toward the
/// target, or holding position once within the hold distance.
pub open spec fn ai_move(x: int, y: int, tx: int, ty: int) -> (int, int) {
    if ai_far(x, y, tx, ty) {
        (
            move_toward(x, tx, AppDefines::AI_STEP_MU as int),
            move_toward(y, ty, AppDefines::AI_STEP_MU as int),
        )
    } else {
        (x, y)
    }
}

/// Relates one AI entity before an `update_ai` pass to its state after it:
/// retargeting when the randomized interval has elapsed, one movement step
/// toward the current target, hull orientation facing the target, and the
/// shot timer reset exactly when the entity fired.
pub open spec fn ai_updated(e: Entity, f: Entity, now: u64) -> bool {
    &&& f.name == e.name
    &&& f.score == e.score
    &&& f.handle == e.handle
    &&& f.is_ai == e.is_ai
    &&& f.color == e.color
    &&& if ai_retargets(e, now) {
        &&& f.last_retarget == now
        &&& pos_in_interior(f.target_x as int, f.target_y as int)
        &&& f.gun_orientation < AppDefines::FULL_TURN
        &&& AppDefines::AI_RETARGET_MIN_TICKS <= f.retarget_interval
            <= AppDefines::AI_RETARGET_MAX_TICKS
    } else {
        &&& f.last_retarget == e.last_retarget
        &&& f.target_x == e.target_x
        &&& f.target_y == e.target_y
        &&& f.gun_orientation == e.gun_orientation
        &&& f.retarget_interval == e.retarget_interval
    }
    &&& f.x == ai_move(e.x as int, e.y as int, f.target_x as int, f.target_y as int).0
    &&& f.y == ai_move(e.x as int, e.y as int, f.target_x as int, f.target_y as int).1
    &&& f.self_orientation_x == f.target_x - f.x
    &&& f.self_orientation_y == f.target_y - f.y
    &&& f.last_shot == if ai_fires(e, now) {
        now
    } else {
        e.last_shot
    }
}

/// How many entities of `es` fire during an `update_ai` pass at `now`.
pub open spec fn num_fired(es: Seq<Entity>, now: u64) -> int
    decreases es.len(),
{
    if es.len() == 0 {
        0
    } else {
        num_fired(es.drop_last(), now) + if ai_fires(es.last(), now) {
            1int
        } else {
            0int
        }
    }
}

/// The bullet at index `k` of `post.bullets` was fired during an AI pass
/// over `pre` by the due entity at index `j2`: stamped with the pass's
/// tick, owned by that entity, with a fresh dynamic body at the entity's
/// post-pass position flying along its post-pass gun orientation.
pub open spec fn ai_fired_bullet(pre: GameLogic, post: GameLogic, k: int, j2: int) -> bool {
    let b = post.bullets@[k];
    let f = post.entities@[j2];
    &&& 0 <= j2 < pre.entities@.len()
    &&& ai_fires(pre.entities@[j2], pre.now)
    &&& b.shooter == pre.entities@[j2].handle
    &&& b.created_at == pre.now
    &&& !pre.physics_engine.body_live(b.handle)
    &&& post.physics_engine.body_live(b.handle)
    &&& post.physics_engine.body_at(b.handle) == (RigidBody {
        kinematic: false,
        x: f.x,
        y: f.y,
        vx: bullet_velocity(
            AppDefines::BULLET_SPEED_MU_PER_SEC as int,
            f.gun_orientation as int,
        ).0 as i64,
        vy: bullet_velocity(
            AppDefines::BULLET_SPEED_MU_PER_SEC as int,
            f.gun_orientation as int,
        ).1 as i64,
    })
}

/// A complete record of an AI pass's shots: `firers` lists, in increasing
/// entity order, exactly the entities whose firing interval had elapsed,
/// and the pass appended exactly one bullet of each, in that order.
pub open spec fn ai_firing_record(pre: GameLogic, post: GameLogic, firers: Seq<int>) -> bool {
    &&& firers.len() + pre.bullets@.len() == post.bullets@.len()
    &&& forall|k1: int, k2: int| 0 <= k1 < k2 < firers.len() ==> firers[k1] < firers[k2]
    &&& forall|k: int|
        0 <= k < firers.len() ==> ai_fired_bullet(
            pre,
            post,
            pre.bullets@.len() + k,
            #[trigger] firers[k],
        )
    &&& forall|j2: int|
        0 <= j2 < pre.entities@.len() && ai_fires(#[trigger] pre.entities@[j2], pre.now)
            ==> firers.contains(j2)
}

/// Computes one AI movement step toward the target.
fn ai_step_exec(x: i64, y: i64, tx: i64, ty: i64) -> (p: (i64, i64))
    requires
        pos_in_arena(x as int, y as int),
        pos_in_interior(tx as int, ty as int),
    ensures
        p.0 == ai_move(x as int, y as int, tx as int, ty as int).0,
        p.1 == ai_move(x as int, y as int, tx as int, ty as int).1,
        pos_in_arena(p.0 as int, p.1 as int),
{
    let far = tx - x > AppDefines::AI_EPSILON_MU || x - tx > AppDefines::AI_EPSILON_MU || ty - y
        > AppDefines::AI_EPSILON_MU || y - ty > AppDefines::AI_EPSILON_MU;
    if !far {
        return (x, y);
    }
    let nx: i64 = if x < tx {
        if tx - x <= AppDefines::AI_STEP_MU {
            tx
        } else {
            x + AppDefines::AI_STEP_MU
        }
    } else if x > tx {
        if x - tx <= AppDefines::AI_STEP_MU {
            tx
        } else {
            x - AppDefines::AI_STEP_MU
        }
    } else {
        x
    };
    let ny: i64 = if y < ty {
        if ty - y <= AppDefines::AI_STEP_MU {
            ty
        } else {
            y + AppDefines::AI_STEP_MU
        }
    } else if y > ty {
        if y - ty <= AppDefines::AI_STEP_MU {
            ty
        } else {
            y - AppDefines::AI_STEP_MU
        }
    } else {
        y
    };
    (nx, ny)
}

/// Marking every bullet dead keeps none.
proof fn lemma_kept_all_dead(bs: Seq<Bullet>)
    ensures
        kept_front(bs, (|b: Bullet| true)).len() == 0,
    decreases bs.len(),
{
    if bs.len() > 0 {
        lemma_kept_all_dead(bs.drop_first());
    }
}

/// A pruning pass removes exactly the bullets its predicate marks: what
/// stays was there and is unmarked, and everything unmarked stays. In
/// particular, every bullet removed by the expiry pass had reached the
/// maximum age, and every bullet removed by the bounds pass lay outside
/// the arena.
pub proof fn lemma_kept_front_characterization(bs: Seq<Bullet>, dead: spec_fn(Bullet) -> bool)
    ensures
        forall|b: Bullet|
            #[trigger] kept_front(bs, dead).contains(b) == (bs.contains(b) && !dead(b)),
    decreases bs.len(),
{
    if bs.len() == 0 {
        assert forall|b: Bullet|
            #[trigger] kept_front(bs, dead).contains(b) == (bs.contains(b) && !dead(b)) by {
            assert(!bs.contains(b));
            assert(kept_front(bs, dead).len() == 0);
        }
    } else {
        lemma_kept_front_characterization(bs.drop_first(), dead);
        let rest = bs.drop_first();
        assert forall|b: Bullet|
            #[trigger] kept_front(bs, dead).contains(b) == (bs.contains(b) && !dead(b)) by {
            assert(bs.contains(b) == (bs.first() == b || rest.contains(b))) by {
                if bs.contains(b) {
                    let i = choose|i: int| 0 <= i < bs.len() && bs[i] == b;
                    if i > 0 {
                        assert(rest[i - 1] == b);
                    }
                }
                if rest.contains(b) {
                    let i = choose|i: int| 0 <= i < rest.len() && rest[i] == b;
                    assert(bs[i + 1] == b);
                }
                if bs.first() == b {
                    assert(bs[0] == b);
                }
            }
            if dead(bs.first()) {
                assert(kept_front(bs, dead) == kept_front(rest, dead));
            } else {
                let kept = kept_front(bs, dead);
                assert(kept == seq![bs.first()] + kept_front(rest, dead));
                assert(kept.contains(b) == (bs.first() == b || kept_front(rest, dead).contains(
                    b,
                ))) by {
                    if kept.contains(b) {
                        let i = choose|i: int| 0 <= i < kept.len() && kept[i] == b;
                        if i > 0 {
                            assert(kept_front(rest, dead)[i - 1] == b);
                        }
                    }
                    if kept_front(rest, dead).contains(b) {
                        let i = choose|i: int|
                            0 <= i < kept_front(rest, dead).len() && kept_front(rest, dead)[i]
                                == b;
                        assert(kept[i + 1] == b);
                    }
                    if bs.first() == b {
                        assert(kept[0] == b);
                    }
                }
            }
        }
    }
}

/// The collision pass keeps exactly the bullets that no event hit against
/// a non-owner entity: its survivors are the unhit bullets, in order.
pub proof fn lemma_surviving_is_kept(pre: GameLogic, bs: Seq<Bullet>)
    ensures
        surviving(pre, bs) == kept_front(bs, (|b: Bullet| pre.bullet_hit(b))),
    decreases bs.len(),
{
    if bs.len() > 0 {
        lemma_surviving_is_kept(pre, bs.drop_first());
    }
}

/// A bullet that only its own shooter's body collided with neither leaves
/// the bullet set nor awards any score: it survives the collision pass
/// untouched.
pub proof fn lemma_own_collision_harmless(pre: GameLogic, bs: Seq<Bullet>, b: Bullet)
    requires
        !pre.bullet_hit(b),
        bs.contains(b),
    ensures
        surviving(pre, bs).contains(b),
{
    lemma_surviving_is_kept(pre, bs);
    lemma_kept_front_characterization(bs, (|b2: Bullet| pre.bullet_hit(b2)));
    assert(kept_front(bs, (|b2: Bullet| pre.bullet_hit(b2))).contains(b));
}

/// A shooter none of whose bullets were hit this tick is awarded nothing
/// by the collision pass.
pub proof fn lemma_score_zero(pre: GameLogic, bs: Seq<Bullet>, sh: RigidBodyHandle)
    requires
        forall|i: int|
            0 <= i < bs.len() ==> !(pre.bullet_hit(#[trigger] bs[i]) && bs[i].shooter == sh),
    ensures
        hits_scored(pre, bs, sh) == 0,
    decreases bs.len(),
{
    if bs.len() > 0 {
        assert(bs.last() == bs[bs.len() - 1]);
        lemma_score_zero(pre, bs.drop_last(), sh);
    }
}

/// A shooter exactly one of whose bullets was hit this tick is awarded
/// exactly one point by the collision pass.
pub proof fn lemma_score_one(pre: GameLogic, bs: Seq<Bullet>, sh: RigidBodyHandle, w: int)
    requires
        0 <= w < bs.len(),
        forall|i: int|
            0 <= i < bs.len() ==> ((pre.bullet_hit(#[trigger] bs[i]) && bs[i].shooter == sh) <==> i
                == w),
    ensures
        hits_scored(pre, bs, sh) == 1,
    decreases bs.len(),
{
    assert(bs.last() == bs[bs.len() - 1]);
    if w == bs.len() - 1 {
        lemma_score_zero(pre, bs.drop_last(), sh);
    } else {
        lemma_score_one(pre, bs.drop_last(), sh, w);
    }
}

/// Two distinct indices of a well-formed registry carry distinct names.
proof fn lemma_names_unique_helper(g: GameLogic, i: int, j: int)
    requires
        g.wf(),
        0 <= i < g.entities@.len(),
        0 <= j < g.entities@.len(),
        i != j,
    ensures
        g.entities@[i].name@ != g.entities@[j].name@,
{
}

/// Names are unique among live entities: a well-formed registry holds at
/// most one entity under any given name.
pub proof fn lemma_names_unique(g: GameLogic, i: int, j: int)
    requires
        g.wf(),
        0 <= i < g.entities@.len(),
        0 <= j < g.entities@.len(),
        g.entities@[i].name@ == g.entities@[j].name@,
    ensures
        i == j,
{
}

} // verus!
