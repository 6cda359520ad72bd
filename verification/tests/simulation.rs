use arena_core::app_defines::AppDefines;
use arena_core::game_logic::GameLogic;

const INTERIOR_MIN_X: i64 = AppDefines::SPAWN_MARGIN_MU;
const INTERIOR_MAX_X: i64 = AppDefines::ARENA_WIDTH_MU - AppDefines::SPAWN_MARGIN_MU;
const INTERIOR_MIN_Y: i64 = AppDefines::SPAWN_MARGIN_MU;
const INTERIOR_MAX_Y: i64 = AppDefines::ARENA_HEIGHT_MU - AppDefines::SPAWN_MARGIN_MU;

/// Pins the entity at `idx` to a known position so a scenario is
/// deterministic despite random spawn points.
fn place(g: &mut GameLogic, idx: usize, x: i64, y: i64) {
    let h = g.entities[idx].handle;
    g.physics_engine.set_translation(h, x, y);
    g.entities[idx].x = x;
    g.entities[idx].y = y;
    g.entities[idx].target_x = x;
    g.entities[idx].target_y = y;
}

#[test]
fn spawn_creates_one_entity_with_name_and_zero_score() {
    let mut g = GameLogic::new();
    g.add_entity("Alice".to_string());
    assert_eq!(g.entities.len(), 1);
    assert_eq!(g.entities[0].name, "Alice");
    assert_eq!(g.entities[0].score, 0);
    assert!(!g.entities[0].is_ai);
    assert!(g.entities[0].x >= INTERIOR_MIN_X && g.entities[0].x <= INTERIOR_MAX_X);
    assert!(g.entities[0].y >= INTERIOR_MIN_Y && g.entities[0].y <= INTERIOR_MAX_Y);
    let p = g.physics_engine.translation(g.entities[0].handle);
    assert_eq!(p, (g.entities[0].x, g.entities[0].y));
}

#[test]
fn spawning_a_duplicate_name_is_a_no_op() {
    let mut g = GameLogic::new();
    g.add_entity("Alice".to_string());
    g.add_entity("Alice".to_string());
    assert_eq!(g.entities.len(), 1);
    g.add_ai("Alice".to_string());
    assert_eq!(g.entities.len(), 1);
    g.add_entity("Bob".to_string());
    assert_eq!(g.entities.len(), 2);
}

#[test]
fn add_ai_flags_the_entity() {
    let mut g = GameLogic::new();
    g.add_ai("Bot".to_string());
    assert_eq!(g.entities.len(), 1);
    assert!(g.entities[0].is_ai);
    assert_eq!(g.entities[0].score, 0);
}

#[test]
fn shooting_is_rate_limited() {
    let mut g = GameLogic::new();
    g.add_entity("Alice".to_string());
    g.shoot_ball(0);
    assert_eq!(g.bullets.len(), 0, "firing before the cooldown is a no-op");
    g.now = AppDefines::SHOT_COOLDOWN_TICKS;
    g.shoot_ball(0);
    assert_eq!(g.bullets.len(), 1);
    assert_eq!(g.bullets[0].shooter, g.entities[0].handle);
    assert_eq!(g.bullets[0].created_at, AppDefines::SHOT_COOLDOWN_TICKS);
    g.shoot_ball(0);
    assert_eq!(g.bullets.len(), 1, "the cooldown has not elapsed again");
    g.shoot_ball(7);
    assert_eq!(g.bullets.len(), 1, "an out-of-range index is a no-op");
}

#[test]
fn bullet_moves_along_the_gun_orientation() {
    let mut g = GameLogic::new();
    g.add_entity("Alice".to_string());
    place(&mut g, 0, 300_000, 500_000);
    g.now = 30;
    g.shoot_ball(0);
    let b = g.bullets[0].handle;
    assert_eq!(g.physics_engine.translation(b), (300_000, 500_000));
    g.step();
    assert_eq!(g.bullets.len(), 1);
    assert_eq!(g.physics_engine.translation(b), (316_666, 500_000));
}

#[test]
fn bullets_expire_at_max_age_and_own_hits_never_score() {
    let mut g = GameLogic::new();
    g.add_entity("Alice".to_string());
    place(&mut g, 0, 100_000, 500_000);
    g.now = 30;
    g.shoot_ball(0);
    assert_eq!(g.bullets.len(), 1);
    for _ in 0..59 {
        g.step();
    }
    assert_eq!(g.bullets.len(), 1, "age 59 is under the maximum age");
    g.step();
    assert_eq!(g.bullets.len(), 0, "removed exactly when age reaches 60 ticks");
    assert_eq!(g.entities[0].score, 0, "touching its own shooter scored nothing");
}

#[test]
fn out_of_bounds_bullets_are_pruned() {
    let mut g = GameLogic::new();
    g.add_entity("Alice".to_string());
    place(&mut g, 0, 1_150_000, 500_000);
    g.now = 30;
    g.shoot_ball(0);
    for _ in 0..3 {
        g.step();
    }
    assert_eq!(g.bullets.len(), 1, "still inside the arena after 3 ticks");
    for _ in 0..2 {
        g.step();
    }
    assert_eq!(g.bullets.len(), 0, "pruned once past the right wall");
    assert_eq!(g.entities[0].score, 0);
}

#[test]
fn hitting_another_entity_scores_the_shooter_and_removes_the_bullet() {
    let mut g = GameLogic::new();
    g.add_entity("Alice".to_string());
    g.add_entity("Bob".to_string());
    place(&mut g, 0, 300_000, 500_000);
    place(&mut g, 1, 400_000, 500_000);
    g.now = 30;
    g.shoot_ball(0);
    assert_eq!(g.bullets.len(), 1);
    for _ in 0..7 {
        g.step();
    }
    assert_eq!(g.entities[0].score, 1, "the shooter is credited exactly once");
    assert_eq!(g.entities[1].score, 0, "the victim's score is untouched");
    assert_eq!(g.bullets.len(), 0, "the bullet went with the hit");
}

#[test]
fn reset_zeroes_scores_and_bullets_but_keeps_positions() {
    let mut g = GameLogic::new();
    g.add_entity("Alice".to_string());
    g.add_entity("Bob".to_string());
    place(&mut g, 0, 200_000, 300_000);
    place(&mut g, 1, 900_000, 700_000);
    g.entities[0].score = 5;
    g.entities[1].score = 2;
    g.now = 30;
    g.shoot_ball(0);
    assert_eq!(g.bullets.len(), 1);
    g.generate_map();
    let obstacle_count = g.obstacles.len();
    let positions: Vec<(i64, i64)> = g.entities.iter().map(|e| (e.x, e.y)).collect();
    g.reset_simulation();
    assert_eq!(g.entities[0].score, 0);
    assert_eq!(g.entities[1].score, 0);
    assert_eq!(g.bullets.len(), 0);
    assert_eq!(g.entities[0].name, "Alice");
    assert_eq!(g.entities[1].name, "Bob");
    for (i, e) in g.entities.iter().enumerate() {
        assert_eq!((e.x, e.y), positions[i], "reset leaves positions alone");
    }
    assert_eq!(g.obstacles.len(), obstacle_count, "reset leaves obstacles alone");
}

#[test]
fn generate_map_replaces_obstacles_and_repositions_entities() {
    let mut g = GameLogic::new();
    g.add_entity("Alice".to_string());
    g.entities[0].score = 3;
    g.generate_map();
    assert_eq!(g.obstacles.len(), 25);
    let old_handles: Vec<_> = g.obstacles.iter().map(|o| o.collider_handle).collect();
    for o in g.obstacles.iter() {
        assert!(g.physics_engine.is_collider_live(o.collider_handle));
        assert!(o.position.0 >= INTERIOR_MIN_X && o.position.0 <= INTERIOR_MAX_X);
        assert!(o.position.1 >= INTERIOR_MIN_Y && o.position.1 <= INTERIOR_MAX_Y);
    }
    g.generate_map();
    assert_eq!(g.obstacles.len(), 25);
    for h in old_handles {
        assert!(
            !g.physics_engine.is_collider_live(h),
            "old obstacle colliders are no longer present"
        );
    }
    assert!(g.entities[0].x >= INTERIOR_MIN_X && g.entities[0].x <= INTERIOR_MAX_X);
    assert!(g.entities[0].y >= INTERIOR_MIN_Y && g.entities[0].y <= INTERIOR_MAX_Y);
    assert_eq!(g.entities[0].score, 3, "map generation leaves scores alone");
    assert_eq!(g.entities[0].name, "Alice");
}

#[test]
fn ai_retargets_and_keeps_an_interior_target() {
    let mut g = GameLogic::new();
    g.add_ai("Bot".to_string());
    for _ in 0..(AppDefines::AI_RETARGET_MAX_TICKS + 2) {
        g.step();
    }
    let bot = &g.entities[0];
    assert!(bot.last_retarget > 0, "the randomized retarget interval has elapsed");
    assert!(bot.target_x >= INTERIOR_MIN_X && bot.target_x <= INTERIOR_MAX_X);
    assert!(bot.target_y >= INTERIOR_MIN_Y && bot.target_y <= INTERIOR_MAX_Y);
    assert!(bot.x >= 0 && bot.x <= AppDefines::ARENA_WIDTH_MU);
    assert!(bot.y >= 0 && bot.y <= AppDefines::ARENA_HEIGHT_MU);
    assert!(bot.last_shot > 0, "the firing interval has elapsed at least once");
}

#[test]
fn removing_an_entity_is_atomic_and_idempotent() {
    let mut g = GameLogic::new();
    g.add_entity("Alice".to_string());
    g.add_entity("Bob".to_string());
    place(&mut g, 0, 200_000, 500_000);
    g.now = 30;
    g.shoot_ball(0);
    assert_eq!(g.bullets.len(), 1);
    g.remove_entity(&"Alice".to_string());
    assert_eq!(g.entities.len(), 1);
    assert_eq!(g.entities[0].name, "Bob");
    assert_eq!(g.bullets.len(), 1, "the shooter's bullets outlive it");
    g.remove_entity(&"Alice".to_string());
    assert_eq!(g.entities.len(), 1, "removing a missing name is a no-op");
    g.step();
    assert_eq!(g.entities.len(), 1);
}

#[test]
fn reset_scores_touches_only_scores() {
    let mut g = GameLogic::new();
    g.add_entity("Alice".to_string());
    g.entities[0].score = 9;
    let pos = (g.entities[0].x, g.entities[0].y);
    g.reset_scores();
    assert_eq!(g.entities[0].score, 0);
    assert_eq!((g.entities[0].x, g.entities[0].y), pos);
    assert_eq!(g.entities[0].name, "Alice");
}

#[test]
fn ticks_advance_the_clock_and_keep_identity() {
    let mut g = GameLogic::new();
    g.add_entity("Alice".to_string());
    g.add_ai("Bot".to_string());
    for _ in 0..10 {
        g.step();
    }
    assert_eq!(g.now, 10);
    assert_eq!(g.entities.len(), 2);
    assert_eq!(g.entities[0].name, "Alice");
    assert_eq!(g.entities[1].name, "Bot");
}
