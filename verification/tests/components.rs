use arena_core::app_defines::AppDefines;
use arena_core::ball::{create_balls, create_player};
use arena_core::bullet::{direction, scale_component};
use arena_core::game_management::{
    block_players_in_bound, boundary_rects, player_mov, update_name_tag_position, MoveAction,
    PlayerNameTag, BOUNDARY_HEIGHT, BOUNDARY_THICKNESS, BOUNDARY_WIDTH, PLAYER_SIZE,
};
use arena_core::physics::{Collider, PhysicsEngine, RigidBody};
use arena_core::server_entity::{ship, Entity, MovingObject};
use arena_core::server_thread::{ServerSettings, ServerThread};
use arena_core::types::{add_message, MessageType, Rgb, StyledMessage};

#[test]
fn message_colors_match_their_severity() {
    assert_eq!(MessageType::Info.to_color(), Rgb { r: 0, g: 255, b: 0 });
    assert_eq!(MessageType::Error.to_color(), Rgb { r: 255, g: 0, b: 0 });
    assert_eq!(MessageType::Warning.to_color(), Rgb { r: 255, g: 255, b: 0 });
    assert_eq!(MessageType::Debug.to_color(), Rgb { r: 0, g: 0, b: 255 });
    assert_eq!(MessageType::Default.to_color(), Rgb { r: 160, g: 160, b: 160 });
}

#[test]
fn styled_messages_carry_text_and_color() {
    let m = StyledMessage::new("hello".to_string(), MessageType::Error);
    assert_eq!(m.text, "hello");
    assert_eq!(m.color, Rgb { r: 255, g: 0, b: 0 });
    let mut log: Vec<StyledMessage> = Vec::new();
    add_message(&mut log, "one".to_string(), MessageType::Info);
    add_message(&mut log, "two".to_string(), MessageType::Default);
    assert_eq!(log.len(), 2);
    assert_eq!(log[0].text, "one");
    assert_eq!(log[1].color, Rgb { r: 160, g: 160, b: 160 });
}

#[test]
fn settings_take_their_defaults_from_app_defines() {
    let s = ServerSettings::new();
    assert_eq!(s.arena_width, 1200);
    assert_eq!(s.arena_height, 1000);
    assert_eq!(s.obstacle_probability, 300);
    assert_eq!(s.game_modes, vec!["FreeForAll"]);
    assert_eq!(s.bot_rate_of_fire, 100);
    assert_eq!(s.penalty_time, 1000);
    assert_eq!(s.connection_timeout_delay, 10);
    assert_eq!(s.message_duration, 1000);
    assert_eq!(s.message_length, 40);
    assert_eq!(s.score_limit, -1);
}

#[test]
fn command_codes_match_the_protocol_constants() {
    assert_eq!(AppDefines::SET_NAME, "NAME");
    assert_eq!(AppDefines::SET_COLOR, "COL");
    assert_eq!(AppDefines::QUIT, "EXIT");
    assert_eq!(AppDefines::ALIVE, "LIVE");
    assert_eq!(AppDefines::MESSAGE, "MSG");
    assert_eq!(AppDefines::QUERY_CLOSEST_BOT, "CBOT");
    assert_eq!(AppDefines::QUERY_CLOSEST_PROJECTILE, "CPROJ");
    assert_eq!(AppDefines::QUERY_BY_NAME, "NBOT");
    assert_eq!(AppDefines::QUERY_NAME_LIST, "NLIST");
    assert_eq!(AppDefines::QUERY_ORIENTATION, "ORIENT");
    assert_eq!(AppDefines::QUERY_MESSAGES_FROM_USER, "USRMSG");
    assert_eq!(AppDefines::EMPTY_REPLY, "EMPTY");
    assert_eq!(AppDefines::GAME_MODES, ["FreeForAll"]);
    assert_eq!(AppDefines::COMMAND_SEP, "#");
    assert_eq!(AppDefines::ARGUMENT_SEP, "=");
}

#[test]
fn server_thread_holds_its_address() {
    let t = ServerThread::new("127.0.0.1".to_string(), 6969);
    assert_eq!(t.address, "127.0.0.1");
    assert_eq!(t.port, 6969);
}

#[test]
fn directions_hit_the_cardinal_points() {
    assert_eq!(direction(0), (1000, 0));
    assert_eq!(direction(250), (0, 1000));
    assert_eq!(direction(500), (-1000, 0));
    assert_eq!(direction(750), (0, -1000));
}

#[test]
fn scaling_follows_the_direction_component() {
    assert_eq!(scale_component(16_666, 1000), 16_666);
    assert_eq!(scale_component(16_666, -1000), -16_666);
    assert_eq!(scale_component(16_666, 500), 8_333);
    assert_eq!(scale_component(16_666, 0), 0);
}

#[test]
fn physics_bodies_round_trip_through_their_handles() {
    let mut p = PhysicsEngine::default();
    let h = p.insert_body(RigidBody { kinematic: false, x: 7, y: 8, vx: 1, vy: -2 });
    let ch = p.insert_collider_with_parent(
        Collider { parent: None, x: 0, y: 0, hx: 100, hy: 100 },
        h,
    );
    assert_eq!(p.translation(h), (7, 8));
    assert!(p.is_collider_live(ch));
    p.step();
    assert_eq!(p.translation(h), (8, 6));
    p.remove_body(h);
    assert!(!p.is_collider_live(ch), "colliders go with their body");
}

#[test]
fn collision_events_fire_on_contact_start() {
    let mut p = PhysicsEngine::default();
    let a = p.insert_body(RigidBody { kinematic: false, x: 0, y: 0, vx: 60, vy: 0 });
    let ca = p.insert_collider_with_parent(
        Collider { parent: None, x: 0, y: 0, hx: 10, hy: 10 },
        a,
    );
    let cb = p.insert_collider(Collider { parent: None, x: 100, y: 0, hx: 10, hy: 10 });
    p.step();
    assert!(p.drain_events().is_empty(), "still 40 apart after one step");
    p.step();
    let events = p.drain_events();
    assert_eq!(events.len(), 1, "boxes meet within the second step");
    assert!(events[0] == (ca, cb) || events[0] == (cb, ca));
    p.step();
    assert!(p.drain_events().is_empty(), "overlap continuing is no new start");
}

#[test]
fn balls_and_players_get_live_bodies() {
    let mut p = PhysicsEngine::default();
    let balls = create_balls(&mut p, 3);
    assert_eq!(balls.len(), 3);
    for b in &balls {
        let (x, y) = p.translation(b.handle);
        assert!((50_000..1_150_000).contains(&x));
        assert!((50_000..950_000).contains(&y));
    }
    let player = create_player(&mut p, "solo".to_string());
    assert_eq!(player.name, "solo");
    assert_eq!(player.score, 0);
    assert_eq!(p.translation(player.handle), (600_000, 500_000));
}

#[test]
fn wheels_follow_the_arrow_keys() {
    let mut s = ship {
        body: MovingObject {
            entity: Entity {
                world_position: [0, 0],
                world_angle: 0,
                size: PLAYER_SIZE,
                lock: false,
                name: "player".to_string(),
                color: Rgb { r: 0, g: 255, b: 0 },
            },
        },
        right_wheel: 500,
        left_wheel: 500,
        gun_orientation: [0, 0],
    };
    s.update_wheels(true, false, false, false);
    assert_eq!((*s.get_left_wheel(), *s.get_right_wheel()), (1000, 1000));
    s.update_wheels(false, true, false, false);
    assert_eq!((*s.get_left_wheel(), *s.get_right_wheel()), (0, 0));
    s.update_wheels(false, false, true, false);
    assert_eq!((*s.get_left_wheel(), *s.get_right_wheel()), (1000, 500));
    s.update_wheels(false, false, false, true);
    assert_eq!((*s.get_left_wheel(), *s.get_right_wheel()), (500, 1000));
    s.update_wheels(false, false, false, false);
    assert_eq!((*s.get_left_wheel(), *s.get_right_wheel()), (500, 500));
}

#[test]
fn entity_accessors_round_trip() {
    let mut e = Entity {
        world_position: [1, 2],
        world_angle: 3,
        size: 4,
        lock: false,
        name: "n".to_string(),
        color: Rgb { r: 1, g: 2, b: 3 },
    };
    e.set_world_position(10, 20);
    assert_eq!(e.get_world_position(), [10, 20]);
    e.set_angle(77);
    assert_eq!(*e.get_angle(), 77);
    e.set_size(99);
    assert_eq!(e.get_name(), "n");
    e.set_color(Rgb { r: 9, g: 9, b: 9 });
    e.new([5, 6], 7, 8);
    assert_eq!(e.get_world_position(), [5, 6]);
    assert_eq!(*e.get_angle(), 7);
}

#[test]
fn players_are_clamped_into_the_play_area() {
    let w = 1_000_000;
    let h = 800_000;
    let x_min = (w - BOUNDARY_WIDTH) / 2 + PLAYER_SIZE / 2;
    let x_max = (w + BOUNDARY_WIDTH) / 2 - PLAYER_SIZE / 2;
    let y_min = (h - BOUNDARY_HEIGHT) / 2 + PLAYER_SIZE / 2;
    assert_eq!(block_players_in_bound(0, 0, w, h), (x_min, y_min));
    assert_eq!(block_players_in_bound(999_999_999, 400_000, w, h), (x_max, 400_000));
    assert_eq!(block_players_in_bound(500_000, 400_000, w, h), (500_000, 400_000));
}

#[test]
fn wheel_settings_decide_the_movement() {
    assert_eq!(player_mov(1000, 1000), MoveAction::Forward);
    assert_eq!(player_mov(0, 0), MoveAction::Backward);
    assert_eq!(player_mov(1000, 500), MoveAction::TurnRight);
    assert_eq!(player_mov(500, 1000), MoveAction::TurnLeft);
    assert_eq!(player_mov(500, 500), MoveAction::Hold);
}

#[test]
fn name_tags_float_above_the_ship() {
    assert_eq!(update_name_tag_position(100_000, 200_000), (100_000, 247_000));
    let tag = PlayerNameTag { ship_entity: 42 };
    assert_eq!(tag.ship_entity, 42);
}

#[test]
fn boundary_bars_frame_the_play_area() {
    let w = 1_000_000;
    let h = 800_000;
    let rects = boundary_rects(w, h);
    assert_eq!(rects.len(), 4);
    assert_eq!(rects[0], (500_000, 152_500, BOUNDARY_WIDTH, BOUNDARY_THICKNESS));
    assert_eq!(rects[1], (500_000, 647_500, BOUNDARY_WIDTH, BOUNDARY_THICKNESS));
    assert_eq!(rects[2], (152_500, 400_000, BOUNDARY_THICKNESS, BOUNDARY_HEIGHT));
    assert_eq!(rects[3], (847_500, 400_000, BOUNDARY_THICKNESS, BOUNDARY_HEIGHT));
}
