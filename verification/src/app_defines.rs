//! Application-wide constant definitions: arena geometry, gameplay pacing,
//! and the command vocabulary of the wire protocol.
//!
//! Distances are in arena units; `SCALE` milliunits make one unit. Durations
//! are in simulation ticks (`TARGET_FPS_2D_PHYSICS` ticks per second) unless
//! a constant says otherwise.

use vstd::prelude::*;

verus! {

/// Struct containing constant definitions for the application.
pub struct AppDefines;

impl AppDefines {
    /// The target frames per second for 2D physics calculations.
    pub const TARGET_FPS_2D_PHYSICS: u64 = 30;
    /// Milliunits per arena unit: all world coordinates are fixed-point.
    pub const SCALE: i64 = 1000;
    /// The width of the arena, in units.
    pub const ARENA_WIDTH: i64 = 1200;
    /// The height of the arena, in units.
    pub const ARENA_HEIGHT: i64 = 1000;
    /// The probability of an obstacle appearing in the arena, in thousandths.
    pub const OBSTACLE_PROBABILITY: u32 = 300;

    /// The width of the arena in milliunits.
    pub const ARENA_WIDTH_MU: i64 = 1_200_000;
    /// The height of the arena in milliunits.
    pub const ARENA_HEIGHT_MU: i64 = 1_000_000;
    /// The margin kept from each wall when placing entities, targets, and
    /// obstacles, in milliunits.
    pub const SPAWN_MARGIN_MU: i64 = 10_000;
    /// Half the side of an entity's square collider, in milliunits.
    pub const ENTITY_HALF_EXTENT_MU: i64 = 10_000;
    /// Half the side of an obstacle's square collider, in milliunits.
    pub const OBSTACLE_HALF_EXTENT_MU: i64 = 10_000;
    /// The radius of a bullet's collider, in milliunits.
    pub const BULLET_RADIUS_MU: i64 = 5_000;
    /// The speed of a bullet, in milliunits per second.
    pub const BULLET_SPEED_MU_PER_SEC: i64 = 500_000;
    /// How many obstacles a map regeneration scatters.
    pub const OBSTACLE_COUNT: usize = 25;
    /// The number of ticks a bullet lives before it expires (2 seconds).
    pub const BULLET_MAX_AGE_TICKS: u64 = 60;
    /// The cooldown between two player-triggered shots, in ticks (1 second).
    pub const SHOT_COOLDOWN_TICKS: u64 = 30;
    /// The interval between two AI shots, in ticks (500 ms).
    pub const AI_FIRE_INTERVAL_TICKS: u64 = 15;
    /// The shortest randomized AI retarget interval, in ticks (1 second).
    pub const AI_RETARGET_MIN_TICKS: u64 = 30;
    /// The longest randomized AI retarget interval, in ticks (3 seconds).
    pub const AI_RETARGET_MAX_TICKS: u64 = 90;
    /// How far an AI entity moves per tick, in milliunits (unit speed).
    pub const AI_STEP_MU: i64 = 1_000;
    /// The distance under which an AI entity holds position at its target,
    /// in milliunits (1 unit).
    pub const AI_EPSILON_MU: i64 = 1_000;
    /// A full turn of gun or hull orientation, in milliturns.
    pub const FULL_TURN: u32 = 1000;

    /// The available game modes.
    pub const GAME_MODES: [&'static str; 1] = ["FreeForAll"];
    /// The rate of fire for bots in ticks.
    pub const BOT_RATE_OF_FIRE: i32 = 100;
    /// The penalty time for infractions in ticks.
    pub const PENALTY_TIME: i64 = 1000;
    /// The delay before a connection times out in seconds.
    pub const CONNECTION_TIMEOUT_DELAY: i32 = 10;
    /// The duration messages are displayed in ticks.
    pub const MESSAGE_DURATION: i32 = 1000;
    /// The maximum length of a message in characters.
    pub const MESSAGE_LENGTH: i32 = 40;
    /// The score limit for the game; -1 means unlimited.
    pub const SCORE_LIMIT: i32 = -1;

    /// Command to set the user's name. Argument: string.
    pub const SET_NAME: &'static str = "NAME";
    /// Command to set the user's color. Arguments: 3 integers for RGB.
    pub const SET_COLOR: &'static str = "COL";
    /// Command to quit. No arguments.
    pub const QUIT: &'static str = "EXIT";
    /// Command to indicate the user is alive. No arguments.
    pub const ALIVE: &'static str = "LIVE";
    /// Command to send a message. Argument: string (a short message).
    pub const MESSAGE: &'static str = "MSG";

    /// Command to query the closest bot. No arguments.
    pub const QUERY_CLOSEST_BOT: &'static str = "CBOT";
    /// Command to query the closest projectile. No arguments.
    pub const QUERY_CLOSEST_PROJECTILE: &'static str = "CPROJ";
    /// Command to query a bot by name. Argument: string (name of the player).
    pub const QUERY_BY_NAME: &'static str = "NBOT";
    /// Command to query the list of names. No arguments.
    pub const QUERY_NAME_LIST: &'static str = "NLIST";
    /// Command to query the orientation. No arguments.
    pub const QUERY_ORIENTATION: &'static str = "ORIENT";
    /// Command to query messages from a user. Argument: string (name of the player).
    pub const QUERY_MESSAGES_FROM_USER: &'static str = "USRMSG";

    /// Command for an empty reply. No arguments.
    pub const EMPTY_REPLY: &'static str = "EMPTY";

    /// Separator for commands.
    pub const COMMAND_SEP: &'static str = "#";
    /// Separator for arguments.
    pub const ARGUMENT_SEP: &'static str = "=";
}

} // verus!
