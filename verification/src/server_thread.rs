//! Server configuration and the listener's identity. The sockets, the
//! accept loop, and the per-connection threads live with the embedder;
//! this module holds the state both sides share.

use crate::app_defines::AppDefines;
use vstd::prelude::*;

verus! {

/// A struct representing server settings.
///
/// Distances are in arena units; the obstacle probability is in
/// thousandths; durations keep the units of their `AppDefines` defaults.
#[derive(Debug)]
pub struct ServerSettings {
    /// The width of the arena.
    pub arena_width: i64,
    /// The height of the arena.
    pub arena_height: i64,
    /// The probability of obstacles appearing in the arena, in thousandths.
    pub obstacle_probability: u32,
    /// The available game modes.
    pub game_modes: Vec<&'static str>,
    /// The rate of fire for bots.
    pub bot_rate_of_fire: i32,
    /// The penalty time for infractions.
    pub penalty_time: i64,
    /// The delay before a connection times out.
    pub connection_timeout_delay: i32,
    /// The duration messages are displayed.
    pub message_duration: i32,
    /// The maximum length of a message.
    pub message_length: i32,
    /// The score limit for the game.
    pub score_limit: i32,
}

impl ServerSettings {
    /// Creates a new instance of `ServerSettings` with default values from
    /// `AppDefines`.
    pub fn new() -> (r: ServerSettings)
        ensures
            r.arena_width == AppDefines::ARENA_WIDTH,
            r.arena_height == AppDefines::ARENA_HEIGHT,
            r.obstacle_probability == AppDefines::OBSTACLE_PROBABILITY,
            r.game_modes@.len() == 1,
            r.game_modes@[0]@ == "FreeForAll"@,
            r.bot_rate_of_fire == AppDefines::BOT_RATE_OF_FIRE,
            r.penalty_time == AppDefines::PENALTY_TIME,
            r.connection_timeout_delay == AppDefines::CONNECTION_TIMEOUT_DELAY,
            r.message_duration == AppDefines::MESSAGE_DURATION,
            r.message_length == AppDefines::MESSAGE_LENGTH,
            r.score_limit == AppDefines::SCORE_LIMIT,
    {
        let mut game_modes: Vec<&'static str> = Vec::new();
        game_modes.push("FreeForAll");
        ServerSettings {
            arena_width: AppDefines::ARENA_WIDTH,
            arena_height: AppDefines::ARENA_HEIGHT,
            obstacle_probability: AppDefines::OBSTACLE_PROBABILITY,
            game_modes,
            bot_rate_of_fire: AppDefines::BOT_RATE_OF_FIRE,
            penalty_time: AppDefines::PENALTY_TIME,
            connection_timeout_delay: AppDefines::CONNECTION_TIMEOUT_DELAY,
            message_duration: AppDefines::MESSAGE_DURATION,
            message_length: AppDefines::MESSAGE_LENGTH,
            score_limit: AppDefines::SCORE_LIMIT,
        }
    }
}

/// A struct representing a server thread: the address and port it listens
/// on. Binding, accepting, and spawning connection handlers belong to the
/// embedder.
pub struct ServerThread {
    /// The address on which the server listens.
    pub address: String,
    /// The port on which the server listens.
    pub port: u16,
}

impl ServerThread {
    /// Creates a new server thread identity with the specified address and
    /// port.
    pub fn new(address: String, port: u16) -> (r: ServerThread)
        ensures
            r.address@ == address@,
            r.port == port,
    {
        ServerThread { address, port }
    }
}

} // verus!
