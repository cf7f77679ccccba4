use vstd::prelude::*;

verus! {

/// Where the game server can be reached, if one runs.
#[derive(Debug)]
pub enum GetAddressResponse {
    NoServer,
    Ready {
        host: String,
        host_port: u16,
        container_port: u16,
        host_stats_port: u16,
        container_stats_port: u16,
    },
}

/// The answer to a request to create the game server.
#[derive(Debug, Clone, Copy, PartialEq, Eq, Structural)]
pub enum CreateResponse {
    AlreadyExists,
    Created,
}

/// The answer to a request to delete the game server.
#[derive(Debug, Clone, Copy, PartialEq, Eq, Structural)]
pub enum DeleteResponse {
    NotFound,
    Deleting,
}

/// The state of the game server as seen by a heartbeat.
#[derive(Debug, Clone, Copy, PartialEq, Eq, Structural)]
pub enum HeartbeatResponse {
    NotFound,
    Live,
    GracePeriod,
    Deleted,
}

/// The port of the game server's statistics endpoint.
pub const STATS_SERVER_PORT: u16 = 9990;

/// The statistics a game server reports.
#[derive(Debug, Clone, Copy, PartialEq, Eq, Structural)]
pub struct StatsServerResponse {
    pub num_connected_players: u16,
    pub num_active_games: u16,
    pub connectionless_time_secs: u32,
}

/// The game server management commands.
#[derive(Debug, Clone, Copy, PartialEq, Eq, Structural)]
pub enum ManagementCommand {
    Get,
    Create,
    Delete,
}

/// The arguments of the management command line.
#[derive(Debug, Clone, Copy, PartialEq, Eq, Structural)]
pub struct ManagerArgs {
    pub cmd: ManagementCommand,
}

} // verus!
