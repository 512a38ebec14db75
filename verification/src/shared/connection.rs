//! Connection-related types shared by client and server.
use vstd::prelude::*;

verus! {

/// State of the connection to the server.
#[derive(Debug, Clone, Copy, PartialEq, Eq, Structural)]
pub enum ConnectionState {
    Disconnected,
    Connecting,
    Connected,
    Failed,
}

/// Basic client identification information.
#[derive(Debug)]
pub struct ClientIdentity {
    pub client_id: u64,
    pub display_name: Option<String>,
    pub is_admin: bool,
}

/// Connection parameters for the SpacetimeDB server.
#[derive(Debug)]
pub struct ConnectionParams {
    /// Host address (e.g. "https://example.com").
    pub host: String,
    /// Database name.
    pub database_name: String,
    /// Optional authentication token.
    pub auth_token: Option<String>,
}

/// Connection information.
#[derive(Debug)]
pub struct ClientConnection {
    pub state: ConnectionState,
    pub client_id: u64,
    pub params: ConnectionParams,
    pub connected_at: u64,
}

/// The reason for a disconnection.
#[derive(Debug)]
pub enum DisconnectReason {
    ClientRequest,
    ServerShutdown,
    Timeout,
    AuthFailure,
    NetworkError(String),
    Kicked(String),
    Unknown,
}

} // verus!
