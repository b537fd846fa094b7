use vstd::prelude::*;

verus! {

/// What a running connect/acquire sequence reports back to its caller.
#[derive(Debug)]
pub enum ConnectProgress {
    /// A new stage of the sequence began.
    Stage(String),
    /// A diagnostic line.
    Log(String),
    /// The game client was launched from this executable.
    GameLaunched { exe_path: String },
    /// Bytes moved on a labelled download.
    Download { label: String, done_bytes: u64, total_bytes: Option<u64> },
}

/// How a whole connect attempt ended.
#[derive(Debug)]
pub struct ConnectResult {
    pub launched: bool,
    pub message: String,
}

/// One server as the hub lists it.
#[derive(Debug)]
pub struct ServerEntry {
    pub address: String,
    pub name: String,
    pub players: u32,
    pub max_players: u32,
    pub tags: Vec<String>,
    pub region: Option<String>,
    pub ping_ms: Option<u32>,
    pub online: bool,
    pub description: Option<String>,
}

/// Why a server denied an authentication attempt.
#[derive(Debug, Clone, Copy, PartialEq, Eq, Structural)]
pub enum AuthenticateDenyResponseCode {
    /// The server gave no specific code.
    NoCode,
    InvalidCredentials,
    AccountUnconfirmed,
    TfaRequired,
    TfaInvalid,
    AccountLocked,
    UnknownError,
}

/// The body of a denied authentication response.
#[derive(Debug)]
pub struct AuthenticateDenyResponse {
    pub errors: Vec<String>,
    pub code: AuthenticateDenyResponseCode,
}

} // verus!
