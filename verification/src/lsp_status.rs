//! How the language servers are doing.
use vstd::prelude::*;

verus! {

/// What a language server is doing.
#[derive(Debug, Clone, Copy, PartialEq, Eq, Structural)]
pub enum ServerState {
    Stopped,
    Downloading,
    Starting,
    Initializing,
    Running,
    Restarting,
    Error,
}

/// A language server.
#[derive(Debug)]
pub struct ServerStatus {
    pub name: String,
    pub state: ServerState,
}

/// The language servers, and how many problems they have found.
#[derive(Debug)]
pub struct LspStatus {
    pub statuses: Vec<ServerStatus>,
    pub error_count: usize,
    pub warning_count: usize,
}

impl LspStatus {
    /// No servers.
    pub fn new() -> (s: LspStatus)
        ensures
            s.statuses@.len() == 0,
            s.error_count == 0,
            s.warning_count == 0,
    {
        LspStatus { statuses: Vec::new(), error_count: 0, warning_count: 0 }
    }
}

} // verus!
