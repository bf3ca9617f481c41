use vstd::prelude::*;

verus! {

/// A server end: where to listen for clients.
#[derive(Debug, Clone)]
pub struct ServerConfig {
    pub ip: [u8; 16],
    pub port: u16,
}

/// A client end: where the server to follow lives.
#[derive(Debug, Clone)]
pub struct ClientConfig {
    pub ip: [u8; 16],
    pub port: u16,
}

/// Whether this process serves or follows.
#[derive(Debug, Clone)]
pub enum ModeConfig {
    Server(ServerConfig),
    Client(ClientConfig),
}

} // verus!
