use vstd::prelude::*;

verus! {

/// Whether the far end dialed us or we dialed it.
#[derive(Debug, Clone, Copy, PartialEq, Eq, Structural)]
pub enum ConnectionType {
    Peer,
    Client,
}

/// Which connection a message came through: the far end's address as 16
/// network-order bytes, its port, and who dialed whom.
#[derive(Debug, Clone, Copy)]
pub struct ConnectionId {
    pub ip: [u8; 16],
    pub port: u16,
    pub connection_type: ConnectionType,
}

impl ConnectionId {
    pub fn new(ip: [u8; 16], port: u16, connection_type: ConnectionType) -> (r: ConnectionId)
        ensures
            r.ip == ip,
            r.port == port,
            r.connection_type == connection_type,
    {
        ConnectionId { ip, port, connection_type }
    }
}

} // verus!
