use vstd::prelude::*;

use vstd::utf8::{decode_utf8, encode_utf8, valid_utf8};

use super::command_name::CommandName;
use super::compact_size::CompactSize;
use super::message::Message;
use crate::connections::p2p_protocol::ProtocolVersionP2P;
use crate::serialization::deserializable_big_endian::DeserializableBigEndian;
use crate::serialization::deserializable_internal_order::{
    read_array, DeserializableInternalOrder,
};
use crate::serialization::deserializable_little_endian::DeserializableLittleEndian;
use crate::serialization::encoding::{i32_as_unsigned, i64_as_unsigned, le_bytes_of};
use crate::serialization::error_serialization::ErrorSerialization;
use crate::serialization::primitives::read_bytes;
use crate::serialization::serializable_big_endian::SerializableBigEndian;
use crate::serialization::serializable_internal_order::{write_slice, SerializableInternalOrder};
use crate::serialization::serializable_little_endian::SerializableLittleEndian;

verus! {

/// The opening message of a handshake: who speaks, what it serves, where
/// both ends live, and how tall its chain is. Addresses travel as 16
/// network-order bytes with a big-endian port.
#[derive(Debug, Clone)]
pub struct VersionMessage {
    pub version: ProtocolVersionP2P,
    pub services: u64,
    pub timestamp: i64,
    pub recv_services: u64,
    pub recv_addr: [u8; 16],
    pub recv_port: u16,
    pub trans_addr: [u8; 16],
    pub trans_port: u16,
    pub nonce: u64,
    pub user_agent: String,
    pub start_height: i32,
    pub relay: bool,
}

/// The mathematical shape of a version message.
#[verifier::ext_equal]
pub ghost struct VersionMessageView {
    pub version: ProtocolVersionP2P,
    pub services: u64,
    pub timestamp: i64,
    pub recv_services: u64,
    pub recv_addr: Seq<u8>,
    pub recv_port: u16,
    pub trans_addr: Seq<u8>,
    pub trans_port: u16,
    pub nonce: u64,
    pub user_agent: Seq<char>,
    pub start_height: i32,
    pub relay: bool,
}

impl DeepView for VersionMessage {
    type V = VersionMessageView;

    open spec fn deep_view(&self) -> VersionMessageView {
        VersionMessageView {
            version: self.version,
            services: self.services,
            timestamp: self.timestamp,
            recv_services: self.recv_services,
            recv_addr: self.recv_addr@,
            recv_port: self.recv_port,
            trans_addr: self.trans_addr@,
            trans_port: self.trans_port,
            nonce: self.nonce,
            user_agent: self.user_agent@,
            start_height: self.start_height,
            relay: self.relay,
        }
    }
}

impl SerializableInternalOrder for VersionMessage {
    open spec fn io_bytes(&self) -> Seq<u8> {
        self.version.le_bytes() + le_bytes_of(self.services as nat, 8) + le_bytes_of(
            i64_as_unsigned(self.timestamp),
            8,
        ) + le_bytes_of(self.recv_services as nat, 8) + self.recv_addr@
            + self.recv_port.be_bytes() + le_bytes_of(self.services as nat, 8) + self.trans_addr@
            + self.trans_port.be_bytes() + le_bytes_of(self.nonce as nat, 8) + (CompactSize {
            value: encode_utf8(self.user_agent@).len() as u64,
        }).le_bytes() + encode_utf8(self.user_agent@) + le_bytes_of(
            i32_as_unsigned(self.start_height),
            4,
        ) + self.relay.le_bytes()
    }

    open spec fn io_wf(&self) -> bool {
        true
    }

    fn io_serialize(&self, stream: &mut Vec<u8>) -> (r: Result<(), ErrorSerialization>) {
        self.version.le_serialize(stream)?;
        self.services.le_serialize(stream)?;
        self.timestamp.le_serialize(stream)?;
        self.recv_services.le_serialize(stream)?;
        let _ = self.recv_addr.be_serialize(stream);
        let _ = self.recv_port.be_serialize(stream);
        self.services.le_serialize(stream)?;
        let _ = self.trans_addr.be_serialize(stream);
        let _ = self.trans_port.be_serialize(stream);
        self.nonce.le_serialize(stream)?;
        let agent_bytes = self.user_agent.as_str().as_bytes();
        CompactSize::new(agent_bytes.len() as u64).le_serialize(stream)?;
        write_slice(stream, agent_bytes);
        self.start_height.le_serialize(stream)?;
        self.relay.le_serialize(stream)?;
        proof {
            assert(stream@ =~= old(stream)@ + self.io_bytes());
        }
        Ok(())
    }
}

impl VersionMessage {
    /// Reads the protocol version number a version payload opens with; the
    /// handshake needs nothing more from a peer's version message.
    pub fn peek_protocol_version(payload: &[u8]) -> (r: Result<i32, ErrorSerialization>)
        ensures
            (r matches Ok(v) ==> <i32 as DeserializableLittleEndian>::le_parse(payload@)
                matches Some((value, _)) && value == v),
            (r is Err ==> <i32 as DeserializableLittleEndian>::le_parse(payload@) is None),
    {
        let mut cursor: &[u8] = payload;
        i32::le_deserialize(&mut cursor)
    }
}

} // verus!
