use vstd::prelude::*;

use super::error_node::ErrorNode;
use crate::connections::p2p_protocol::ProtocolVersionP2P;
use crate::logs::logger_sender::LoggerSender;
use crate::messages::command_name::CommandName;
use crate::messages::message::{
    deserialize_until_found, message_frame, read_exact, scan_for_command, Message,
};
use crate::serialization::deserializable_little_endian::DeserializableLittleEndian;
use crate::serialization::primitives::bytes_equal;
use crate::messages::message_header::MessageHeader;
use crate::messages::send_headers::SendHeadersMessage;
use crate::messages::verack_message::VerackMessage;
use crate::messages::version_message::VersionMessage;
use crate::serialization::serializable_internal_order::SerializableInternalOrder;

verus! {

/// What the handshake says about this node beyond its protocol version.
#[derive(Debug, Clone)]
pub struct HandshakeData {
    pub nonce: u64,
    pub user_agent: String,
    pub relay: bool,
    pub magic_number: [u8; 4],
}

/// The handshake of a fresh connection: version out, version in, verack both
/// ways, then a request to announce blocks by header.
#[derive(Clone)]
pub struct Handshake {
    pub protocol_version: ProtocolVersionP2P,
    pub services: u64,
    pub block_height: i32,
    pub data: HandshakeData,
    pub sender_log: LoggerSender,
}

impl Handshake {
    pub fn new(
        protocol_version: ProtocolVersionP2P,
        services: u64,
        block_height: i32,
        data: HandshakeData,
        sender_log: LoggerSender,
    ) -> (r: Handshake)
        ensures
            r.protocol_version == protocol_version,
            r.services == services,
            r.block_height == block_height,
            r.data.nonce == data.nonce,
            r.data.user_agent == data.user_agent,
            r.data.relay == data.relay,
            r.data.magic_number == data.magic_number,
    {
        Handshake { protocol_version, services, block_height, data, sender_log }
    }

    /// The version message this node opens with, toward the given ends.
    pub open spec fn version_message_of(
        &self,
        local: ([u8; 16], u16),
        remote: ([u8; 16], u16),
        timestamp: i64,
    ) -> VersionMessage {
        VersionMessage {
            version: self.protocol_version,
            services: self.services,
            timestamp,
            recv_services: self.services,
            recv_addr: remote.0,
            recv_port: remote.1,
            trans_addr: local.0,
            trans_port: local.1,
            nonce: self.data.nonce,
            user_agent: self.data.user_agent,
            start_height: self.block_height,
            relay: self.data.relay,
        }
    }

    /// Writes this node's version frame toward the given ends.
    pub fn send_version_message(
        &self,
        output: &mut Vec<u8>,
        local: ([u8; 16], u16),
        remote: ([u8; 16], u16),
        timestamp: i64,
    ) -> (r: Result<(), ErrorNode>)
        ensures
            (r is Ok <==> self.version_message_of(local, remote, timestamp).io_bytes().len()
                <= u32::MAX),
            (r is Ok ==> final(output)@ == old(output)@ + message_frame(
                self.data.magic_number@,
                CommandName::Version,
                self.version_message_of(local, remote, timestamp).io_bytes(),
            )),
            (r is Err ==> final(output)@ == old(output)@),
    {
        let message = VersionMessage {
            version: self.protocol_version,
            services: self.services,
            timestamp,
            recv_services: self.services,
            recv_addr: remote.0,
            recv_port: remote.1,
            trans_addr: local.0,
            trans_port: local.1,
            nonce: self.data.nonce,
            user_agent: clone_text(&self.data.user_agent),
            start_height: self.block_height,
            relay: self.data.relay,
        };
        let mut payload: Vec<u8> = Vec::new();
        let _ = message.io_serialize(&mut payload);
        if payload.len() > u32::MAX as usize {
            return Err(ErrorNode::WhileSerializing(
                "the version payload is over a frame's reach".to_string(),
            ));
        }
        let checksum = match crate::block_structure::hash::hash256d_reduce(payload.as_slice()) {
            Ok(checksum) => checksum,
            Err(_) => {
                return Err(ErrorNode::WhileSerializing("hashing the payload failed".to_string()));
            },
        };
        let header = MessageHeader {
            magic_numbers: self.data.magic_number,
            command_name: CommandName::Version,
            payload_size: payload.len() as u32,
            checksum,
        };
        let _ = header.io_serialize(output);
        crate::serialization::serializable_internal_order::write_slice(output, payload.as_slice());
        proof {
            assert(message.io_bytes() == self.version_message_of(
                local,
                remote,
                timestamp,
            ).io_bytes());
            assert(output@ =~= old(output)@ + message_frame(
                self.data.magic_number@,
                CommandName::Version,
                self.version_message_of(local, remote, timestamp).io_bytes(),
            ));
        }
        Ok(())
    }

    /// Writes this node's acknowledgement frame.
    pub fn send_verack_message(&self, output: &mut Vec<u8>) -> (r: Result<(), ErrorNode>)
        ensures
            r is Ok,
            final(output)@ == old(output)@ + message_frame(
                self.data.magic_number@,
                CommandName::Verack,
                Seq::empty(),
            ),
    {
        let result = VerackMessage::serialize_message(output, self.data.magic_number, &VerackMessage);
        proof {
            assert(VerackMessage.io_bytes() =~= Seq::<u8>::empty());
            assert(result is Ok);
        }
        Ok(())
    }

    /// Writes the request to announce new blocks by header.
    pub fn send_sendheaders_message(&self, output: &mut Vec<u8>) -> (r: Result<(), ErrorNode>)
        ensures
            r is Ok,
            final(output)@ == old(output)@ + message_frame(
                self.data.magic_number@,
                CommandName::SendHeaders,
                Seq::empty(),
            ),
    {
        let result = SendHeadersMessage::serialize_message(
            output,
            self.data.magic_number,
            &SendHeadersMessage,
        );
        proof {
            assert(SendHeadersMessage.io_bytes() =~= Seq::<u8>::empty());
            assert(result is Ok);
        }
        Ok(())
    }

    /// What a successful handshake found on the stream: the peer's version
    /// frame first (under this node's magic, wholly present, opening with a
    /// protocol number at or over this node's), then its acknowledgement frame.
    pub open spec fn handshake_accepted(&self, input: Seq<u8>) -> bool {
        match scan_for_command(input, CommandName::Version) {
            Some((version_header, rest, pongs1)) => {
                &&& version_header.magic_numbers == self.data.magic_number@
                &&& rest.len() >= version_header.payload_size
                &&& (match <i32 as DeserializableLittleEndian>::le_parse(
                    rest.take(version_header.payload_size as int),
                ) {
                    Some((number, rest2)) => number
                        >= crate::connections::p2p_protocol::protocol_version_value(
                        self.protocol_version,
                    ),
                    None => false,
                })
                &&& scan_for_command(
                    rest.skip(version_header.payload_size as int),
                    CommandName::Verack,
                ) is Some
            },
            None => false,
        }
    }

    /// The dialing side's whole handshake: this node's version frame out,
    /// the peer's version in — its magic checked against this node's and
    /// its protocol number against this node's floor — then the
    /// acknowledgement and the header-announcement request out, and the
    /// peer's acknowledgement in.
    pub fn connect_to_peer(
        &self,
        input: &mut &[u8],
        output: &mut Vec<u8>,
        local: ([u8; 16], u16),
        remote: ([u8; 16], u16),
        timestamp: i64,
    ) -> (r: Result<(), ErrorNode>)
        ensures
            (r is Ok ==> self.handshake_accepted(old(input)@) && (match scan_for_command(
                old(input)@,
                CommandName::Version,
            ) {
                Some((version_header, rest, pongs1)) => {
                    let after_version = rest.skip(version_header.payload_size as int);
                    match scan_for_command(after_version, CommandName::Verack) {
                        Some((verack_header, tail, pongs2)) => {
                            &&& final(input)@ == tail
                            &&& final(output)@ == old(output)@ + message_frame(
                                self.data.magic_number@,
                                CommandName::Version,
                                self.version_message_of(local, remote, timestamp).io_bytes(),
                            ) + pongs1 + message_frame(
                                self.data.magic_number@,
                                CommandName::Verack,
                                Seq::empty(),
                            ) + message_frame(
                                self.data.magic_number@,
                                CommandName::SendHeaders,
                                Seq::empty(),
                            ) + pongs2
                        },
                        None => false,
                    }
                },
                None => false,
            })),
            (self.version_message_of(local, remote, timestamp).io_bytes().len() <= u32::MAX ==> (
            r is Ok <==> self.handshake_accepted(old(input)@))),
    {
        let ghost entry = input@;
        if self.send_version_message(output, local, remote, timestamp).is_err() {
            return Err(ErrorNode::WhileSendingMessage("no version frame left".to_string()));
        }
        let ghost after_send = output@;
        let header = match deserialize_until_found(input, output, CommandName::Version) {
            Ok(header) => header,
            Err(_) => {
                return Err(ErrorNode::NodeNotResponding("no version arrived".to_string()));
            },
        };
        if !bytes_equal(header.magic_numbers.as_slice(), self.data.magic_number.as_slice()) {
            return Err(ErrorNode::HandshakeRejected(
                "the peer speaks under another network's magic".to_string(),
            ));
        }
        let ghost after_scan1 = input@;
        let payload = match read_exact(input, header.payload_size as usize) {
            Ok(payload) => payload,
            Err(_) => {
                return Err(ErrorNode::NodeNotResponding("the version broke off".to_string()));
            },
        };
        let peer_version = match VersionMessage::peek_protocol_version(payload.as_slice()) {
            Ok(peer_version) => peer_version,
            Err(_) => {
                return Err(ErrorNode::WhileDeserializing("the version is empty".to_string()));
            },
        };
        if peer_version < self.protocol_version.to_i32() {
            return Err(ErrorNode::HandshakeRejected(
                "the peer's protocol version is under the floor".to_string(),
            ));
        }
        let _ = self.send_verack_message(output);
        let _ = self.send_sendheaders_message(output);
        match deserialize_until_found(input, output, CommandName::Verack) {
            Ok(_) => Ok(()),
            Err(_) => Err(ErrorNode::NodeNotResponding("no verack arrived".to_string())),
        }
    }

    /// The accepting side's handshake, the dialing side's mirrored: the
    /// peer's version comes first and is checked the same way, then this
    /// node answers with its own version, the acknowledgement and the
    /// header-announcement request, and waits for the peer's
    /// acknowledgement.
    pub fn connect_to_client(
        &self,
        input: &mut &[u8],
        output: &mut Vec<u8>,
        local: ([u8; 16], u16),
        remote: ([u8; 16], u16),
        timestamp: i64,
    ) -> (r: Result<(), ErrorNode>)
        ensures
            (r is Ok ==> self.handshake_accepted(old(input)@) && (match scan_for_command(
                old(input)@,
                CommandName::Version,
            ) {
                Some((version_header, rest, pongs1)) => {
                    let after_version = rest.skip(version_header.payload_size as int);
                    match scan_for_command(after_version, CommandName::Verack) {
                        Some((verack_header, tail, pongs2)) => {
                            &&& final(input)@ == tail
                            &&& final(output)@ == old(output)@ + pongs1 + message_frame(
                                self.data.magic_number@,
                                CommandName::Version,
                                self.version_message_of(local, remote, timestamp).io_bytes(),
                            ) + message_frame(
                                self.data.magic_number@,
                                CommandName::Verack,
                                Seq::empty(),
                            ) + message_frame(
                                self.data.magic_number@,
                                CommandName::SendHeaders,
                                Seq::empty(),
                            ) + pongs2
                        },
                        None => false,
                    }
                },
                None => false,
            })),
            (self.version_message_of(local, remote, timestamp).io_bytes().len() <= u32::MAX ==> (
            r is Ok <==> self.handshake_accepted(old(input)@))),
    {
        let header = match deserialize_until_found(input, output, CommandName::Version) {
            Ok(header) => header,
            Err(_) => {
                return Err(ErrorNode::NodeNotResponding("no version arrived".to_string()));
            },
        };
        if !bytes_equal(header.magic_numbers.as_slice(), self.data.magic_number.as_slice()) {
            return Err(ErrorNode::HandshakeRejected(
                "the peer speaks under another network's magic".to_string(),
            ));
        }
        let payload = match read_exact(input, header.payload_size as usize) {
            Ok(payload) => payload,
            Err(_) => {
                return Err(ErrorNode::NodeNotResponding("the version broke off".to_string()));
            },
        };
        let peer_version = match VersionMessage::peek_protocol_version(payload.as_slice()) {
            Ok(peer_version) => peer_version,
            Err(_) => {
                return Err(ErrorNode::WhileDeserializing("the version is empty".to_string()));
            },
        };
        if peer_version < self.protocol_version.to_i32() {
            return Err(ErrorNode::HandshakeRejected(
                "the peer's protocol version is under the floor".to_string(),
            ));
        }
        if self.send_version_message(output, local, remote, timestamp).is_err() {
            return Err(ErrorNode::WhileSendingMessage("no version frame left".to_string()));
        }
        let _ = self.send_verack_message(output);
        let _ = self.send_sendheaders_message(output);
        match deserialize_until_found(input, output, CommandName::Verack) {
            Ok(_) => Ok(()),
            Err(_) => Err(ErrorNode::NodeNotResponding("no verack arrived".to_string())),
        }
    }
}

/// A copy of a text with the same characters.
fn clone_text(text: &String) -> (r: String)
    ensures
        r@ == text@,
{
    let r = text.clone();
    r
}

} // verus!
