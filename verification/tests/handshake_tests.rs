use cargosos_bitcoin::connections::p2p_protocol::ProtocolVersionP2P;
use cargosos_bitcoin::logs::logger_sender::LoggerSender;
use cargosos_bitcoin::messages::command_name::CommandName;
use cargosos_bitcoin::messages::message::Message;
use cargosos_bitcoin::messages::message_header::MessageHeader;
use cargosos_bitcoin::messages::verack_message::VerackMessage;
use cargosos_bitcoin::node_structure::handshake::{Handshake, HandshakeData};
use cargosos_bitcoin::serialization::deserializable_internal_order::DeserializableInternalOrder;
use cargosos_bitcoin::block_structure::hash::hash256d_reduce;
use cargosos_bitcoin::serialization::serializable_internal_order::SerializableInternalOrder;
use cargosos_bitcoin::serialization::serializable_little_endian::SerializableLittleEndian;

fn logger() -> LoggerSender {
    let (sender, receiver) = std::sync::mpsc::channel();
    std::mem::forget(receiver);
    LoggerSender::new(sender)
}

fn handshake_under_test() -> Handshake {
    Handshake::new(
        ProtocolVersionP2P::V70016,
        1,
        0,
        HandshakeData {
            nonce: 0,
            user_agent: "".to_string(),
            relay: false,
            magic_number: [0x0b, 0x11, 0x09, 0x07],
        },
        logger(),
    )
}

fn read_frame(cursor: &mut &[u8]) -> MessageHeader {
    let header = MessageHeader::io_deserialize(cursor).unwrap();
    *cursor = &cursor[header.payload_size as usize..];
    header
}

#[test]
fn handshake_completes_against_a_canned_peer() {
    // The canned peer opens with its own version and acknowledges.
    let peer = handshake_under_test();
    let mut canned: Vec<u8> = Vec::new();
    peer.send_version_message(&mut canned, ([2; 16], 8333), ([1; 16], 8333), 0)
        .unwrap();
    VerackMessage::serialize_message(&mut canned, [0x0b, 0x11, 0x09, 0x07], &VerackMessage)
        .unwrap();

    let node = handshake_under_test();
    let mut input: &[u8] = &canned;
    let mut output: Vec<u8> = Vec::new();
    node.connect_to_peer(&mut input, &mut output, ([1; 16], 8333), ([2; 16], 8333), 0)
        .unwrap();

    // The node spoke version, verack, then the header-announcement request.
    let mut sent: &[u8] = &output;
    let first = read_frame(&mut sent);
    assert_eq!(first.command_name, CommandName::Version);
    let second = read_frame(&mut sent);
    assert_eq!(second.command_name, CommandName::Verack);
    let third = read_frame(&mut sent);
    assert_eq!(third.command_name, CommandName::SendHeaders);
    assert!(sent.is_empty());
}

#[test]
fn handshake_rejects_a_version_under_the_floor() {

    // A version payload opening with a number under this node's own.
    let mut payload: Vec<u8> = Vec::new();
    let bad_version: i32 = 4242;
    bad_version.le_serialize(&mut payload).unwrap();
    let checksum = hash256d_reduce(&payload).unwrap();
    let header = MessageHeader {
        magic_numbers: [0x0b, 0x11, 0x09, 0x07],
        command_name: CommandName::Version,
        payload_size: payload.len() as u32,
        checksum,
    };
    let mut canned: Vec<u8> = Vec::new();
    header.io_serialize(&mut canned).unwrap();
    canned.extend_from_slice(&payload);

    let node = handshake_under_test();
    let mut input: &[u8] = &canned;
    let mut output: Vec<u8> = Vec::new();
    let result = node.connect_to_peer(&mut input, &mut output, ([1; 16], 8333), ([2; 16], 8333), 0);
    assert!(result.is_err());
}
