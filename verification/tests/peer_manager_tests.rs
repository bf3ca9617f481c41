use cargosos_bitcoin::serialization::deserializable_internal_order::DeserializableInternalOrder;
use cargosos_bitcoin::block_structure::block::Block;
use cargosos_bitcoin::block_structure::block_header::BlockHeader;
use cargosos_bitcoin::messages::block_message::BlockMessage;
use cargosos_bitcoin::messages::command_name::CommandName;
use cargosos_bitcoin::messages::message::Message;
use cargosos_bitcoin::messages::message_header::MessageHeader;
use cargosos_bitcoin::messages::ping_message::PingMessage;
use cargosos_bitcoin::messages::pong_message::PongMessage;
use cargosos_bitcoin::messages::verack_message::VerackMessage;
use cargosos_bitcoin::node_structure::connection_id::{ConnectionId, ConnectionType};
use cargosos_bitcoin::node_structure::initial_block_download::testnet_magic_numbers;
use cargosos_bitcoin::node_structure::message_response::MessageResponse;
use cargosos_bitcoin::node_structure::peer_manager::handle_next_message;

fn connection() -> ConnectionId {
    ConnectionId::new([0; 16], 18333, ConnectionType::Peer)
}

#[test]
fn ping_is_answered_with_matching_pong() {
    let mut canned: Vec<u8> = Vec::new();
    PingMessage::serialize_message(&mut canned, testnet_magic_numbers(), &PingMessage {
        nonce: 4242,
    })
    .unwrap();

    let mut input: &[u8] = &canned;
    let mut output: Vec<u8> = Vec::new();
    let decision = handle_next_message(&mut input, &mut output, connection()).unwrap();
    assert!(decision.is_none());
    assert!(input.is_empty());

    let mut sent: &[u8] = &output;
    let header = MessageHeader::io_deserialize(&mut sent).unwrap();
    assert_eq!(header.command_name, CommandName::Pong);
    let pong = PongMessage::deserialize_message(&mut sent, header).unwrap();
    assert_eq!(pong.nonce, 4242);
}

#[test]
fn unknown_command_is_drained_silently() {
    let mut canned: Vec<u8> = Vec::new();
    VerackMessage::serialize_message(&mut canned, testnet_magic_numbers(), &VerackMessage)
        .unwrap();

    let mut input: &[u8] = &canned;
    let mut output: Vec<u8> = Vec::new();
    let decision = handle_next_message(&mut input, &mut output, connection()).unwrap();
    assert!(decision.is_none());
    assert!(input.is_empty());
    assert!(output.is_empty());
}

#[test]
fn block_is_forwarded_with_its_connection() {
    let block = Block::new(BlockHeader::generate_genesis_block_header());
    let mut canned: Vec<u8> = Vec::new();
    BlockMessage::serialize_message(&mut canned, testnet_magic_numbers(), &BlockMessage {
        block: block.clone(),
    })
    .unwrap();

    let mut input: &[u8] = &canned;
    let mut output: Vec<u8> = Vec::new();
    let decision = handle_next_message(&mut input, &mut output, connection()).unwrap();
    match decision {
        Some(MessageResponse::Block(received, from)) => {
            assert_eq!(received.header, block.header);
            assert_eq!(from.port, 18333);
        },
        other => panic!("expected a forwarded block, got {:?}", other),
    }
    assert!(input.is_empty());
    assert!(output.is_empty());
}

#[test]
fn truncated_frame_is_an_error() {
    let mut canned: Vec<u8> = Vec::new();
    PingMessage::serialize_message(&mut canned, testnet_magic_numbers(), &PingMessage {
        nonce: 7,
    })
    .unwrap();
    canned.truncate(canned.len() - 1);

    let mut input: &[u8] = &canned;
    let mut output: Vec<u8> = Vec::new();
    assert!(handle_next_message(&mut input, &mut output, connection()).is_err());
}
