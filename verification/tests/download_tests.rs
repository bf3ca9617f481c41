use cargosos_bitcoin::serialization::deserializable_internal_order::DeserializableInternalOrder;
use cargosos_bitcoin::block_structure::block::Block;
use cargosos_bitcoin::block_structure::block_chain::BlockChain;
use cargosos_bitcoin::block_structure::block_header::BlockHeader;
use cargosos_bitcoin::block_structure::block_version::BlockVersion;
use cargosos_bitcoin::block_structure::compact256::Compact256;
use cargosos_bitcoin::connections::p2p_protocol::ProtocolVersionP2P;
use cargosos_bitcoin::logs::logger_sender::LoggerSender;
use cargosos_bitcoin::messages::block_message::BlockMessage;
use cargosos_bitcoin::messages::compact_size::CompactSize;
use cargosos_bitcoin::messages::headers_message::HeadersMessage;
use cargosos_bitcoin::messages::message::Message;
use cargosos_bitcoin::messages::ping_message::PingMessage;
use cargosos_bitcoin::messages::pong_message::PongMessage;
use cargosos_bitcoin::node_structure::error_node::ErrorNode;
use cargosos_bitcoin::node_structure::initial_block_download::{
    testnet_magic_numbers, InitialBlockDownload,
};

fn logger() -> LoggerSender {
    let (sender, receiver) = std::sync::mpsc::channel();
    std::mem::forget(receiver);
    LoggerSender::new(sender)
}

fn genesis() -> Block {
    Block::new(BlockHeader::generate_genesis_block_header())
}

#[test]
fn headers_download_grows_the_chain_by_one() {
    let first = genesis();
    let genesis_hash = first.header.get_hash256d().unwrap();
    let mut chain = BlockChain::new(first).unwrap();

    // an always-satisfied target: the exponent lifts it past any 256-bit hash
    let easy_target = Compact256::from(0x23000001);
    let next_header = BlockHeader::new(
        BlockVersion::version(1),
        genesis_hash,
        [0; 32],
        77,
        easy_target,
        3,
        CompactSize::new(0),
    );

    // The canned peer answers with a ping first, then the headers batch.
    let mut canned: Vec<u8> = Vec::new();
    PingMessage::serialize_message(&mut canned, testnet_magic_numbers(), &PingMessage {
        nonce: 99,
    })
    .unwrap();
    HeadersMessage::serialize_message(&mut canned, testnet_magic_numbers(), &HeadersMessage {
        headers: vec![next_header],
    })
    .unwrap();

    let download = InitialBlockDownload::new(ProtocolVersionP2P::V70015, logger());
    let mut input: &[u8] = &canned;
    let mut output: Vec<u8> = Vec::new();
    let appended = download.get_headers(&mut input, &mut output, &mut chain).unwrap();

    assert_eq!(appended, 1);
    assert_eq!(chain.blocks.len(), 2);
    assert_eq!(chain.blocks[1].block.header, BlockHeader::new(
        BlockVersion::version(1),
        genesis_hash,
        [0; 32],
        77,
        Compact256::from(0x23000001),
        3,
        CompactSize::new(0),
    ));

    // The ping was answered with a pong carrying the same nonce, after the
    // headers request itself.
    let mut sent: &[u8] = &output;
    let request_header =
        cargosos_bitcoin::messages::message_header::MessageHeader::io_deserialize(&mut sent)
            .unwrap();
    assert_eq!(
        request_header.command_name,
        cargosos_bitcoin::messages::command_name::CommandName::GetHeaders
    );
    let _skipped: Vec<u8> = sent[..request_header.payload_size as usize].to_vec();
    let mut sent: &[u8] = &sent[request_header.payload_size as usize..];
    let pong_header =
        cargosos_bitcoin::messages::message_header::MessageHeader::io_deserialize(&mut sent)
            .unwrap();
    assert_eq!(
        pong_header.command_name,
        cargosos_bitcoin::messages::command_name::CommandName::Pong
    );
    let pong = PongMessage::deserialize_message(&mut sent, pong_header).unwrap();
    assert_eq!(pong.nonce, 99);
}

#[test]
fn block_download_returns_the_asked_blocks() {
    let block = genesis();
    let hash = block.header.get_hash256d().unwrap();

    let mut canned: Vec<u8> = Vec::new();
    BlockMessage::serialize_message(&mut canned, testnet_magic_numbers(), &BlockMessage {
        block: block.clone(),
    })
    .unwrap();

    let download = InitialBlockDownload::new(ProtocolVersionP2P::V70015, logger());
    let mut input: &[u8] = &canned;
    let mut output: Vec<u8> = Vec::new();
    let blocks = download.get_data(&mut input, &mut output, vec![hash]).unwrap();

    assert_eq!(blocks.len(), 1);
    assert_eq!(blocks[0], block);
}

#[test]
fn oversized_block_request_is_refused() {

    let download = InitialBlockDownload::new(ProtocolVersionP2P::V70015, logger());
    let mut input: &[u8] = &[];
    let mut output: Vec<u8> = Vec::new();
    let hashes = vec![[0u8; 32]; 50000];
    let result = download.get_data(&mut input, &mut output, hashes);
    assert_eq!(result, Err(ErrorNode::RequestedDataTooBig));
}
