use bitcoin_hashes::sha256d;
use cargosos_bitcoin::connections::p2p_protocol::ProtocolVersionP2P;
use cargosos_bitcoin::messages::command_name::CommandName;
use cargosos_bitcoin::messages::compact_size::CompactSize;
use cargosos_bitcoin::messages::get_headers_message::GetHeadersMessage;
use cargosos_bitcoin::messages::message::Message;
use cargosos_bitcoin::serialization::error_serialization::ErrorSerialization;
use cargosos_bitcoin::serialization::serializable_internal_order::SerializableInternalOrder;
use cargosos_bitcoin::serialization::serializable_little_endian::SerializableLittleEndian;

#[test]
fn get_headers_message_test01_serialize() -> Result<(), ErrorSerialization> {
    let magic_bytes: [u8; 4] = [0x55, 0x66, 0xee, 0xee];
    let version = ProtocolVersionP2P::V70015;
    let header_locator_hash: Vec<[u8; 32]> = vec![[1; 32], [2; 32], [0; 32]];
    let length = CompactSize::new(header_locator_hash.len() as u64);
    let stop_hash: [u8; 32] = [1; 32];

    let mut expected_stream: Vec<u8> = Vec::new();
    magic_bytes.io_serialize(&mut expected_stream)?;
    CommandName::GetHeaders.io_serialize(&mut expected_stream)?;

    let mut payload: Vec<u8> = Vec::new();
    version.le_serialize(&mut payload)?;
    length.le_serialize(&mut payload)?;
    for header_hash in header_locator_hash.iter() {
        header_hash.io_serialize(&mut payload)?;
    }
    stop_hash.io_serialize(&mut payload)?;

    (payload.len() as u32).le_serialize(&mut expected_stream)?;
    let hash_bytes = sha256d::Hash::hash(&payload).to_byte_array();
    let checksum: [u8; 4] = [hash_bytes[0], hash_bytes[1], hash_bytes[2], hash_bytes[3]];
    checksum.io_serialize(&mut expected_stream)?;
    payload.io_serialize(&mut expected_stream)?;

    let get_headers_message =
        GetHeadersMessage::new(magic_bytes, version, header_locator_hash, stop_hash);

    let mut stream: Vec<u8> = Vec::new();
    GetHeadersMessage::serialize_message(&mut stream, magic_bytes, &get_headers_message)?;

    assert_eq!(expected_stream, stream);

    Ok(())
}
