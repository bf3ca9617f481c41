use cargosos_bitcoin::messages::command_name::CommandName;
use cargosos_bitcoin::messages::message::Message;
use cargosos_bitcoin::messages::message_header::MessageHeader;
use cargosos_bitcoin::messages::verack_message::VerackMessage;
use cargosos_bitcoin::serialization::error_serialization::ErrorSerialization;
use cargosos_bitcoin::serialization::serializable_internal_order::SerializableInternalOrder;
use cargosos_bitcoin::serialization::serializable_little_endian::SerializableLittleEndian;

#[test]
fn verack_message_test01_serialize() -> Result<(), ErrorSerialization> {
    let magic_bytes: [u8; 4] = [0x55, 0x66, 0xee, 0xee];
    let checksum_empty_payload: [u8; 4] = [0x5d, 0xf6, 0xe0, 0xe2];

    let verack_message = VerackMessage;
    let mut stream: Vec<u8> = Vec::new();

    VerackMessage::serialize_message(&mut stream, magic_bytes, &verack_message)?;

    let mut expected_stream: Vec<u8> = Vec::new();
    magic_bytes.io_serialize(&mut expected_stream)?;
    CommandName::Verack.io_serialize(&mut expected_stream)?;
    vec![0, 0, 0, 0].le_serialize(&mut expected_stream)?;
    checksum_empty_payload.io_serialize(&mut expected_stream)?;

    assert_eq!(expected_stream, stream);

    Ok(())
}

#[test]
fn test02_deserialize() -> Result<(), ErrorSerialization> {
    let magic_bytes: [u8; 4] = [0x55, 0x66, 0xee, 0xee];
    let checksum_empty_payload: [u8; 4] = [0x5d, 0xf6, 0xe0, 0xe2];

    let header = MessageHeader {
        magic_numbers: magic_bytes,
        command_name: CommandName::Verack,
        payload_size: 0,
        checksum: checksum_empty_payload,
    };

    let mut stream: Vec<u8> = Vec::new();
    magic_bytes.io_serialize(&mut stream)?;
    CommandName::Verack.io_serialize(&mut stream)?;
    vec![0, 0, 0, 0].le_serialize(&mut stream)?;
    checksum_empty_payload.io_serialize(&mut stream)?;
    let mut stream: &[u8] = &stream;

    let expected_verack = VerackMessage::deserialize_message(&mut stream, header)?;

    let verack = VerackMessage;

    assert_eq!(expected_verack, verack);

    Ok(())
}
