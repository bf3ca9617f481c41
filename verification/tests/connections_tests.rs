use cargosos_bitcoin::configurations::parsable::{parse_structure, Parsable};
use cargosos_bitcoin::connections::p2p_protocol::ProtocolVersionP2P;
use cargosos_bitcoin::connections::type_identifier::TypeIdentifier;
use cargosos_bitcoin::serialization::deserializable_little_endian::DeserializableLittleEndian;
use cargosos_bitcoin::serialization::error_serialization::ErrorSerialization;
use cargosos_bitcoin::serialization::serializable_little_endian::SerializableLittleEndian;

#[test]
fn test01_serialize_correctly_protocol_version_p2p() -> Result<(), ErrorSerialization> {
    let expected_stream: Vec<u8> = vec![0xAA, 0x7A, 0x00, 0x00];

    let mut stream: Vec<u8> = Vec::new();
    let protocol: ProtocolVersionP2P = ProtocolVersionP2P::V31402;

    protocol.le_serialize(&mut stream)?;

    assert_eq!(expected_stream, stream);

    Ok(())
}

#[test]
fn test02_deserialize_correctly_protocol_version_p2p() -> Result<(), ErrorSerialization> {
    let stream: Vec<u8> = vec![0xAA, 0x7A, 0x00, 0x00];
    let mut stream: &[u8] = &stream;
    let protocol: ProtocolVersionP2P = ProtocolVersionP2P::V31402;

    let expected_protocol = ProtocolVersionP2P::le_deserialize(&mut stream)?;

    assert_eq!(expected_protocol, protocol);

    Ok(())
}

#[test]
fn test03_accept_valid_input() {
    let configuration = "p2p_protocol = V70002";

    let name = "p2p_protocol";
    let map = parse_structure(configuration.to_string()).unwrap();

    let p2p_protocol_result = ProtocolVersionP2P::parse(name, &map);

    let expected_p2p_protocol = ProtocolVersionP2P::V70002;

    assert_eq!(Ok(expected_p2p_protocol), p2p_protocol_result);
}

#[test]
fn test01_serialize_correctly_type_identifier() -> Result<(), ErrorSerialization> {
    let expected_stream: Vec<u8> = vec![0x01, 0x00, 0x00, 0x40];

    let mut stream: Vec<u8> = Vec::new();
    let type_identifier = TypeIdentifier::WitnessTransaction;

    type_identifier.le_serialize(&mut stream)?;

    assert_eq!(expected_stream, stream);
    Ok(())
}

#[test]
fn test02_deserialize_correctly_type_identifier() -> Result<(), ErrorSerialization> {
    let mut stream: Vec<u8> = Vec::new();
    let type_identifier = TypeIdentifier::WitnessTransaction;

    type_identifier.le_serialize(&mut stream)?;

    let mut stream: &[u8] = &stream;

    let type_identifier_deserialized = TypeIdentifier::le_deserialize(&mut stream)?;

    assert_eq!(type_identifier, type_identifier_deserialized);

    Ok(())
}
