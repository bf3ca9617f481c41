use cargosos_bitcoin::serialization::deserializable_fix_size::DeserializableFixSize;
use cargosos_bitcoin::serialization::error_serialization::ErrorSerialization;
use cargosos_bitcoin::serialization::serializable_big_endian::SerializableBigEndian;
use cargosos_bitcoin::messages::compact_size::CompactSize;
use cargosos_bitcoin::serialization::deserializable_little_endian::DeserializableLittleEndian;
use cargosos_bitcoin::serialization::serializable_little_endian::SerializableLittleEndian;

#[test]
fn test01_serialize_correctly_string() -> Result<(), ErrorSerialization> {
    let stream: Vec<u8> = vec![0x62, 0x75, 0x75];
    let mut stream: &[u8] = &stream;

    let expected_string: String = "buu".to_string();

    let string = String::deserialize_fix_size(&mut stream, 3)?;

    assert_eq!(expected_string, string);

    Ok(())
}

#[test]
fn test01_serialize_correctly_u16() -> Result<(), ErrorSerialization> {
    let expected_stream: Vec<u8> = vec![0x3F, 0x9E];

    let mut stream: Vec<u8> = Vec::new();
    let number: u16 = 16286;

    number.be_serialize(&mut stream)?;

    assert_eq!(expected_stream, stream);

    Ok(())
}

#[test]
fn compact_size_encodings_round_trip() {

    for value in [0u64, 1, 0xFC, 0xFD, 0xFFFF, 0x1_0000, 0xFFFF_FFFF, 0x1_0000_0000, u64::MAX] {
        let mut stream: Vec<u8> = Vec::new();
        CompactSize::new(value).le_serialize(&mut stream).unwrap();
        assert!(matches!(stream.len(), 1 | 3 | 5 | 9));
        let mut cursor: &[u8] = &stream;
        let read = CompactSize::le_deserialize(&mut cursor).unwrap();
        assert_eq!(read.value, value);
        assert!(cursor.is_empty());
    }
}

#[test]
fn compact_size_exact_bytes() {

    let mut stream: Vec<u8> = Vec::new();
    CompactSize::new(0xFD).le_serialize(&mut stream).unwrap();
    assert_eq!(stream, vec![0xFD, 0xFD, 0x00]);

    let mut stream: Vec<u8> = Vec::new();
    CompactSize::new(0x12345678).le_serialize(&mut stream).unwrap();
    assert_eq!(stream, vec![0xFE, 0x78, 0x56, 0x34, 0x12]);
}
