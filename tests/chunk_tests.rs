use pngme::chunk::Chunk;
use pngme::chunk_type::ChunkType;
use pngme::error::ChunkError;

const MESSAGE: &str = "This is where your secret message will be!";

fn wire_bytes(data_length: u32, crc: u32) -> Vec<u8> {
    let chunk_type = "RuSt".as_bytes();
    let message_bytes = MESSAGE.as_bytes();
    data_length
        .to_be_bytes()
        .iter()
        .chain(chunk_type.iter())
        .chain(message_bytes.iter())
        .chain(crc.to_be_bytes().iter())
        .copied()
        .collect()
}

fn testing_chunk() -> Chunk {
    Chunk::try_from(wire_bytes(42, 2882656334).as_ref()).unwrap()
}

#[test]
fn test_new_chunk() {
    let chunk_type = ChunkType::from_str("RuSt").unwrap();
    let data = MESSAGE.as_bytes().to_vec();
    let chunk = Chunk::new(chunk_type, data);
    assert_eq!(chunk.length(), 42);
    assert_eq!(chunk.crc(), 2882656334);
}

#[test]
fn test_chunk_length() {
    assert_eq!(testing_chunk().length(), 42);
}

#[test]
fn test_chunk_type() {
    assert_eq!(testing_chunk().chunk_type().to_string(), String::from("RuSt"));
}

#[test]
fn test_chunk_string() {
    let chunk_string = testing_chunk().data_as_string().unwrap();
    assert_eq!(chunk_string, String::from(MESSAGE));
}

#[test]
fn test_chunk_crc() {
    assert_eq!(testing_chunk().crc(), 2882656334);
}

#[test]
fn test_valid_chunk_from_bytes() {
    let chunk = Chunk::try_from(wire_bytes(42, 2882656334).as_ref()).unwrap();
    assert_eq!(chunk.length(), 42);
    assert_eq!(chunk.chunk_type().to_string(), String::from("RuSt"));
    assert_eq!(chunk.data_as_string().unwrap(), String::from(MESSAGE));
    assert_eq!(chunk.crc(), 2882656334);
}

#[test]
fn test_invalid_chunk_from_bytes() {
    let chunk = Chunk::try_from(wire_bytes(42, 2882656333).as_ref());
    assert!(chunk.is_err());
    assert!(matches!(chunk, Err(ChunkError::CrcMismatch)));
}

#[test]
fn short_buffer_is_too_short() {
    for n in 0..12usize {
        let b = vec![0u8; n];
        assert!(matches!(Chunk::try_from(b.as_ref()), Err(ChunkError::TooShort)));
    }
}

#[test]
fn long_declared_length_is_truncated() {
    let b = wire_bytes(43, 2882656334);
    assert!(matches!(Chunk::try_from(b.as_ref()), Err(ChunkError::TruncatedPayload)));
}

#[test]
fn reserved_bit_type_in_buffer_is_rejected() {
    let mut b = wire_bytes(42, 2882656334);
    b[6] = b's';
    assert!(matches!(Chunk::try_from(b.as_ref()), Err(ChunkError::InvalidChunkType)));
}

#[test]
fn as_bytes_round_trips() {
    let b = wire_bytes(42, 2882656334);
    let chunk = Chunk::try_from(b.as_ref()).unwrap();
    assert_eq!(chunk.as_bytes(), b);
    let again = Chunk::try_from(chunk.as_bytes().as_ref()).unwrap();
    assert_eq!(again.data(), chunk.data());
    assert_eq!(again.crc(), chunk.crc());
}

#[test]
fn one_bit_change_changes_crc() {
    let t = ChunkType::from_str("RuSt").unwrap();
    let mut data = MESSAGE.as_bytes().to_vec();
    let a = Chunk::new(t.clone(), data.clone()).crc();
    data[0] ^= 1;
    let b = Chunk::new(t, data).crc();
    assert_ne!(a, b);
}

#[test]
fn invalid_utf8_payload() {
    let t = ChunkType::from_str("RuSt").unwrap();
    let c = Chunk::new(t, vec![0xff, 0xfe]);
    assert_eq!(c.data_as_string(), Err(ChunkError::InvalidEncoding));
}
