use pngme::{Chunk, ChunkType, Error};

fn chunk(t: &str, data: &[u8]) -> Chunk {
    Chunk::new(ChunkType::from_text(t).unwrap(), data.to_vec())
}

#[test]
fn new_chunk_fields() {
    let c = chunk("RuSt", b"hello");
    assert_eq!(c.length(), 5);
    assert_eq!(c.chunk_type().bytes(), *b"RuSt");
    assert_eq!(c.data(), b"hello");
    assert_eq!(c.crc(), 907060870);
}

#[test]
fn crc_covers_the_data_only() {
    assert_eq!(chunk("RuSt", b"hello").crc(), 907060870);
    assert_eq!(chunk("abCd", b"hello").crc(), 907060870);
    assert_eq!(chunk("RuSt", b"").crc(), 0);
    assert_eq!(
        chunk("RuSt", b"This is where your secret message will be!").crc(),
        4220142316
    );
}

#[test]
fn chunk_bytes_layout() {
    let c = chunk("RuSt", b"hello");
    let bytes = c.as_bytes();
    assert_eq!(bytes.len(), 17);
    assert_eq!(&bytes[0..4], &[0, 0, 0, 5]);
    assert_eq!(&bytes[4..8], b"RuSt");
    assert_eq!(&bytes[8..13], b"hello");
    assert_eq!(&bytes[13..17], &907060870u32.to_be_bytes());
}

#[test]
fn chunk_parse_round_trip() {
    let c = chunk("RuSt", b"This is where your secret message will be!");
    let mut bytes = c.as_bytes();
    bytes.extend_from_slice(&[1, 2, 3]);
    let p = Chunk::parse(&bytes).unwrap();
    assert_eq!(p.length(), c.length());
    assert_eq!(p.chunk_type(), c.chunk_type());
    assert_eq!(p.data(), c.data());
    assert_eq!(p.crc(), c.crc());
}

#[test]
fn chunk_parse_keeps_crc_verbatim() {
    let mut bytes = vec![0, 0, 0, 2];
    bytes.extend_from_slice(b"RuSthi");
    bytes.extend_from_slice(&[0, 0, 0, 7]);
    let c = Chunk::parse(&bytes).unwrap();
    assert_eq!(c.crc(), 7);
    assert_eq!(c.data(), b"hi");
    assert_eq!(c.data_as_string().unwrap(), "hi");
}

#[test]
fn chunk_parse_errors() {
    assert_eq!(
        Chunk::parse(&[0; 11]).err(),
        Some(Error::Truncated { needed: 12, available: 11 })
    );
    let mut bytes = vec![0, 0, 0, 10];
    bytes.extend_from_slice(b"RuSt");
    bytes.extend_from_slice(&[1, 2, 3, 4, 5]);
    assert_eq!(
        Chunk::parse(&bytes).err(),
        Some(Error::Truncated { needed: 22, available: 13 })
    );
    let mut bytes = vec![0, 0, 0, 0];
    bytes.extend_from_slice(b"Ru1t");
    bytes.extend_from_slice(&[0, 0, 0, 0]);
    assert_eq!(Chunk::parse(&bytes).err(), Some(Error::InvalidByte(49)));
}

#[test]
fn data_as_string_checks_utf8() {
    assert_eq!(
        chunk("RuSt", "top secret message".as_bytes()).data_as_string().unwrap(),
        "top secret message"
    );
    assert_eq!(chunk("RuSt", &[0xff, 0xfe]).data_as_string(), Err(Error::InvalidUtf8));
}
