use pngme::{Chunk, ChunkType, Error, Png};
use std::convert::TryFrom;

const SIGNATURE: [u8; 8] = [137, 80, 78, 71, 13, 10, 26, 10];

fn chunk(t: &str, data: &str) -> Chunk {
    Chunk::new(ChunkType::from_text(t).unwrap(), data.as_bytes().to_vec())
}

fn sample() -> Png {
    Png::from_chunks(vec![
        chunk("FrSt", "I am the first chunk"),
        chunk("miDl", "I am another chunk"),
        chunk("LASt", "I am the last chunk"),
    ])
}

fn same_chunks(a: &Png, b: &Png) -> bool {
    a.chunks().len() == b.chunks().len()
        && a.chunks().iter().zip(b.chunks()).all(|(x, y)| {
            x.chunk_type() == y.chunk_type() && x.data() == y.data() && x.crc() == y.crc()
        })
}

#[test]
fn header_is_the_signature() {
    assert_eq!(*Png::header(), SIGNATURE);
    assert_eq!(Png::STANDARD_HEADER, SIGNATURE);
}

#[test]
fn empty_container_bytes() {
    let p = Png::new();
    assert!(p.chunks().is_empty());
    assert_eq!(p.as_bytes(), SIGNATURE.to_vec());
    let back = Png::parse(&p.as_bytes()).unwrap();
    assert!(back.chunks().is_empty());
}

#[test]
fn container_bytes_layout() {
    let p = Png::from_chunks(vec![chunk("RuSt", "hello")]);
    let mut expected = SIGNATURE.to_vec();
    expected.extend_from_slice(&[0, 0, 0, 5]);
    expected.extend_from_slice(b"RuSthello");
    expected.extend_from_slice(&907060870u32.to_be_bytes());
    assert_eq!(p.as_bytes(), expected);
}

#[test]
fn round_trip_keeps_chunks_in_order() {
    let p = sample();
    let back = Png::try_from(&p.as_bytes()[..]).unwrap();
    assert!(same_chunks(&p, &back));
    assert_eq!(back.chunks()[0].chunk_type().to_string(), "FrSt");
    assert_eq!(back.chunks()[2].data_as_string().unwrap(), "I am the last chunk");
    assert_eq!(back.as_bytes(), p.as_bytes());
}

#[test]
fn serialize_twice_gives_same_bytes() {
    let p = sample();
    assert_eq!(p.as_bytes(), p.as_bytes());
}

#[test]
fn append_find_remove() {
    let mut p = Png::new();
    p.append_chunk(chunk("abCd", "payload"));
    let found = p.chunk_by_type("abCd").unwrap();
    assert_eq!(found.data(), b"payload");
    let removed = p.remove_chunk("abCd").unwrap();
    assert_eq!(removed.data(), b"payload");
    assert_eq!(removed.chunk_type().to_string(), "abCd");
    assert!(p.chunk_by_type("abCd").is_none());
    assert!(p.chunks().is_empty());
}

#[test]
fn first_appended_is_found_and_removed() {
    let mut p = Png::new();
    p.append_chunk(chunk("ruSt", "A"));
    p.append_chunk(chunk("ruSt", "B"));
    assert_eq!(p.chunk_by_type("ruSt").unwrap().data(), b"A");
    assert_eq!(p.remove_chunk("ruSt").unwrap().data(), b"A");
    assert_eq!(p.chunk_by_type("ruSt").unwrap().data(), b"B");
    assert_eq!(p.chunks().len(), 1);
}

#[test]
fn remove_missing_type_fails() {
    let mut p = sample();
    assert_eq!(p.remove_chunk("ruSt").err(), Some(Error::NotFound(String::from("ruSt"))));
    assert_eq!(p.chunks().len(), 3);
    assert!(p.chunk_by_type("ruSt").is_none());
    assert!(p.chunk_by_type("mIDL").is_none());
    assert_eq!(p.chunk_by_type("miDl").unwrap().data(), b"I am another chunk");
}

#[test]
fn remove_takes_out_the_middle_chunk() {
    let mut p = sample();
    let c = p.remove_chunk("miDl").unwrap();
    assert_eq!(c.data(), b"I am another chunk");
    let types: Vec<String> = p.chunks().iter().map(|c| c.chunk_type().to_string()).collect();
    assert_eq!(types, vec!["FrSt", "LASt"]);
}

#[test]
fn parse_empty_is_too_short() {
    assert_eq!(Png::parse(&[]).err(), Some(Error::TooShort(0)));
    assert_eq!(Png::parse(&SIGNATURE[..7]).err(), Some(Error::TooShort(7)));
}

#[test]
fn parse_bad_signature() {
    assert_eq!(Png::parse(&[20; 8]).err(), Some(Error::BadSignature([20; 8])));
    let mut bytes = sample().as_bytes();
    bytes[0] = 20;
    let mut expected = SIGNATURE;
    expected[0] = 20;
    assert_eq!(Png::parse(&bytes).err(), Some(Error::BadSignature(expected)));
}

#[test]
fn parse_declared_length_too_long() {
    let mut bytes = SIGNATURE.to_vec();
    bytes.extend_from_slice(&[0, 0, 0, 100]);
    bytes.extend_from_slice(b"RuSt");
    bytes.extend_from_slice(b"short");
    bytes.extend_from_slice(&[0, 0, 0, 0]);
    assert_eq!(
        Png::parse(&bytes).err(),
        Some(Error::Truncated { needed: 112, available: 17 })
    );
}

#[test]
fn parse_invalid_chunk_type() {
    let mut bytes = SIGNATURE.to_vec();
    bytes.extend_from_slice(&[0, 0, 0, 0]);
    bytes.extend_from_slice(b"R1St");
    bytes.extend_from_slice(&[0, 0, 0, 0]);
    assert_eq!(Png::parse(&bytes).err(), Some(Error::InvalidByte(49)));
}

#[test]
fn parse_stops_before_fewer_than_four_bytes() {
    let mut bytes = sample().as_bytes();
    bytes.extend_from_slice(&[1, 2, 3]);
    let p = Png::parse(&bytes).unwrap();
    assert!(same_chunks(&p, &sample()));

    let mut bytes = sample().as_bytes();
    bytes.extend_from_slice(&[0, 0, 0, 0]);
    assert_eq!(
        Png::parse(&bytes).err(),
        Some(Error::Truncated { needed: 12, available: 4 })
    );
}

#[test]
fn parse_overlong_length_wins_over_bad_type() {
    let mut bytes = SIGNATURE.to_vec();
    bytes.extend_from_slice(&[0, 0, 0, 100]);
    bytes.extend_from_slice(&[1, 2, 3, 4, 5, 6, 7, 8]);
    assert_eq!(
        Png::parse(&bytes).err(),
        Some(Error::Truncated { needed: 112, available: 12 })
    );

    let mut bytes = sample().as_bytes();
    bytes.extend_from_slice(&[0, 0, 0, 9]);
    bytes.extend_from_slice(b"1234");
    assert_eq!(
        Png::parse(&bytes).err(),
        Some(Error::Truncated { needed: 21, available: 8 })
    );
}

#[test]
fn chunk_parse_still_checks_type_first() {
    let mut bytes = vec![0, 0, 0, 100];
    bytes.extend_from_slice(&[1, 2, 3, 4, 5, 6, 7, 8]);
    assert_eq!(Chunk::parse(&bytes).err(), Some(Error::InvalidByte(1)));
}
