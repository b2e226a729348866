use pngme::chunk::{Chunk, ChunkFault, ParseChunkError};
use pngme::chunk_type::ChunkType;
use pngme::png::{ChunkNotFound, ParsePngError, Png};
use std::str::FromStr;

fn chunk(code: &str, text: &str) -> Chunk {
    Chunk::new(ChunkType::from_str(code).unwrap(), text.as_bytes().to_vec())
}

fn types_of(png: &Png) -> Vec<String> {
    png.chunks().iter().map(|c| c.chunk_type().to_string()).collect()
}

fn signature() -> Vec<u8> {
    vec![137, 80, 78, 71, 13, 10, 26, 10]
}

#[test]
fn png_end_to_end_scenario() {
    let mut bytes = signature();
    bytes.extend_from_slice(&5u32.to_be_bytes());
    bytes.extend_from_slice(b"teSt");
    bytes.extend_from_slice(b"hello");
    let crc = crc::Crc::<u32>::new(&crc::CRC_32_ISO_HDLC).checksum(b"teSthello");
    bytes.extend_from_slice(&crc.to_be_bytes());
    let png = Png::parse(&bytes).unwrap();
    assert_eq!(png.chunks().len(), 1);
    let found = png.chunk_by_type("teSt").unwrap();
    assert_eq!(found.data_as_string().unwrap(), "hello");
    assert_eq!(png.as_bytes(), bytes);
}

#[test]
fn png_lookup_and_removal_order() {
    let mut png = Png::from_chunks(Vec::new());
    png.append_chunk(chunk("aaAA", "first"));
    png.append_chunk(chunk("bbBB", "middle"));
    png.append_chunk(chunk("aaAA", "last"));
    assert_eq!(png.chunk_by_type("aaAA").unwrap().data_as_string().unwrap(), "first");
    let removed = png.remove_first_chunk("aaAA").unwrap();
    assert_eq!(removed.data_as_string().unwrap(), "first");
    assert_eq!(types_of(&png), vec!["bbBB".to_string(), "aaAA".to_string()]);
    assert_eq!(png.chunk_by_type("aaAA").unwrap().data_as_string().unwrap(), "last");
}

#[test]
fn png_remove_missing_type() {
    let mut png = Png::from_chunks(vec![chunk("aaAA", "x"), chunk("bbBB", "y")]);
    let before = png.as_bytes();
    assert!(matches!(png.remove_first_chunk("ccCC"), Err(ChunkNotFound)));
    assert!(matches!(png.remove_first_chunk("not a type"), Err(ChunkNotFound)));
    assert_eq!(png.as_bytes(), before);
    assert!(png.chunk_by_type("ccCC").is_none());
    assert!(png.chunk_by_type("aaAa").is_none());
}

#[test]
fn png_round_trip_of_built_file() {
    let png = Png::from_chunks(vec![chunk("IHDR", "head"), chunk("teSt", ""), chunk("IEND", "")]);
    let bytes = png.as_bytes();
    assert_eq!(&bytes[..8], &signature()[..]);
    assert_eq!(bytes.len(), 8 + 16 + 12 + 12);
    let back = Png::parse(&bytes).unwrap();
    assert_eq!(types_of(&back), vec!["IHDR".to_string(), "teSt".to_string(), "IEND".to_string()]);
    assert_eq!(back.as_bytes(), bytes);
    assert_eq!(back.header(), Png::STANDARD_HEADER);
}

#[test]
fn png_signature_only() {
    let png = Png::parse(&signature()).unwrap();
    assert!(png.chunks().is_empty());
    assert_eq!(png.as_bytes(), signature());
}

#[test]
fn png_bad_signature() {
    let mut bytes = signature();
    bytes[0] = 0x88;
    assert_eq!(Png::parse(&bytes).err(), Some(ParsePngError::InvalidHeader));
    assert_eq!(Png::parse(&[137, 80, 78]).err(), Some(ParsePngError::InvalidHeader));
}

#[test]
fn png_bad_chunk() {
    let mut bytes = Png::from_chunks(vec![chunk("teSt", "hello")]).as_bytes();
    let last = bytes.len() - 1;
    bytes[last] ^= 1;
    assert_eq!(
        Png::parse(&bytes).err(),
        Some(ParsePngError::InvalidChunk(ParseChunkError { fault: ChunkFault::ChecksumMismatch }))
    );
    let mut truncated = Png::from_chunks(vec![chunk("teSt", "hello")]).as_bytes();
    truncated.pop();
    assert_eq!(
        Png::parse(&truncated).err(),
        Some(ParsePngError::InvalidChunk(ParseChunkError { fault: ChunkFault::LengthMismatch }))
    );
    let mut trailing = signature();
    trailing.extend_from_slice(&[0, 0, 0]);
    assert_eq!(
        Png::parse(&trailing).err(),
        Some(ParsePngError::InvalidChunk(ParseChunkError { fault: ChunkFault::TooShort }))
    );
}
