use pngyou::{Chunk, ChunkType, PngError};
use std::str::FromStr;

fn testing_chunk() -> Chunk {
    let data_length: u32 = 42;
    let chunk_type = "RuSt".as_bytes();
    let message_bytes = "This is where your secret message will be!".as_bytes();
    let crc: u32 = 2882656334;

    let chunk_data: Vec<u8> = data_length
        .to_be_bytes()
        .iter()
        .chain(chunk_type.iter())
        .chain(message_bytes.iter())
        .chain(crc.to_be_bytes().iter())
        .copied()
        .collect();

    Chunk::try_from(chunk_data.as_ref()).unwrap()
}

fn frame_of(length: u32, chunk_type: &[u8], data: &[u8], crc: u32) -> Vec<u8> {
    length
        .to_be_bytes()
        .iter()
        .chain(chunk_type.iter())
        .chain(data.iter())
        .chain(crc.to_be_bytes().iter())
        .copied()
        .collect()
}

fn reference_crc(chunk_type: &[u8], data: &[u8]) -> u32 {
    let crc = crc::Crc::<u32>::new(&crc::CRC_32_ISO_HDLC);
    let mut digest = crc.digest();
    digest.update(chunk_type);
    digest.update(data);
    digest.finalize()
}

#[test]
fn test_new_chunk() {
    let chunk_type = ChunkType::from_str("RuSt").unwrap();
    let data = "This is where your secret message will be!"
        .as_bytes()
        .to_vec();
    let chunk = Chunk::new(chunk_type, data);
    assert_eq!(chunk.length(), 42);
    assert_eq!(chunk.crc(), 2882656334);
}

#[test]
fn test_chunk_length() {
    let chunk = testing_chunk();
    assert_eq!(chunk.length(), 42);
}

#[test]
fn test_chunk_type() {
    let chunk = testing_chunk();
    assert_eq!(chunk.chunk_type().to_string(), String::from("RuSt"));
}

#[test]
fn test_chunk_string() {
    let chunk = testing_chunk();
    let chunk_string = chunk.data_as_string().unwrap();
    let expected_chunk_string = String::from("This is where your secret message will be!");
    assert_eq!(chunk_string, expected_chunk_string);
}

#[test]
fn test_chunk_crc() {
    let chunk = testing_chunk();
    assert_eq!(chunk.crc(), 2882656334);
}

#[test]
fn test_valid_chunk_from_bytes() {
    let data_length: u32 = 42;
    let chunk_type = "RuSt".as_bytes();
    let message_bytes = "This is where your secret message will be!".as_bytes();
    let crc: u32 = 2882656334;

    let chunk_data: Vec<u8> = data_length
        .to_be_bytes()
        .iter()
        .chain(chunk_type.iter())
        .chain(message_bytes.iter())
        .chain(crc.to_be_bytes().iter())
        .copied()
        .collect();

    let chunk = Chunk::try_from(chunk_data.as_ref()).unwrap();

    let chunk_string = chunk.data_as_string().unwrap();
    let expected_chunk_string = String::from("This is where your secret message will be!");

    assert_eq!(chunk.length(), 42);
    assert_eq!(chunk.chunk_type().to_string(), String::from("RuSt"));
    assert_eq!(chunk_string, expected_chunk_string);
    assert_eq!(chunk.crc(), 2882656334);
}

#[test]
fn test_invalid_chunk_from_bytes() {
    let data_length: u32 = 42;
    let chunk_type = "RuSt".as_bytes();
    let message_bytes = "This is where your secret message will be!".as_bytes();
    let crc: u32 = 2882656333;

    let chunk_data: Vec<u8> = data_length
        .to_be_bytes()
        .iter()
        .chain(chunk_type.iter())
        .chain(message_bytes.iter())
        .chain(crc.to_be_bytes().iter())
        .copied()
        .collect();

    let chunk = Chunk::try_from(chunk_data.as_ref());

    assert!(chunk.is_err());
}

#[test]
pub fn test_chunk_trait_impls() {
    let data_length: u32 = 42;
    let chunk_type = "RuSt".as_bytes();
    let message_bytes = "This is where your secret message will be!".as_bytes();
    let crc: u32 = 2882656334;

    let chunk_data: Vec<u8> = data_length
        .to_be_bytes()
        .iter()
        .chain(chunk_type.iter())
        .chain(message_bytes.iter())
        .chain(crc.to_be_bytes().iter())
        .copied()
        .collect();

    let chunk: Chunk = TryFrom::try_from(chunk_data.as_ref()).unwrap();

    let _chunk_string = chunk.to_string();
}

#[test]
fn chunk_with_wrong_checksum_is_a_crc_mismatch() {
    let message = "This is where your secret message will be!".as_bytes();
    for crc in [0u32, 1, 2882656333, 2882656335, u32::MAX, 2882656334 ^ 0x8000_0000] {
        let bytes = frame_of(42, b"RuSt", message, crc);
        assert_eq!(Chunk::try_from(bytes.as_slice()), Err(PngError::CrcMismatch));
    }
}

#[test]
fn chunk_new_computes_length_and_checksum() {
    let empty = Chunk::new(ChunkType::from_str("IEND").unwrap(), Vec::new());
    assert_eq!(empty.length(), 0);
    assert_eq!(empty.crc(), 0xAE42_6082);
    assert_eq!(empty.data(), &[] as &[u8]);
    assert_eq!(empty.chunk_type().bytes(), *b"IEND");

    let data: Vec<u8> = (0..=255u8).collect();
    let chunk = Chunk::new(ChunkType::from_str("daTa").unwrap(), data.clone());
    assert_eq!(chunk.length(), 256);
    assert_eq!(chunk.data(), data.as_slice());
    assert_eq!(chunk.crc(), reference_crc(b"daTa", &data));
}

#[test]
fn chunk_checksum_covers_type_then_data() {
    // The published value of CRC-32/ISO-HDLC for the bytes "123456789".
    let chunk = Chunk::new(ChunkType::try_from(*b"1234").unwrap(), b"56789".to_vec());
    assert_eq!(chunk.crc(), 0xCBF4_3926);
    // The same nine bytes split elsewhere have the same checksum.
    let other = Chunk::new(ChunkType::try_from(*b"1234").unwrap(), b"56789".to_vec());
    assert_eq!(other.crc(), reference_crc(b"12", b"3456789"));
    // The checksum is not the data handed back, nor that of the data alone.
    let only_data = reference_crc(b"", b"56789");
    assert_ne!(chunk.crc(), only_data);
}

#[test]
fn chunk_as_bytes_lays_out_the_frame() {
    let chunk = testing_chunk();
    let message = "This is where your secret message will be!".as_bytes();
    assert_eq!(chunk.as_bytes(), frame_of(42, b"RuSt", message, 2882656334));

    let end = Chunk::new(ChunkType::from_str("IEND").unwrap(), Vec::new());
    assert_eq!(end.as_bytes(), vec![0, 0, 0, 0, 73, 69, 78, 68, 0xAE, 0x42, 0x60, 0x82]);

    let long = Chunk::new(ChunkType::from_str("loNg").unwrap(), vec![7u8; 0x0102_03]);
    let bytes = long.as_bytes();
    assert_eq!(&bytes[..4], &[0x00, 0x01, 0x02, 0x03]);
    assert_eq!(&bytes[4..8], b"loNg");
    assert_eq!(bytes.len(), 12 + 0x0102_03);
    assert_eq!(&bytes[bytes.len() - 4..], &long.crc().to_be_bytes());
}

#[test]
fn chunk_round_trip() {
    let cases: Vec<(&[u8; 4], Vec<u8>)> = vec![
        (b"RuSt", b"This is where your secret message will be!".to_vec()),
        (b"IEND", Vec::new()),
        (b"iTXt", vec![0xff, 0x00, 0x80, 0x7f]),
        (b"1 @~", (0..=255u8).cycle().take(1000).collect()),
    ];
    for (code, data) in cases {
        let chunk = Chunk::new(ChunkType::try_from(*code).unwrap(), data.clone());
        let decoded = Chunk::try_from(chunk.as_bytes().as_slice()).unwrap();
        assert_eq!(decoded, chunk);
        assert_eq!(decoded.length(), chunk.length());
        assert_eq!(decoded.length() as usize, data.len());
        assert_eq!(decoded.chunk_type(), chunk.chunk_type());
        assert_eq!(decoded.data(), data.as_slice());
        assert_eq!(decoded.crc(), chunk.crc());
        assert_eq!(decoded.as_bytes(), chunk.as_bytes());
    }
}

#[test]
fn chunk_flipping_any_bit_of_type_or_data_is_a_crc_mismatch() {
    let good = testing_chunk().as_bytes();
    for byte in 4..good.len() - 4 {
        for bit in 0..8 {
            let mut bad = good.clone();
            bad[byte] ^= 1 << bit;
            assert_eq!(
                Chunk::try_from(bad.as_slice()),
                Err(PngError::CrcMismatch),
                "byte {} bit {}",
                byte,
                bit
            );
        }
    }
}

#[test]
fn chunk_with_wrong_declared_length_is_a_length_mismatch() {
    let message = "This is where your secret message will be!".as_bytes();
    for declared in [0u32, 1, 41, 43, 42 << 8, u32::MAX] {
        let bytes = frame_of(declared, b"RuSt", message, 2882656334);
        assert_eq!(
            Chunk::try_from(bytes.as_slice()),
            Err(PngError::LengthMismatch { declared, found: 42 })
        );
    }
    // The length is looked at before the checksum.
    let bytes = frame_of(41, b"RuSt", message, 0);
    assert_eq!(
        Chunk::try_from(bytes.as_slice()),
        Err(PngError::LengthMismatch { declared: 41, found: 42 })
    );
}

#[test]
fn chunk_shorter_than_twelve_bytes_is_truncated() {
    let end = vec![0u8, 0, 0, 0, 73, 69, 78, 68, 0xAE, 0x42, 0x60, 0x82];
    assert!(Chunk::try_from(end.as_slice()).is_ok());
    for len in 0..12 {
        assert_eq!(Chunk::try_from(&end[..len]), Err(PngError::TruncatedChunk));
    }
}

#[test]
fn chunk_type_is_not_validated_on_decode() {
    let data = [1u8, 2, 3];
    let crc = reference_crc(&[0, 1, 2, 3], &data);
    let bytes = frame_of(3, &[0, 1, 2, 3], &data, crc);
    let chunk = Chunk::try_from(bytes.as_slice()).unwrap();
    assert_eq!(chunk.chunk_type().bytes(), [0, 1, 2, 3]);
    assert!(!chunk.chunk_type().is_valid());
    assert_eq!(chunk.data(), &data);
}

#[test]
fn chunk_data_that_is_no_text_fails_to_decode_as_text() {
    let chunk = Chunk::new(ChunkType::from_str("RuSt").unwrap(), vec![0xff, 0xfe]);
    assert_eq!(chunk.data_as_string(), Err(PngError::Utf8DecodeFailure));
    let cut = Chunk::new(ChunkType::from_str("RuSt").unwrap(), vec![b'a', 0xe2, 0x82]);
    assert_eq!(cut.data_as_string(), Err(PngError::Utf8DecodeFailure));
    let euro = Chunk::new(ChunkType::from_str("RuSt").unwrap(), vec![b'a', 0xe2, 0x82, 0xac]);
    assert_eq!(euro.data_as_string(), Ok(String::from("a€")));
    let empty = Chunk::new(ChunkType::from_str("RuSt").unwrap(), Vec::new());
    assert_eq!(empty.data_as_string(), Ok(String::new()));
}

#[test]
fn chunk_equality_and_clone() {
    let a = testing_chunk();
    let b = a.clone();
    assert_eq!(a, b);
    assert_eq!(b.as_bytes(), a.as_bytes());
    let other_type = Chunk::new(ChunkType::from_str("RuSu").unwrap(), a.data().to_vec());
    assert_ne!(a, other_type);
    let mut data = a.data().to_vec();
    data[0] ^= 1;
    let other_data = Chunk::new(ChunkType::from_str("RuSt").unwrap(), data);
    assert_ne!(a, other_data);
    let shorter = Chunk::new(ChunkType::from_str("RuSt").unwrap(), a.data()[..41].to_vec());
    assert_ne!(a, shorter);
}

#[test]
fn chunk_in_words() {
    let chunk = testing_chunk();
    let data = chunk.data().to_vec();
    let expected = format!(
        "Length: {}\nChunk Type: {}\nData (Bytes): {:#?}\nData (String): {}\nCRC: {}\n",
        42,
        "RuSt",
        data,
        "This is where your secret message will be!",
        2882656334u32
    );
    assert_eq!(chunk.to_string(), expected);
    assert!(expected.starts_with(
        "Length: 42\nChunk Type: RuSt\nData (Bytes): [\n    84,\n    104,\n"
    ));
    assert!(expected.ends_with(
        "    33,\n]\nData (String): This is where your secret message will be!\n\
         CRC: 2882656334\n"
    ));
}

#[test]
fn chunk_in_words_without_data() {
    let chunk = Chunk::new(ChunkType::from_str("IEND").unwrap(), Vec::new());
    assert_eq!(
        chunk.to_string(),
        "Length: 0\nChunk Type: IEND\nData (Bytes): []\nData (String): \nCRC: 2923585666\n"
    );
}

#[test]
fn chunk_in_words_with_bytes_that_are_no_text() {
    let code = ChunkType::try_from([0xff, 0x41, 0x42, 0x43]).unwrap();
    let chunk = Chunk::new(code, vec![0, 200, 255]);
    let text: String = [0u8, 200, 255].iter().map(|b| *b as char).collect();
    let expected = format!(
        "Length: 3\nChunk Type: \nData (Bytes): [\n    0,\n    200,\n    255,\n]\n\
         Data (String): {}\nCRC: {}\n",
        text,
        chunk.crc()
    );
    assert_eq!(chunk.to_string(), expected);
}
