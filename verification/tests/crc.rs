use pngcheck::chunk::{Chunk, IEND};
use pngcheck::crc::crc32;

#[test]
fn crc_of_empty_end_chunk() {
    assert_eq!(crc32(&IEND, &[]), 0xAE42_6082);
}

#[test]
fn crc_of_check_string() {
    let tag = [b'1', b'2', b'3', b'4'];
    assert_eq!(crc32(&tag, b"56789"), 0xCBF4_3926);
}

#[test]
fn checksum_flips_when_a_payload_byte_changes() {
    let payload = vec![1u8, 2, 3, 4, 5];
    let crc = crc32(&IEND, &payload);
    let mut chunk = Chunk { length: 5, chunk_type: IEND, payload, crc, offset: 8 };
    assert!(chunk.validate_checksum());
    chunk.payload[2] = 0xFF;
    assert!(!chunk.validate_checksum());
}
