use png_chunk::chunk_type::{ChunkType, ChunkTypeError};
use std::convert::TryFrom;
use std::str::FromStr;

#[test]
pub fn test_chunk_type_from_bytes() {
    let expected = [82, 117, 83, 116];
    let actual = ChunkType::try_from([82, 117, 83, 116]).unwrap();

    assert_eq!(expected, actual.bytes());
}

#[test]
pub fn test_chunk_type_from_str() {
    let expected = ChunkType::try_from([82, 117, 83, 116]).unwrap();
    let actual = ChunkType::from_str("RuSt").unwrap();
    assert_eq!(expected, actual);
}

#[test]
pub fn test_chunk_type_is_critical() {
    let chunk = ChunkType::from_str("RuSt").unwrap();
    assert!(chunk.is_critical());
}

#[test]
pub fn test_chunk_type_is_not_critical() {
    let chunk = ChunkType::from_str("ruSt").unwrap();
    assert!(!chunk.is_critical());
}

#[test]
pub fn test_chunk_type_is_public() {
    let chunk = ChunkType::from_str("RUSt").unwrap();
    assert!(chunk.is_public());
}

#[test]
pub fn test_chunk_type_is_not_public() {
    let chunk = ChunkType::from_str("RuSt").unwrap();
    assert!(!chunk.is_public());
}

#[test]
pub fn test_chunk_type_is_reserved_bit_valid() {
    let chunk = ChunkType::from_str("RuSt").unwrap();
    assert!(chunk.is_reserved_bit_valid());
}

#[test]
pub fn test_chunk_type_is_reserved_bit_invalid() {
    let chunk = ChunkType::from_str("Rust").unwrap();
    assert!(!chunk.is_reserved_bit_valid());
}

#[test]
pub fn test_chunk_type_is_safe_to_copy() {
    let chunk = ChunkType::from_str("RuSt").unwrap();
    assert!(chunk.is_safe_to_copy());
}

#[test]
pub fn test_chunk_type_is_unsafe_to_copy() {
    let chunk = ChunkType::from_str("RuST").unwrap();
    assert!(!chunk.is_safe_to_copy());
}

#[test]
pub fn test_valid_chunk_is_valid() {
    let chunk = ChunkType::from_str("RuSt").unwrap();
    assert!(chunk.is_valid());
}

#[test]
pub fn test_invalid_chunk_is_valid() {
    let chunk = ChunkType::from_str("Rust").unwrap();
    assert!(!chunk.is_valid());

    let chunk = ChunkType::from_str("Ru1t");
    assert!(chunk.is_err());
}

#[test]
pub fn test_chunk_type_string() {
    let chunk = ChunkType::from_str("RuSt").unwrap();
    assert_eq!(&chunk.to_string(), "RuSt");
}

#[test]
pub fn test_chunk_type_trait_impls() {
    let chunk_type_1: ChunkType = TryFrom::try_from([82, 117, 83, 116]).unwrap();
    let chunk_type_2: ChunkType = FromStr::from_str("RuSt").unwrap();
    let _chunk_string = chunk_type_1.to_string();
    let _are_chunks_equal = chunk_type_1 == chunk_type_2;
}

#[test]
fn from_bytes_keeps_the_bytes_unexamined() {
    let tag = ChunkType::from_bytes([0, 49, 255, 32]);
    assert_eq!(tag.bytes(), [0, 49, 255, 32]);
    assert!(!tag.is_valid());
}

#[test]
fn from_text_agrees_with_from_bytes() {
    assert_eq!(ChunkType::from_text("RuSt"), Ok(ChunkType::from_bytes([82, 117, 83, 116])));
    assert_eq!(ChunkType::from_text("azAZ").unwrap().bytes(), [97, 122, 65, 90]);
}

#[test]
fn from_text_rejects_other_lengths() {
    assert_eq!(ChunkType::from_text("RuS"), Err(ChunkTypeError::ByteLengthError(3)));
    assert_eq!(ChunkType::from_text("RuStx"), Err(ChunkTypeError::ByteLengthError(5)));
    assert_eq!(ChunkType::from_text(""), Err(ChunkTypeError::ByteLengthError(0)));
    // four characters, five bytes
    assert_eq!(ChunkType::from_text("Ru\u{e9}t"), Err(ChunkTypeError::ByteLengthError(5)));
    // a wrong length wins over a wrong character
    assert_eq!(ChunkType::from_text("1"), Err(ChunkTypeError::ByteLengthError(1)));
}

#[test]
fn from_text_rejects_non_letters() {
    assert_eq!(ChunkType::from_text("Ru1t"), Err(ChunkTypeError::InvalidCharacter));
    assert_eq!(ChunkType::from_text("RuS "), Err(ChunkTypeError::InvalidCharacter));
    assert_eq!(ChunkType::from_text("@uSt"), Err(ChunkTypeError::InvalidCharacter));
    assert_eq!(ChunkType::from_text("[uSt"), Err(ChunkTypeError::InvalidCharacter));
    assert_eq!(ChunkType::from_text("`uSt"), Err(ChunkTypeError::InvalidCharacter));
    assert_eq!(ChunkType::from_text("Ru{t"), Err(ChunkTypeError::InvalidCharacter));
    // two characters of two bytes each: four bytes, none a letter
    assert_eq!(ChunkType::from_text("\u{e9}\u{e9}"), Err(ChunkTypeError::InvalidCharacter));
    assert_eq!(ChunkType::from_str("Ru1t"), Err(ChunkTypeError::InvalidCharacter));
}

#[test]
fn validity_needs_four_letters_and_an_uppercase_third() {
    assert!(ChunkType::from_bytes(*b"RuSt").is_valid());
    assert!(ChunkType::from_bytes(*b"ruSt").is_valid());
    assert!(ChunkType::from_bytes(*b"RUST").is_valid());
    assert!(ChunkType::from_bytes(*b"AAZz").is_valid());
    assert!(!ChunkType::from_bytes(*b"Rust").is_valid());
    assert!(!ChunkType::from_bytes(*b"1uSt").is_valid());
    assert!(!ChunkType::from_bytes(*b"R1St").is_valid());
    assert!(!ChunkType::from_bytes(*b"Ru1t").is_valid());
    assert!(!ChunkType::from_bytes(*b"RuS1").is_valid());
    assert!(!ChunkType::from_bytes(*b"RuS[").is_valid());
    assert!(!ChunkType::from_bytes(*b"RuS`").is_valid());
    assert!(!ChunkType::from_bytes(*b"Ru@t").is_valid());
}

#[test]
fn validity_is_the_stated_rule_on_a_grid_of_bytes() {
    let samples: [u8; 12] = [0, 48, 64, 65, 77, 90, 91, 96, 97, 122, 123, 255];
    for &a in samples.iter() {
        for &b in samples.iter() {
            for &c in samples.iter() {
                for &d in samples.iter() {
                    let tag = ChunkType::from_bytes([a, b, c, d]);
                    let letters = [a, b, c, d].iter().all(|x| x.is_ascii_alphabetic());
                    assert_eq!(tag.is_valid(), letters && c.is_ascii_uppercase());
                }
            }
        }
    }
}

#[test]
fn each_flag_reads_its_own_byte() {
    let tag = ChunkType::from_bytes(*b"RuSt");
    assert!(tag.is_critical());
    assert!(!tag.is_public());
    assert!(tag.is_reserved_bit_valid());
    assert!(tag.is_safe_to_copy());

    let tag = ChunkType::from_bytes(*b"rUsT");
    assert!(!tag.is_critical());
    assert!(tag.is_public());
    assert!(!tag.is_reserved_bit_valid());
    assert!(!tag.is_safe_to_copy());

    // neither case: not uppercase, and not lowercase
    let tag = ChunkType::from_bytes(*b"1234");
    assert!(!tag.is_critical());
    assert!(!tag.is_public());
    assert!(!tag.is_reserved_bit_valid());
    assert!(!tag.is_safe_to_copy());
}

#[test]
fn text_is_the_bytes_read_as_utf8() {
    assert_eq!(ChunkType::from_bytes(*b"RuSt").text(), Some(String::from("RuSt")));
    assert_eq!(ChunkType::from_bytes(*b"12 4").text(), Some(String::from("12 4")));
    assert_eq!(ChunkType::from_bytes([0xc3, 0xa9, 0xc3, 0xa9]).text(), Some(String::from("\u{e9}\u{e9}")));
    assert_eq!(ChunkType::from_bytes([82, 117, 83, 0xff]).text(), None);
    assert_eq!(ChunkType::from_bytes([0xc3, 0xa9, 0xc3, 65]).text(), None);
    assert_eq!(ChunkType::from_bytes(*b"12 4").to_string(), "12 4");
}

#[test]
fn chunk_type_error_messages() {
    assert_eq!(
        ChunkTypeError::ByteLengthError(3).to_string(),
        "Expected 4 bytes but received 3 when creating chunk type"
    );
    assert_eq!(
        ChunkTypeError::ByteLengthError(1234567890).to_string(),
        "Expected 4 bytes but received 1234567890 when creating chunk type"
    );
    assert_eq!(
        ChunkTypeError::InvalidCharacter.to_string(),
        "Input contains one or more invalid characters"
    );
}

#[test]
fn equality_is_byte_wise() {
    let a = ChunkType::from_bytes(*b"RuSt");
    assert!(a == ChunkType::from_bytes(*b"RuSt"));
    assert!(a != ChunkType::from_bytes(*b"QuSt"));
    assert!(a != ChunkType::from_bytes(*b"RvSt"));
    assert!(a != ChunkType::from_bytes(*b"RuTt"));
    assert!(a != ChunkType::from_bytes(*b"RuSu"));
}
