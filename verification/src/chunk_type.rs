//! The four-byte type of a chunk and the properties encoded in the case of
//! each of its bytes.
//!
//! | byte | property            | holds when |
//! |------|---------------------|------------|
//! | 0    | critical            | uppercase  |
//! | 1    | public              | uppercase  |
//! | 2    | reserved bit valid  | uppercase  |
//! | 3    | safe to copy        | lowercase  |

use crate::text::{decimal, decimal_string, decode_text};
use vstd::prelude::*;
use vstd::std_specs::cmp::PartialEqSpecImpl;
use vstd::string::StringSliceAdditionalSpecFns;
use vstd::utf8::{decode_utf8, encode_utf8, valid_utf8};

verus! {

/// `b` is an ASCII uppercase letter, `A..=Z`.
pub open spec fn is_upper(b: u8) -> bool {
    0x41 <= b <= 0x5a
}

/// `b` is an ASCII lowercase letter, `a..=z`.
pub open spec fn is_lower(b: u8) -> bool {
    0x61 <= b <= 0x7a
}

/// `b` is an ASCII letter of either case.
pub open spec fn is_letter(b: u8) -> bool {
    is_upper(b) || is_lower(b)
}

/// Every byte of `bytes` is an ASCII letter.
pub open spec fn all_letters(bytes: Seq<u8>) -> bool {
    forall|i: int| 0 <= i < bytes.len() ==> is_letter(#[trigger] bytes[i])
}

/// The validity rule of a chunk type: four ASCII letters, the third uppercase.
pub open spec fn valid_type(bytes: Seq<u8>) -> bool {
    &&& bytes.len() == 4
    &&& all_letters(bytes)
    &&& is_upper(bytes[2])
}

/// A sequence of ASCII letters is valid UTF-8.
pub proof fn lemma_letters_are_utf8(bytes: Seq<u8>)
    requires
        all_letters(bytes),
    ensures
        valid_utf8(bytes),
{
    assert(bytes.subrange(0, 0) =~= Seq::<u8>::empty());
    assert(vstd::utf8::partial_valid_utf8(bytes, 0));
    assert forall|i: int| 0 <= i < bytes.len() implies #[trigger] vstd::utf8::is_leading_byte_width_1(
        bytes[i],
    ) by {
        assert(is_letter(bytes[i]));
    }
    vstd::utf8::partial_valid_utf8_extend_ascii_block(bytes, 0, bytes.len() as int);
    assert(bytes.subrange(0, bytes.len() as int) =~= bytes);
}

fn byte_is_upper(b: u8) -> (r: bool)
    ensures
        r == is_upper(b),
{
    0x41 <= b && b <= 0x5a
}

fn byte_is_lower(b: u8) -> (r: bool)
    ensures
        r == is_lower(b),
{
    0x61 <= b && b <= 0x7a
}

/// Why a text is not a chunk type.
#[derive(Debug, PartialEq, Eq, Structural, Clone, Copy)]
pub enum ChunkTypeError {
    /// The text is not four bytes long; holds the length it has.
    ByteLengthError(usize),
    /// The text is four bytes long and one of them is not an ASCII letter.
    InvalidCharacter,
}

impl ChunkTypeError {
    /// The message of the error.
    pub open spec fn message(self) -> Seq<char> {
        match self {
            ChunkTypeError::ByteLengthError(n) => "Expected 4 bytes but received "@ + decimal(
                n as nat,
            ) + " when creating chunk type"@,
            ChunkTypeError::InvalidCharacter => "Input contains one or more invalid characters"@,
        }
    }

    /// The message of the error, as text.
    pub fn to_string(&self) -> (r: String)
        ensures
            r@ == self.message(),
    {
        match self {
            ChunkTypeError::ByteLengthError(n) => {
                let mut s = "Expected 4 bytes but received ".to_owned();
                s.append(decimal_string(*n as u64).as_str());
                s.append(" when creating chunk type");
                s
            },
            ChunkTypeError::InvalidCharacter => {
                "Input contains one or more invalid characters".to_owned()
            },
        }
    }
}

/// A four-byte chunk type. Its model is the sequence of its four bytes.
///
/// A chunk type made by [`ChunkType::from_bytes`] holds any four bytes; one
/// made by [`ChunkType::from_text`] holds four ASCII letters. The difference is
/// deliberate: whether a type may head a chunk is what [`ChunkType::is_valid`]
/// answers, whichever way the value was made.
#[derive(Debug, Eq, Clone, Copy)]
pub struct ChunkType {
    bytes: [u8; 4],
}

impl View for ChunkType {
    type V = Seq<u8>;

    closed spec fn view(&self) -> Seq<u8> {
        self.bytes@
    }
}

/// Two chunk types are equal when their bytes are.
impl PartialEq for ChunkType {
    fn eq(&self, other: &ChunkType) -> (r: bool) {
        let same = self.bytes[0] == other.bytes[0] && self.bytes[1] == other.bytes[1]
            && self.bytes[2] == other.bytes[2] && self.bytes[3] == other.bytes[3];
        assert(same == (self@ =~= other@));
        same
    }
}

impl PartialEqSpecImpl for ChunkType {
    open spec fn obeys_eq_spec() -> bool {
        true
    }

    open spec fn eq_spec(&self, other: &ChunkType) -> bool {
        self@ == other@
    }
}

impl ChunkType {
    /// A chunk type always has four bytes.
    pub broadcast proof fn lemma_len(self)
        ensures
            #[trigger] self@.len() == 4,
    {
    }

    /// The chunk type that holds `bytes` as they are. No byte is examined.
    pub fn from_bytes(bytes: [u8; 4]) -> (t: ChunkType)
        ensures
            t@ == bytes@,
    {
        ChunkType { bytes }
    }

    /// The chunk type spelled by `s`, which must be four ASCII letters.
    ///
    /// The length is tested first, so a text of another length is a
    /// `ByteLengthError` whatever it holds.
    pub fn from_text(s: &str) -> (r: Result<ChunkType, ChunkTypeError>)
        ensures
            match r {
                Ok(t) => t@ == encode_utf8(s@) && t@.len() == 4 && all_letters(t@),
                Err(ChunkTypeError::ByteLengthError(n)) => n == encode_utf8(s@).len() && n != 4,
                Err(ChunkTypeError::InvalidCharacter) => encode_utf8(s@).len() == 4 && !all_letters(
                    encode_utf8(s@),
                ),
            },
    {
        let raw = s.as_bytes();
        if raw.len() != 4 {
            return Err(ChunkTypeError::ByteLengthError(raw.len()));
        }
        let mut i: usize = 0;
        while i < 4
            invariant
                raw@ == encode_utf8(s@),
                raw@.len() == 4,
                0 <= i <= 4,
                forall|j: int| 0 <= j < i ==> is_letter(#[trigger] raw@[j]),
            decreases 4 - i,
        {
            let b: u8 = raw[i];
            if !(byte_is_upper(b) || byte_is_lower(b)) {
                assert(!is_letter(encode_utf8(s@)[i as int]));
                return Err(ChunkTypeError::InvalidCharacter);
            }
            i += 1;
        }
        let t = ChunkType::from_bytes([raw[0], raw[1], raw[2], raw[3]]);
        assert(t@ =~= raw@);
        Ok(t)
    }

    /// A copy of the four bytes.
    pub fn bytes(&self) -> (r: [u8; 4])
        ensures
            r@ == self@,
    {
        self.bytes
    }

    /// Whether the type may head a chunk: four ASCII letters, the third
    /// uppercase.
    pub fn is_valid(&self) -> (r: bool)
        ensures
            r == valid_type(self@),
    {
        let mut i: usize = 0;
        while i < 4
            invariant
                0 <= i <= 4,
                forall|j: int| 0 <= j < i ==> is_letter(#[trigger] self@[j]),
            decreases 4 - i,
        {
            let b: u8 = self.bytes[i];
            if !(byte_is_upper(b) || byte_is_lower(b)) {
                return false;
            }
            i += 1;
        }
        self.is_reserved_bit_valid()
    }

    /// Whether the chunk is critical: byte 0 is uppercase.
    pub fn is_critical(&self) -> (r: bool)
        ensures
            r == is_upper(self@[0]),
    {
        byte_is_upper(self.bytes[0])
    }

    /// Whether the chunk is public: byte 1 is uppercase.
    pub fn is_public(&self) -> (r: bool)
        ensures
            r == is_upper(self@[1]),
    {
        byte_is_upper(self.bytes[1])
    }

    /// Whether the reserved bit is valid: byte 2 is uppercase.
    pub fn is_reserved_bit_valid(&self) -> (r: bool)
        ensures
            r == is_upper(self@[2]),
    {
        byte_is_upper(self.bytes[2])
    }

    /// Whether the chunk is safe to copy: byte 3 is lowercase.
    pub fn is_safe_to_copy(&self) -> (r: bool)
        ensures
            r == is_lower(self@[3]),
    {
        byte_is_lower(self.bytes[3])
    }

    /// The four bytes as text, where they are valid UTF-8; `None` where they
    /// are not, which can happen only to a type made from raw bytes.
    pub fn text(&self) -> (r: Option<String>)
        ensures
            r.is_some() <==> valid_utf8(self@),
            r matches Some(s) ==> s@ == decode_utf8(self@),
            all_letters(self@) ==> r.is_some(),
    {
        proof {
            if all_letters(self@) {
                lemma_letters_are_utf8(self@);
            }
        }
        decode_text(self.bytes.as_slice())
    }

    /// The four bytes as text. The bytes must be valid UTF-8, as those of
    /// every type of four ASCII letters are.
    pub fn to_string(&self) -> (r: String)
        requires
            valid_utf8(self@),
        ensures
            r@ == decode_utf8(self@),
    {
        self.text().unwrap()
    }
}

/// Conversion from raw bytes never fails; it is [`ChunkType::from_bytes`].
impl TryFrom<[u8; 4]> for ChunkType {
    type Error = ChunkTypeError;

    fn try_from(bytes: [u8; 4]) -> (r: Result<ChunkType, ChunkTypeError>)
        ensures
            r is Ok,
            r.unwrap()@ == bytes@,
    {
        Ok(ChunkType { bytes })
    }
}

impl vstd::std_specs::convert::TryFromSpecImpl<[u8; 4]> for ChunkType {
    open spec fn obeys_try_from_spec() -> bool {
        true
    }

    closed spec fn try_from_spec(v: [u8; 4]) -> Result<ChunkType, ChunkTypeError> {
        Ok(ChunkType { bytes: v })
    }
}

/// Parsing a text is [`ChunkType::from_text`].
impl std::str::FromStr for ChunkType {
    type Err = ChunkTypeError;

    fn from_str(s: &str) -> (r: Result<ChunkType, ChunkTypeError>)
        ensures
            match r {
                Ok(t) => t@ == encode_utf8(s@) && t@.len() == 4 && all_letters(t@),
                Err(ChunkTypeError::ByteLengthError(n)) => n == encode_utf8(s@).len() && n != 4,
                Err(ChunkTypeError::InvalidCharacter) => encode_utf8(s@).len() == 4 && !all_letters(
                    encode_utf8(s@),
                ),
            },
    {
        ChunkType::from_text(s)
    }
}

} // verus!
