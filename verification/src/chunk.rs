//! Chunks and their wire layout.
//!
//! ```text
//! offset 0     4 bytes, big-endian   length N of the data
//! offset 4     4 bytes               chunk type
//! offset 8     N bytes               data
//! offset 8+N   4 bytes, big-endian   CRC-32/IEEE over chunk type and data
//! ```
//!
//! Bytes after offset `12+N` belong to whatever follows the chunk and are not
//! looked at.

use crate::checksum::{checksum_ieee, crc32_ieee};
use crate::chunk_type::{valid_type, ChunkType};
use crate::text::{decimal, decimal_string, decode_text};
use vstd::prelude::*;
use vstd::slice::{slice_subrange, slice_to_vec};
use vstd::utf8::{decode_utf8, valid_utf8};

verus! {

/// The four big-endian bytes of `n`.
pub open spec fn be_bytes(n: u32) -> Seq<u8> {
    seq![
        (n / 0x100_0000) as u8,
        (n / 0x1_0000 % 0x100) as u8,
        (n / 0x100 % 0x100) as u8,
        (n % 0x100) as u8,
    ]
}

/// The number whose big-endian bytes are the first four of `b`.
pub open spec fn be_value(b: Seq<u8>) -> u32
    recommends
        b.len() >= 4,
{
    (b[0] * 0x100_0000 + b[1] * 0x1_0000 + b[2] * 0x100 + b[3]) as u32
}

/// The length field of a chunk with `len` bytes of data: `len` itself where
/// it fits in 32 bits, and its low 32 bits where it does not.
pub open spec fn length_field(len: nat) -> u32 {
    (len % 0x1_0000_0000) as u32
}

/// Reading back the big-endian bytes of a number gives the number.
pub proof fn lemma_be_value_of_be_bytes(n: u32)
    ensures
        be_bytes(n).len() == 4,
        be_value(be_bytes(n)) == n,
{
}

/// The model of a chunk: the bytes of its type and its data.
pub struct ChunkView {
    pub chunk_type: Seq<u8>,
    pub data: Seq<u8>,
}

impl ChunkView {
    /// The bytes that the checksum covers: the chunk type, then the data.
    pub open spec fn covered(self) -> Seq<u8> {
        self.chunk_type + self.data
    }

    /// The checksum of the chunk.
    pub open spec fn crc(self) -> u32 {
        crc32_ieee(self.covered())
    }

    /// The wire layout of the chunk with `crc` in the checksum field.
    pub open spec fn framed(self, crc: u32) -> Seq<u8> {
        be_bytes(length_field(self.data.len())) + self.chunk_type + self.data + be_bytes(crc)
    }

    /// The wire layout of the chunk.
    pub open spec fn encoded(self) -> Seq<u8> {
        self.framed(self.crc())
    }

    /// The summary of the chunk for a human reader: a line for each of length,
    /// chunk type, size of the data and checksum, between braces.
    pub open spec fn summary(self) -> Seq<char> {
        "Chunk {\n  Length: "@ + decimal(self.data.len()) + "\n  Type: "@ + decode_utf8(
            self.chunk_type,
        ) + "\n  Data: "@ + decimal(self.data.len()) + " bytes\n  Crc: "@ + decimal(
            self.crc() as nat,
        ) + "\n}\n"@
    }
}

/// Why a buffer is not a chunk, or why a chunk's data is not text.
#[derive(Debug, PartialEq, Eq, Structural, Clone, Copy)]
pub enum ChunkError {
    /// The checksum in the buffer (first) is not the checksum of the chunk
    /// type and data in the buffer (second).
    InvalidCrc(u32, u32),
    /// The buffer is shorter than the twelve bytes of an empty chunk.
    InputTooSmall,
    /// The chunk type in the buffer is not a valid one.
    InvalidChunkType,
    /// The buffer ends before the data and checksum that its length field
    /// announces.
    BoundsError,
    /// The data is not valid UTF-8.
    NotUtf8,
}

impl ChunkError {
    /// The message of the error.
    pub open spec fn message(self) -> Seq<char> {
        match self {
            ChunkError::InvalidCrc(expected, actual) => "Expected CRC: "@ + decimal(expected as nat)
                + " does not match actual CRC: "@ + decimal(actual as nat),
            ChunkError::InputTooSmall => "Input String is too small to be a valid Chunk"@,
            ChunkError::InvalidChunkType => "Invalid ChunkType"@,
            ChunkError::BoundsError => "Declared length exceeds the input"@,
            ChunkError::NotUtf8 => "Data is not valid UTF-8"@,
        }
    }

    /// The message of the error, as text.
    pub fn to_string(&self) -> (r: String)
        ensures
            r@ == self.message(),
    {
        match self {
            ChunkError::InvalidCrc(expected, actual) => {
                let mut s = "Expected CRC: ".to_owned();
                s.append(decimal_string(*expected as u64).as_str());
                s.append(" does not match actual CRC: ");
                s.append(decimal_string(*actual as u64).as_str());
                s
            },
            ChunkError::InputTooSmall => "Input String is too small to be a valid Chunk".to_owned(),
            ChunkError::InvalidChunkType => "Invalid ChunkType".to_owned(),
            ChunkError::BoundsError => "Declared length exceeds the input".to_owned(),
            ChunkError::NotUtf8 => "Data is not valid UTF-8".to_owned(),
        }
    }
}

/// The length that the buffer declares for its data.
pub open spec fn declared_len(bytes: Seq<u8>) -> int
    recommends
        bytes.len() >= 4,
{
    be_value(bytes) as int
}

/// What the layout makes of a buffer before any checksum is computed: the
/// chunk it frames and the checksum it declares, or the reason it frames none.
pub open spec fn frame_of(bytes: Seq<u8>) -> Result<(ChunkView, u32), ChunkError> {
    let n = declared_len(bytes);
    if bytes.len() < 12 {
        Err(ChunkError::InputTooSmall)
    } else if !valid_type(bytes.subrange(4, 8)) {
        Err(ChunkError::InvalidChunkType)
    } else if n > bytes.len() - 12 {
        Err(ChunkError::BoundsError)
    } else {
        Ok(
            (
                ChunkView { chunk_type: bytes.subrange(4, 8), data: bytes.subrange(8, 8 + n) },
                be_value(bytes.subrange(8 + n, 12 + n)),
            ),
        )
    }
}

/// The verdict on a framed chunk once its checksum `computed` is known.
pub open spec fn confirmed(chunk: ChunkView, declared: u32, computed: u32) -> Result<
    ChunkView,
    ChunkError,
> {
    if declared == computed {
        Ok(chunk)
    } else {
        Err(ChunkError::InvalidCrc(declared, computed))
    }
}

/// What a buffer parses to.
pub open spec fn parsed(bytes: Seq<u8>) -> Result<ChunkView, ChunkError> {
    match frame_of(bytes) {
        Ok((chunk, declared)) => confirmed(chunk, declared, chunk.crc()),
        Err(e) => Err(e),
    }
}

/// Round trip: the wire layout of a chunk with a valid chunk type and data
/// that the length field can count parses back to that chunk. Whatever follows
/// the layout in the buffer (`rest`, which may be empty) changes nothing. The
/// checksum is a function of chunk type and data, so it comes back as well.
pub proof fn lemma_parse_encoded(c: ChunkView, rest: Seq<u8>)
    requires
        valid_type(c.chunk_type),
        c.data.len() <= u32::MAX,
    ensures
        parsed(c.encoded()) == Ok::<ChunkView, ChunkError>(c),
        parsed(c.encoded() + rest) == Ok::<ChunkView, ChunkError>(c),
{
    lemma_frame_of_framed(c, c.crc(), rest);
    lemma_frame_of_framed(c, c.crc(), Seq::empty());
    assert(c.encoded() + Seq::<u8>::empty() =~= c.encoded());
}

/// Corruption: the wire layout of such a chunk with any other number in the
/// checksum field is rejected, and the error holds that number and the true
/// checksum.
pub proof fn lemma_wrong_checksum_rejected(c: ChunkView, declared: u32)
    requires
        valid_type(c.chunk_type),
        c.data.len() <= u32::MAX,
    ensures
        parsed(c.framed(declared)) == confirmed(c, declared, c.crc()),
        declared != c.crc() ==> parsed(c.framed(declared)) == Err::<ChunkView, ChunkError>(
            ChunkError::InvalidCrc(declared, c.crc()),
        ),
{
    lemma_frame_of_framed(c, declared, Seq::empty());
    assert(c.framed(declared) + Seq::<u8>::empty() =~= c.framed(declared));
}

/// Truncation: a buffer of fewer than twelve bytes is too small, whatever it
/// holds.
pub proof fn lemma_short_buffer_rejected(bytes: Seq<u8>)
    requires
        bytes.len() < 12,
    ensures
        parsed(bytes) == Err::<ChunkView, ChunkError>(ChunkError::InputTooSmall),
{
}

/// Oversized length: a buffer with a valid chunk type whose length field asks
/// for more bytes than follow it, the four of the checksum counted, is out of
/// bounds. (With an invalid chunk type the buffer is rejected for that, one
/// step earlier.)
pub proof fn lemma_oversized_length_rejected(bytes: Seq<u8>)
    requires
        bytes.len() >= 12,
        valid_type(bytes.subrange(4, 8)),
        declared_len(bytes) > bytes.len() - 12,
    ensures
        parsed(bytes) == Err::<ChunkView, ChunkError>(ChunkError::BoundsError),
{
}

/// A buffer that parses to a chunk starts with the wire layout of that chunk.
pub proof fn lemma_parsed_is_prefix(bytes: Seq<u8>, c: ChunkView)
    requires
        parsed(bytes) == Ok::<ChunkView, ChunkError>(c),
    ensures
        c.encoded().len() <= bytes.len(),
        bytes.subrange(0, c.encoded().len() as int) == c.encoded(),
{
    let n = declared_len(bytes);
    lemma_be_bytes_of_be_value(bytes);
    lemma_be_bytes_of_be_value(bytes.subrange(8 + n, 12 + n));
    assert(bytes.subrange(0, 12 + n) =~= c.encoded());
}

/// Writing out the number read from four bytes gives those bytes.
pub proof fn lemma_be_bytes_of_be_value(b: Seq<u8>)
    requires
        b.len() >= 4,
    ensures
        be_bytes(be_value(b)) == b.subrange(0, 4),
{
    let b0 = b[0] as int;
    let b1 = b[1] as int;
    let b2 = b[2] as int;
    let b3 = b[3] as int;
    let v = b0 * 0x100_0000 + b1 * 0x1_0000 + b2 * 0x100 + b3;
    assert(v == be_value(b));
    assert(v / 0x100_0000 == b0);
    assert(v / 0x1_0000 == b0 * 0x100 + b1);
    assert(v / 0x100 == b0 * 0x1_0000 + b1 * 0x100 + b2);
    assert(v % 0x100 == b3);
    assert(be_bytes(be_value(b)) =~= b.subrange(0, 4));
}

/// The layout of a chunk around any checksum, followed by anything, frames
/// that chunk and that checksum.
proof fn lemma_frame_of_framed(c: ChunkView, crc: u32, rest: Seq<u8>)
    requires
        valid_type(c.chunk_type),
        c.data.len() <= u32::MAX,
    ensures
        frame_of(c.framed(crc) + rest) == Ok::<(ChunkView, u32), ChunkError>((c, crc)),
{
    let bytes = c.framed(crc) + rest;
    let n = c.data.len() as int;
    lemma_be_value_of_be_bytes(length_field(c.data.len()));
    lemma_be_value_of_be_bytes(crc);
    assert(bytes.subrange(0, 4) =~= be_bytes(length_field(c.data.len())));
    assert(be_value(bytes) == be_value(bytes.subrange(0, 4)));
    assert(declared_len(bytes) == n);
    assert(bytes.subrange(4, 8) =~= c.chunk_type);
    assert(bytes.subrange(8, 8 + n) =~= c.data);
    assert(bytes.subrange(8 + n, 12 + n) =~= be_bytes(crc));
}

fn u32_to_be(n: u32) -> (r: [u8; 4])
    ensures
        r@ == be_bytes(n),
{
    let r = [
        (n / 0x100_0000) as u8,
        (n / 0x1_0000 % 0x100) as u8,
        (n / 0x100 % 0x100) as u8,
        (n % 0x100) as u8,
    ];
    assert(r@ =~= be_bytes(n));
    r
}

fn u32_from_be(bytes: &[u8], at: usize) -> (r: u32)
    requires
        at + 4 <= bytes@.len(),
    ensures
        r == be_value(bytes@.subrange(at as int, at + 4)),
{
    let b0: u32 = bytes[at] as u32;
    let b1: u32 = bytes[at + 1] as u32;
    let b2: u32 = bytes[at + 2] as u32;
    let b3: u32 = bytes[at + 3] as u32;
    b0 * 0x100_0000 + b1 * 0x1_0000 + b2 * 0x100 + b3
}

fn append(out: &mut Vec<u8>, src: &[u8])
    ensures
        final(out)@ == old(out)@ + src@,
{
    let mut i: usize = 0;
    while i < src.len()
        invariant
            0 <= i <= src@.len(),
            out@ == old(out)@ + src@.subrange(0, i as int),
        decreases src@.len() - i,
    {
        out.push(src[i]);
        i += 1;
        assert(out@ =~= old(out)@ + src@.subrange(0, i as int));
    }
    assert(src@.subrange(0, i as int) =~= src@);
}

/// A chunk: a chunk type and the data it heads. Length and checksum are not
/// stored; both are computed from these two on demand.
pub struct Chunk {
    chunk_type: ChunkType,
    message_bytes: Vec<u8>,
}

impl View for Chunk {
    type V = ChunkView;

    closed spec fn view(&self) -> ChunkView {
        ChunkView { chunk_type: self.chunk_type@, data: self.message_bytes@ }
    }
}

impl Chunk {
    /// The bytes of the length field.
    pub const DATA_LENGTH_BYTES: usize = 4;

    /// The bytes of the chunk type.
    pub const CHUNK_TYPE_BYTES: usize = 4;

    /// The bytes of the checksum.
    pub const CRC_BYTES: usize = 4;

    /// The bytes of a chunk besides its data.
    pub const METADATA_BYTES: usize = 12;

    /// The chunk type of every chunk has four bytes.
    pub broadcast proof fn lemma_type_len(self)
        ensures
            #[trigger] self@.chunk_type.len() == 4,
    {
        self.chunk_type.lemma_len();
    }

    /// The chunk of `chunk_type` and `data`. The type is taken as it is, valid
    /// or not.
    pub fn new(chunk_type: ChunkType, data: Vec<u8>) -> (c: Chunk)
        ensures
            c@ == (ChunkView { chunk_type: chunk_type@, data: data@ }),
    {
        Chunk { chunk_type, message_bytes: data }
    }

    /// The number of bytes of data.
    pub fn length(&self) -> (r: usize)
        ensures
            r == self@.data.len(),
    {
        self.message_bytes.len()
    }

    /// The chunk type.
    pub fn chunk_type(&self) -> (r: &ChunkType)
        ensures
            r@ == self@.chunk_type,
    {
        &self.chunk_type
    }

    /// The data.
    pub fn data(&self) -> (r: &[u8])
        ensures
            r@ == self@.data,
    {
        self.message_bytes.as_slice()
    }

    /// The checksum over chunk type and data, computed anew at each call.
    pub fn crc(&self) -> (r: u32)
        ensures
            r == self@.crc(),
    {
        let mut covered: Vec<u8> = Vec::new();
        append(&mut covered, self.chunk_type.bytes().as_slice());
        append(&mut covered, self.message_bytes.as_slice());
        assert(covered@ =~= self@.covered());
        checksum_ieee(covered.as_slice())
    }

    /// The wire layout of the chunk: length, chunk type, data, checksum.
    pub fn as_bytes(&self) -> (r: Vec<u8>)
        ensures
            r@ == self@.encoded(),
    {
        let len = self.message_bytes.len();
        let field: u32 = (len as u64 % 0x1_0000_0000) as u32;
        let mut out: Vec<u8> = Vec::new();
        append(&mut out, u32_to_be(field).as_slice());
        append(&mut out, self.chunk_type.bytes().as_slice());
        append(&mut out, self.message_bytes.as_slice());
        append(&mut out, u32_to_be(self.crc()).as_slice());
        out
    }

    /// The data as text: `Err(NotUtf8)` exactly when the data is not valid
    /// UTF-8.
    pub fn data_as_string(&self) -> (r: Result<String, ChunkError>)
        ensures
            match r {
                Ok(s) => valid_utf8(self@.data) && s@ == decode_utf8(self@.data),
                Err(e) => !valid_utf8(self@.data) && e == ChunkError::NotUtf8,
            },
    {
        match decode_text(self.message_bytes.as_slice()) {
            Some(s) => Ok(s),
            None => Err(ChunkError::NotUtf8),
        }
    }

    /// The summary of the chunk for a human reader. The chunk type must be
    /// valid UTF-8, as every valid chunk type is.
    pub fn to_string(&self) -> (r: String)
        requires
            valid_utf8(self@.chunk_type),
        ensures
            r@ == self@.summary(),
    {
        let len = decimal_string(self.message_bytes.len() as u64);
        let mut s = "Chunk {\n  Length: ".to_owned();
        s.append(len.as_str());
        s.append("\n  Type: ");
        s.append(self.chunk_type.to_string().as_str());
        s.append("\n  Data: ");
        s.append(len.as_str());
        s.append(" bytes\n  Crc: ");
        s.append(decimal_string(self.crc() as u64).as_str());
        s.append("\n}\n");
        s
    }

    /// Splits a buffer by the layout, without computing any checksum: the
    /// chunk in the buffer and the checksum that the buffer declares for it.
    pub fn split(bytes: &[u8]) -> (r: Result<(Chunk, u32), ChunkError>)
        ensures
            match r {
                Ok((c, declared)) => frame_of(bytes@) == Ok::<(ChunkView, u32), ChunkError>(
                    (c@, declared),
                ),
                Err(e) => frame_of(bytes@) == Err::<(ChunkView, u32), ChunkError>(e),
            },
    {
        if bytes.len() < Chunk::METADATA_BYTES {
            return Err(ChunkError::InputTooSmall);
        }
        let declared_length = u32_from_be(bytes, 0);
        assert(bytes@.subrange(0, 4)[0] == bytes@[0]);
        assert(be_value(bytes@.subrange(0, 4)) == be_value(bytes@));
        let chunk_type = ChunkType::from_bytes([bytes[4], bytes[5], bytes[6], bytes[7]]);
        assert(chunk_type@ =~= bytes@.subrange(4, 8));
        if !chunk_type.is_valid() {
            return Err(ChunkError::InvalidChunkType);
        }
        let room = bytes.len() - Chunk::METADATA_BYTES;
        if (room as u64) < (declared_length as u64) {
            return Err(ChunkError::BoundsError);
        }
        let n = declared_length as usize;
        let data = slice_to_vec(slice_subrange(bytes, 8, 8 + n));
        let declared = u32_from_be(bytes, 8 + n);
        Ok((Chunk { chunk_type, message_bytes: data }, declared))
    }

    /// Accepts the chunk where the checksum `declared` for it is the checksum
    /// `computed` from it, and rejects it with both where it is not.
    pub fn confirm(self, declared: u32, computed: u32) -> (r: Result<Chunk, ChunkError>)
        ensures
            match r {
                Ok(c) => c == self && declared == computed,
                Err(e) => e == ChunkError::InvalidCrc(declared, computed) && declared != computed,
            },
    {
        if declared != computed {
            return Err(ChunkError::InvalidCrc(declared, computed));
        }
        Ok(self)
    }

    /// Parses a buffer that starts with a chunk. The tests are made in this
    /// order, and the first that fails names the error: at least twelve
    /// bytes; a valid chunk type; room for the declared data and the
    /// checksum; the declared checksum equal to the computed one.
    pub fn parse(bytes: &[u8]) -> (r: Result<Chunk, ChunkError>)
        ensures
            match r {
                Ok(c) => parsed(bytes@) == Ok::<ChunkView, ChunkError>(c@),
                Err(e) => parsed(bytes@) == Err::<ChunkView, ChunkError>(e),
            },
            bytes@.len() < 12 ==> r == Err::<Chunk, ChunkError>(ChunkError::InputTooSmall),
    {
        match Chunk::split(bytes) {
            Ok((candidate, declared)) => {
                let computed = candidate.crc();
                candidate.confirm(declared, computed)
            },
            Err(e) => Err(e),
        }
    }
}

/// Conversion from a buffer is [`Chunk::parse`].
impl TryFrom<&[u8]> for Chunk {
    type Error = ChunkError;

    fn try_from(bytes: &[u8]) -> (r: Result<Chunk, ChunkError>)
        ensures
            match r {
                Ok(c) => parsed(bytes@) == Ok::<ChunkView, ChunkError>(c@),
                Err(e) => parsed(bytes@) == Err::<ChunkView, ChunkError>(e),
            },
    {
        Chunk::parse(bytes)
    }
}

/// A chunk owns a `Vec`, so no chunk can be written down as a value of the
/// model; what the conversion returns is stated by its own `ensures`, over the
/// view of the chunk, and not through `try_from_spec`.
impl vstd::std_specs::convert::TryFromSpecImpl<&[u8]> for Chunk {
    open spec fn obeys_try_from_spec() -> bool {
        false
    }

    open spec fn try_from_spec(v: &[u8]) -> Result<Chunk, ChunkError> {
        arbitrary()
    }
}

} // verus!
