//! One chunk record: length, type, payload and CRC-32 checksum.

use crate::chunk_type::{all_letters, is_type_code, ChunkType};
use crate::conversions::{
    append_byte_chars, append_bytes, be_bytes, be_value, byte_chars, bytes_to_u32,
    lemma_be_value_of_bytes, lemma_bytes_of_be_value, u32_to_bytes,
};
use vstd::prelude::*;

verus! {

/// The CRC-32 (ISO-HDLC, as used by PNG and zip) of a byte sequence.
pub uninterp spec fn crc32_of(bytes: Seq<u8>) -> u32;

/// Relies on `crc::Crc::<u32>::checksum` with the `CRC_32_ISO_HDLC`
/// algorithm: the checksum of `bytes`, which depends on the bytes alone.
#[verifier::external_body]
fn crc32_checksum(bytes: &[u8]) -> (r: u32)
    ensures
        r == crc32_of(bytes@),
{
    crc::Crc::<u32>::new(&crc::CRC_32_ISO_HDLC).checksum(bytes)
}

/// What a chunk holds, as plain values.
pub struct ChunkView {
    pub length: u32,
    pub kind: Seq<u8>,
    pub data: Seq<u8>,
    pub crc: u32,
}

/// The bytes that the checksum of a chunk covers: its type, then its payload.
pub open spec fn crc_input(c: ChunkView) -> Seq<u8> {
    c.kind + c.data
}

/// A consistent chunk: a valid type, a length that counts the payload and
/// a checksum over type and payload.
pub open spec fn valid_chunk(c: ChunkView) -> bool {
    &&& is_type_code(c.kind)
    &&& c.length == c.data.len()
    &&& c.crc == crc32_of(crc_input(c))
}

/// The wire form of a chunk: big-endian length, type, payload, big-endian
/// checksum.
#[verifier::opaque]
pub open spec fn chunk_bytes(c: ChunkView) -> Seq<u8> {
    be_bytes(c.length) + c.kind + c.data + be_bytes(c.crc)
}

/// The reason a byte sequence is not a chunk.
#[derive(Debug, Clone, Copy, PartialEq, Eq, Structural)]
pub enum ChunkFault {
    /// Fewer than the twelve bytes of length, type and checksum.
    TooShort,
    /// The declared length is not the payload's size.
    LengthMismatch,
    /// A type byte is not an ASCII letter.
    InvalidType,
    /// The stored checksum is not the one computed over type and payload.
    ChecksumMismatch,
}

/// Represents an error met while reading a chunk from bytes.
#[derive(Debug, Clone, Copy, PartialEq, Eq, Structural)]
pub struct ParseChunkError {
    pub fault: ChunkFault,
}

/// Represents a payload whose declared length disagrees with its size.
#[derive(Debug, Clone, Copy, PartialEq, Eq, Structural)]
pub struct DataError;

/// The size of a chunk beyond its payload: length, type and checksum.
pub const ENVELOPE_LEN: usize = 12;

/// Reads a chunk from `s`, where `computed_crc` is the checksum of the bytes
/// between the length field and the stored checksum.
pub open spec fn decode_chunk(s: Seq<u8>, computed_crc: u32) -> Result<ChunkView, ChunkFault> {
    if s.len() < 12 {
        Err(ChunkFault::TooShort)
    } else if be_value(s.subrange(0, 4)) != s.len() - 12 {
        Err(ChunkFault::LengthMismatch)
    } else if !all_letters(s.subrange(4, 8)) {
        Err(ChunkFault::InvalidType)
    } else if be_value(s.subrange(s.len() - 4, s.len() as int)) != computed_crc {
        Err(ChunkFault::ChecksumMismatch)
    } else {
        Ok(
            ChunkView {
                length: (s.len() - 12) as u32,
                kind: s.subrange(4, 8),
                data: s.subrange(8, s.len() - 4),
                crc: computed_crc,
            },
        )
    }
}

/// Reads a chunk from `s`, checking its stored checksum.
pub open spec fn parse_chunk(s: Seq<u8>) -> Result<ChunkView, ChunkFault> {
    if s.len() < 12 {
        Err(ChunkFault::TooShort)
    } else {
        decode_chunk(s, crc32_of(s.subrange(4, s.len() - 4)))
    }
}

/// A consistent chunk, written out and read back, is the same chunk.
pub proof fn lemma_chunk_round_trip(c: ChunkView)
    requires
        valid_chunk(c),
    ensures
        parse_chunk(chunk_bytes(c)) == Ok::<ChunkView, ChunkFault>(c),
{
    reveal(chunk_bytes);
    let s = chunk_bytes(c);
    let n = s.len();
    lemma_be_value_of_bytes(c.length);
    lemma_be_value_of_bytes(c.crc);
    assert(s.subrange(0, 4) =~= be_bytes(c.length));
    assert(s.subrange(4, 8) =~= c.kind);
    assert(s.subrange(n - 4, n as int) =~= be_bytes(c.crc));
    assert(s.subrange(4, n - 4) =~= crc_input(c));
    assert(s.subrange(8, n - 4) =~= c.data);
}

/// Bytes that read as a chunk are exactly that chunk's wire form.
pub proof fn lemma_parsed_chunk_bytes(s: Seq<u8>)
    requires
        parse_chunk(s) is Ok,
    ensures
        chunk_bytes(parse_chunk(s)->Ok_0) == s,
        valid_chunk(parse_chunk(s)->Ok_0),
{
    reveal(chunk_bytes);
    let c = parse_chunk(s)->Ok_0;
    let n = s.len();
    lemma_bytes_of_be_value(s.subrange(0, 4));
    lemma_bytes_of_be_value(s.subrange(n - 4, n as int));
    assert(crc_input(c) =~= s.subrange(4, n - 4));
    assert(chunk_bytes(c) =~= s.subrange(0, 4) + s.subrange(4, 8) + s.subrange(8, n - 4)
        + s.subrange(n - 4, n as int));
    assert(chunk_bytes(c) =~= s);
}

/// A buffer whose declared length is not its size less twelve is no chunk.
pub proof fn lemma_length_enforced(s: Seq<u8>)
    requires
        s.len() < 12 || be_value(s.subrange(0, 4)) != s.len() - 12,
    ensures
        parse_chunk(s) is Err,
{
}

/// A well-framed buffer whose stored checksum is not the CRC-32 of its type
/// and payload is refused for that reason.
pub proof fn lemma_checksum_enforced(s: Seq<u8>)
    requires
        s.len() >= 12,
        be_value(s.subrange(0, 4)) == s.len() - 12,
        all_letters(s.subrange(4, 8)),
        be_value(s.subrange(s.len() - 4, s.len() as int)) != crc32_of(s.subrange(4, s.len() - 4)),
    ensures
        parse_chunk(s) == Err::<ChunkView, ChunkFault>(ChunkFault::ChecksumMismatch),
{
}

/// Represents one chunk of a PNG file.
pub struct Chunk {
    length: u32,
    chunk_type: ChunkType,
    chunk_data_bytes: Vec<u8>,
    crc: u32,
}

impl View for Chunk {
    type V = ChunkView;

    closed spec fn view(&self) -> ChunkView {
        ChunkView {
            length: self.length,
            kind: self.chunk_type@,
            data: self.chunk_data_bytes@,
            crc: self.crc,
        }
    }
}

/// A parse result as plain values.
pub open spec fn result_view(r: Result<Chunk, ParseChunkError>) -> Result<ChunkView, ChunkFault> {
    match r {
        Ok(c) => Ok(c@),
        Err(e) => Err(e.fault),
    }
}

/// Checks the framing of a chunk in `data`, given the checksum
/// `computed_crc` of the bytes between its length field and its stored
/// checksum: the length, the type letters and the stored checksum. On
/// success gives the chunk's type.
pub fn check_frame(data: &[u8], computed_crc: u32) -> (r: Result<ChunkType, ParseChunkError>)
    ensures
        match r {
            Ok(t) => decode_chunk(data@, computed_crc) is Ok && t@ == data@.subrange(4, 8),
            Err(e) => decode_chunk(data@, computed_crc) == Err::<ChunkView, ChunkFault>(e.fault),
        },
{
    let n = data.len();
    if n < ENVELOPE_LEN {
        return Err(ParseChunkError { fault: ChunkFault::TooShort });
    }
    let length = bytes_to_u32([data[0], data[1], data[2], data[3]]);
    proof {
        assert(data@.subrange(0, 4) =~= seq![data@[0], data@[1], data@[2], data@[3]]);
    }
    if length as usize != n - ENVELOPE_LEN {
        return Err(ParseChunkError { fault: ChunkFault::LengthMismatch });
    }
    let letters = ChunkType::from_bytes([data[4], data[5], data[6], data[7]]);
    proof {
        assert(data@.subrange(4, 8) =~= seq![data@[4], data@[5], data@[6], data@[7]]);
    }
    let chunk_type = match letters {
        Ok(t) => t,
        Err(_) => return Err(ParseChunkError { fault: ChunkFault::InvalidType }),
    };
    let end = n - 4;
    let crc = bytes_to_u32([data[end], data[end + 1], data[end + 2], data[end + 3]]);
    proof {
        assert(data@.subrange(end as int, n as int) =~= seq![
            data@[end as int],
            data@[end + 1],
            data@[end + 2],
            data@[end + 3],
        ]);
    }
    if crc != computed_crc {
        return Err(ParseChunkError { fault: ChunkFault::ChecksumMismatch });
    }
    Ok(chunk_type)
}

impl Chunk {
    #[verifier::type_invariant]
    closed spec fn inv(self) -> bool {
        &&& self.length == self.chunk_data_bytes@.len()
        &&& self.crc == crc32_of(self.chunk_type@ + self.chunk_data_bytes@)
    }

    /// Makes a chunk of the given type around `data`, with its length and
    /// checksum computed.
    pub fn new(chunk_type: ChunkType, data: Vec<u8>) -> (r: Chunk)
        requires
            data@.len() <= u32::MAX,
        ensures
            r@.kind == chunk_type@,
            r@.data == data@,
            r@.length == data@.len(),
            r@.crc == crc32_of(chunk_type@ + data@),
            valid_chunk(r@),
    {
        let length = data.len() as u32;
        let type_bytes = chunk_type.bytes();
        let mut combined: Vec<u8> = Vec::new();
        append_bytes(&mut combined, &type_bytes);
        append_bytes(&mut combined, data.as_slice());
        let crc = crc32_checksum(combined.as_slice());
        Chunk { length, chunk_type, chunk_data_bytes: data, crc }
    }

    /// Reads a chunk from `data`: a big-endian length that counts the
    /// payload, four letters of type, the payload, and a big-endian CRC-32
    /// over type and payload.
    pub fn parse(data: &[u8]) -> (r: Result<Chunk, ParseChunkError>)
        ensures
            result_view(r) == parse_chunk(data@),
            r matches Ok(c) ==> valid_chunk(c@),
    {
        let n = data.len();
        if n < ENVELOPE_LEN {
            return Err(ParseChunkError { fault: ChunkFault::TooShort });
        }
        let end = n - 4;
        let computed = crc32_checksum(vstd::slice::slice_subrange(data, 4, end));
        let chunk_type = match check_frame(data, computed) {
            Ok(t) => t,
            Err(e) => return Err(e),
        };
        let length = (n - ENVELOPE_LEN) as u32;
        let mut payload: Vec<u8> = Vec::new();
        append_bytes(&mut payload, vstd::slice::slice_subrange(data, 8, end));
        proof {
            assert(chunk_type@ + payload@ =~= data@.subrange(4, end as int));
        }
        Ok(Chunk { length, chunk_type, chunk_data_bytes: payload, crc: computed })
    }

    /// The length of the payload.
    pub fn length(&self) -> (r: u32)
        ensures
            r == self@.length,
            r == self@.data.len(),
    {
        proof {
            use_type_invariant(self);
        }
        self.length
    }

    /// The type of this chunk.
    pub fn chunk_type(&self) -> (r: &ChunkType)
        ensures
            r@ == self@.kind,
    {
        &self.chunk_type
    }

    /// The payload.
    pub fn data(&self) -> (r: &[u8])
        ensures
            r@ == self@.data,
    {
        self.chunk_data_bytes.as_slice()
    }

    /// The stored checksum: the CRC-32 of the type, then the payload.
    pub fn crc(&self) -> (r: u32)
        ensures
            r == self@.crc,
            r == crc32_of(crc_input(self@)),
    {
        proof {
            use_type_invariant(self);
        }
        self.crc
    }

    /// The payload as text, one character for each byte.
    pub fn data_as_string(&self) -> (r: Result<String, DataError>)
        ensures
            r matches Ok(s) && s@ == byte_chars(self@.data),
    {
        proof {
            use_type_invariant(self);
        }
        let data = self.data();
        let mut data_str = String::new();
        append_byte_chars(&mut data_str, data);
        if self.length as usize != data.len() {
            return Err(DataError);
        }
        Ok(data_str)
    }

    /// The payload as text, as `data_as_string` gives it, or a notice in its
    /// place where that fails.
    pub fn to_string(&self) -> (r: String)
        ensures
            r@ == byte_chars(self@.data),
    {
        match self.data_as_string() {
            Ok(s) => s,
            Err(_) => String::from_str("There was an error displaying chunk data"),
        }
    }

    /// The wire form of this chunk.
    pub fn as_bytes(&self) -> (r: Vec<u8>)
        ensures
            r@ == chunk_bytes(self@),
    {
        reveal(chunk_bytes);
        let mut chunk_as_vec: Vec<u8> = Vec::new();
        append_bytes(&mut chunk_as_vec, &u32_to_bytes(self.length));
        append_bytes(&mut chunk_as_vec, &self.chunk_type.bytes());
        append_bytes(&mut chunk_as_vec, self.chunk_data_bytes.as_slice());
        append_bytes(&mut chunk_as_vec, &u32_to_bytes(self.crc));
        chunk_as_vec
    }
}

impl<'a> TryFrom<&'a Vec<u8>> for Chunk {
    type Error = ParseChunkError;

    fn try_from(data: &'a Vec<u8>) -> (r: Result<Chunk, ParseChunkError>)
        ensures
            result_view(r) == parse_chunk(data@),
            r matches Ok(c) ==> valid_chunk(c@),
    {
        Chunk::parse(data.as_slice())
    }
}

/// A chunk holds a `Vec`, which no spec expression can build, so there is
/// no spec function for the result: the `ensures` of `try_from` states it.
impl<'a> vstd::std_specs::convert::TryFromSpecImpl<&'a Vec<u8>> for Chunk {
    open spec fn obeys_try_from_spec() -> bool {
        false
    }

    open spec fn try_from_spec(data: &'a Vec<u8>) -> Result<Chunk, ParseChunkError> {
        arbitrary()
    }
}

} // verus!
