//! The container: the PNG signature followed by an ordered list of chunks.

use crate::chunk::{
    chunk_bytes, lemma_parsed_chunk_bytes, parse_chunk, valid_chunk, Chunk, ChunkFault,
    ChunkView, ParseChunkError,
};
use crate::conversions::{append_bytes, be_value, bytes_to_u32};
use vstd::prelude::*;
use vstd::string::StringSliceAdditionalSpecFns;

verus! {

/// The eight bytes that open every PNG file.
pub open spec fn signature() -> Seq<u8> {
    seq![137u8, 80u8, 78u8, 71u8, 13u8, 10u8, 26u8, 10u8]
}

/// How many bytes the chunk at the front of `s` spans: twelve plus its
/// declared length, or all of `s` where that is more than `s` holds.
pub open spec fn chunk_extent(s: Seq<u8>) -> int {
    if s.len() < 12 || 12 + be_value(s.subrange(0, 4)) > s.len() {
        s.len() as int
    } else {
        12 + be_value(s.subrange(0, 4))
    }
}

/// Reads chunks one after another until `s` is used up.
pub open spec fn parse_chunks(s: Seq<u8>) -> Result<Seq<ChunkView>, ChunkFault>
    decreases s.len(),
{
    if s.len() == 0 {
        Ok(Seq::empty())
    } else {
        let e = chunk_extent(s);
        match parse_chunk(s.subrange(0, e)) {
            Err(f) => Err(f),
            Ok(c) => {
                if 0 < e <= s.len() {
                    match parse_chunks(s.subrange(e, s.len() as int)) {
                        Err(f) => Err(f),
                        Ok(rest) => Ok(seq![c] + rest),
                    }
                } else {
                    Err(ChunkFault::TooShort)
                }
            },
        }
    }
}

/// The wire form of a list of chunks, one after another.
pub open spec fn chunks_bytes(cs: Seq<ChunkView>) -> Seq<u8>
    decreases cs.len(),
{
    if cs.len() == 0 {
        Seq::empty()
    } else {
        chunk_bytes(cs[0]) + chunks_bytes(cs.drop_first())
    }
}

/// The wire form of a PNG holding `cs`.
pub open spec fn png_bytes(cs: Seq<ChunkView>) -> Seq<u8> {
    signature() + chunks_bytes(cs)
}

/// Represents an error met while reading a PNG from bytes.
#[derive(Debug, Clone, Copy, PartialEq, Eq, Structural)]
pub enum ParsePngError {
    /// The bytes do not open with the PNG signature.
    InvalidHeader,
    /// A chunk after the signature could not be read.
    InvalidChunk(ParseChunkError),
}

/// Represents a lookup for a chunk type that no chunk has.
#[derive(Debug, Clone, Copy, PartialEq, Eq, Structural)]
pub struct ChunkNotFound;

/// Reads a PNG: the signature, then chunks until the bytes are used up.
pub open spec fn parse_png(s: Seq<u8>) -> Result<Seq<ChunkView>, ParsePngError> {
    if s.len() < 8 || s.subrange(0, 8) != signature() {
        Err(ParsePngError::InvalidHeader)
    } else {
        match parse_chunks(s.subrange(8, s.len() as int)) {
            Ok(cs) => Ok(cs),
            Err(f) => Err(ParsePngError::InvalidChunk(ParseChunkError { fault: f })),
        }
    }
}

/// `i` is the first position in `cs` whose chunk has type `code`.
pub open spec fn is_first_match(cs: Seq<ChunkView>, code: Seq<u8>, i: int) -> bool {
    &&& 0 <= i < cs.len()
    &&& cs[i].kind == code
    &&& forall|j: int| 0 <= j < i ==> cs[j].kind != code
}

/// No chunk of `cs` has type `code`.
pub open spec fn no_match(cs: Seq<ChunkView>, code: Seq<u8>) -> bool {
    forall|j: int| 0 <= j < cs.len() ==> cs[j].kind != code
}

/// Chunks read so far, followed by the outcome of reading the rest.
pub open spec fn prepend(cs: Seq<ChunkView>, r: Result<Seq<ChunkView>, ChunkFault>) -> Result<
    Seq<ChunkView>,
    ChunkFault,
> {
    match r {
        Ok(rest) => Ok(cs + rest),
        Err(f) => Err(f),
    }
}

/// Writing out one more chunk appends its wire form.
pub proof fn lemma_chunks_bytes_push(cs: Seq<ChunkView>, c: ChunkView)
    ensures
        chunks_bytes(cs.push(c)) == chunks_bytes(cs) + chunk_bytes(c),
    decreases cs.len(),
{
    let longer = cs.push(c);
    assert(longer[0] == if cs.len() == 0 { c } else { cs[0] });
    if cs.len() == 0 {
        assert(longer.drop_first() =~= cs);
        assert(chunks_bytes(cs) == Seq::<u8>::empty());
        assert(chunks_bytes(longer) =~= chunks_bytes(cs) + chunk_bytes(c));
    } else {
        assert(longer.drop_first() =~= cs.drop_first().push(c));
        lemma_chunks_bytes_push(cs.drop_first(), c);
        assert(chunks_bytes(longer) =~= chunks_bytes(cs) + chunk_bytes(c));
    }
}

/// Reading a non-empty list of chunks reads one chunk, then the rest.
proof fn lemma_parse_chunks_step(s: Seq<u8>)
    requires
        s.len() > 0,
        parse_chunks(s) is Ok,
    ensures
        0 < chunk_extent(s) <= s.len(),
        parse_chunk(s.subrange(0, chunk_extent(s))) is Ok,
        parse_chunks(s.subrange(chunk_extent(s), s.len() as int)) is Ok,
        parse_chunks(s)->Ok_0 == seq![parse_chunk(s.subrange(0, chunk_extent(s)))->Ok_0]
            + parse_chunks(s.subrange(chunk_extent(s), s.len() as int))->Ok_0,
{
}

/// Bytes that read as a list of chunks are exactly the wire form of that
/// list.
pub proof fn lemma_chunks_round_trip(s: Seq<u8>)
    requires
        parse_chunks(s) is Ok,
    ensures
        chunks_bytes(parse_chunks(s)->Ok_0) == s,
    decreases s.len(),
{
    if s.len() > 0 {
        lemma_parse_chunks_step(s);
        let e = chunk_extent(s);
        let head = s.subrange(0, e);
        let tail = s.subrange(e, s.len() as int);
        lemma_parsed_chunk_bytes(head);
        lemma_chunks_round_trip(tail);
        let c = parse_chunk(head)->Ok_0;
        let rest = parse_chunks(tail)->Ok_0;
        let cs = parse_chunks(s)->Ok_0;
        assert(cs[0] == c);
        assert(cs.drop_first() =~= rest);
        assert(chunks_bytes(cs) == chunk_bytes(c) + chunks_bytes(rest));
        assert(chunk_bytes(c) == head);
        assert(chunks_bytes(rest) == tail);
        assert(s =~= head + tail);
    }
}

/// Every chunk in a list read from bytes is consistent.
pub proof fn lemma_parsed_chunks_valid(s: Seq<u8>)
    requires
        parse_chunks(s) is Ok,
    ensures
        forall|i: int|
            0 <= i < parse_chunks(s)->Ok_0.len() ==> valid_chunk(#[trigger] parse_chunks(s)->Ok_0[i]),
    decreases s.len(),
{
    if s.len() > 0 {
        lemma_parse_chunks_step(s);
        let e = chunk_extent(s);
        let head = s.subrange(0, e);
        let tail = s.subrange(e, s.len() as int);
        lemma_parsed_chunk_bytes(head);
        lemma_parsed_chunks_valid(tail);
        let rest = parse_chunks(tail)->Ok_0;
        let cs = parse_chunks(s)->Ok_0;
        assert forall|i: int| 0 <= i < cs.len() implies valid_chunk(#[trigger] cs[i]) by {
            if i > 0 {
                assert(cs[i] == rest[i - 1]);
            }
        }
    }
}

/// Bytes that read as a PNG are exactly the wire form of what was read.
pub proof fn lemma_png_round_trip(b: Seq<u8>)
    requires
        parse_png(b) is Ok,
    ensures
        png_bytes(parse_png(b)->Ok_0) == b,
{
    lemma_chunks_round_trip(b.subrange(8, b.len() as int));
    assert(b =~= b.subrange(0, 8) + b.subrange(8, b.len() as int));
}

/// Represents a PNG file: the signature and its chunks, in order.
pub struct Png {
    chunks: Vec<Chunk>,
}

impl View for Png {
    type V = Seq<ChunkView>;

    closed spec fn view(&self) -> Seq<ChunkView> {
        self.chunks@.map_values(|c: Chunk| c@)
    }
}

/// Whether `t` is the byte sequence `code`.
fn type_matches(t: &[u8; 4], code: &[u8]) -> (r: bool)
    ensures
        r == (t@ == code@),
{
    if code.len() != 4 {
        return false;
    }
    let r = t[0] == code[0] && t[1] == code[1] && t[2] == code[2] && t[3] == code[3];
    proof {
        if r {
            assert(t@ =~= code@);
        }
    }
    r
}

impl Png {
    /// The eight bytes that open every PNG file.
    pub const STANDARD_HEADER: [u8; 8] = [137, 80, 78, 71, 13, 10, 26, 10];

    /// Makes a PNG that holds `chunks`, in order.
    pub fn from_chunks(chunks: Vec<Chunk>) -> (r: Png)
        ensures
            r@ == chunks@.map_values(|c: Chunk| c@),
    {
        Png { chunks }
    }

    /// Reads a PNG from `bytes`: the signature, then chunks one after
    /// another until the bytes are used up.
    pub fn parse(bytes: &[u8]) -> (r: Result<Png, ParsePngError>)
        ensures
            match r {
                Ok(p) => parse_png(bytes@) == Ok::<Seq<ChunkView>, ParsePngError>(p@),
                Err(e) => parse_png(bytes@) == Err::<Seq<ChunkView>, ParsePngError>(e),
            },
            r matches Ok(p) ==> forall|i: int| 0 <= i < p@.len() ==> valid_chunk(#[trigger] p@[i]),
    {
        let n = bytes.len();
        if n < 8 {
            return Err(ParsePngError::InvalidHeader);
        }
        let header = Png::STANDARD_HEADER;
        assert(header@ =~= signature());
        for i in 0..8usize
            invariant
                n == bytes@.len(),
                n >= 8,
                header@ == signature(),
                forall|j: int| 0 <= j < i ==> bytes@[j] == signature()[j],
        {
            if bytes[i] != header[i] {
                assert(bytes@.subrange(0, 8)[i as int] != signature()[i as int]);
                return Err(ParsePngError::InvalidHeader);
            }
        }
        assert(bytes@.subrange(0, 8) =~= signature());
        let ghost body = bytes@.subrange(8, n as int);
        let mut chunks: Vec<Chunk> = Vec::new();
        let mut pos: usize = 8;
        assert(bytes@.subrange(pos as int, n as int) =~= body);
        assert(prepend(Seq::empty(), parse_chunks(body)) == parse_chunks(body)) by {
            if parse_chunks(body) is Ok {
                assert(Seq::<ChunkView>::empty() + parse_chunks(body)->Ok_0 =~= parse_chunks(body)->Ok_0);
            }
        }
        while pos < n
            invariant
                8 <= pos <= n,
                n == bytes@.len(),
                body == bytes@.subrange(8, n as int),
                bytes@.subrange(0, 8) == signature(),
                parse_chunks(body) == prepend(
                    chunks@.map_values(|c: Chunk| c@),
                    parse_chunks(bytes@.subrange(pos as int, n as int)),
                ),
            decreases n - pos,
        {
            let ghost rest = bytes@.subrange(pos as int, n as int);
            let remaining = n - pos;
            let e: usize = if remaining < 12 {
                remaining
            } else {
                let declared = bytes_to_u32([bytes[pos], bytes[pos + 1], bytes[pos + 2], bytes[pos + 3]]);
                assert(rest.subrange(0, 4) =~= seq![bytes@[pos as int], bytes@[pos + 1], bytes@[pos + 2], bytes@[pos + 3]]);
                if declared as usize > remaining - 12 {
                    remaining
                } else {
                    12 + declared as usize
                }
            };
            assert(e == chunk_extent(rest));
            assert(rest.subrange(0, e as int) =~= bytes@.subrange(pos as int, pos + e));
            assert(rest.subrange(e as int, rest.len() as int) =~= bytes@.subrange(pos + e, n as int));
            match Chunk::parse(vstd::slice::slice_subrange(bytes, pos, pos + e)) {
                Err(err) => {
                    proof {
                        assert(parse_chunks(rest) == Err::<Seq<ChunkView>, ChunkFault>(err.fault));
                        assert(err == ParseChunkError { fault: err.fault });
                    }
                    return Err(ParsePngError::InvalidChunk(err));
                },
                Ok(c) => {
                    let ghost before = chunks@.map_values(|c: Chunk| c@);
                    chunks.push(c);
                    proof {
                        let after = chunks@.map_values(|c: Chunk| c@);
                        assert(after =~= before.push(c@));
                        let tail = parse_chunks(bytes@.subrange(pos + e, n as int));
                        if tail is Ok {
                            assert(before + (seq![c@] + tail->Ok_0) =~= after + tail->Ok_0);
                        }
                    }
                    pos = pos + e;
                },
            }
        }
        assert(bytes@.subrange(pos as int, n as int) =~= Seq::<u8>::empty());
        let p = Png { chunks };
        assert(p@ + Seq::<ChunkView>::empty() =~= p@);
        proof {
            lemma_parsed_chunks_valid(body);
        }
        Ok(p)
    }

    /// The wire form: the signature, then each chunk's wire form in order.
    pub fn as_bytes(&self) -> (r: Vec<u8>)
        ensures
            r@ == png_bytes(self@),
    {
        let mut out: Vec<u8> = Vec::new();
        append_bytes(&mut out, &Png::STANDARD_HEADER);
        assert(out@ =~= signature());
        assert(self@.take(0) =~= Seq::<ChunkView>::empty());
        for i in 0..self.chunks.len()
            invariant
                out@ == signature() + chunks_bytes(self@.take(i as int)),
                self@.len() == self.chunks@.len(),
        {
            let b = self.chunks[i].as_bytes();
            append_bytes(&mut out, b.as_slice());
            proof {
                assert(self@.take(i + 1) =~= self@.take(i as int).push(self@[i as int]));
                lemma_chunks_bytes_push(self@.take(i as int), self@[i as int]);
                assert(out@ =~= signature() + chunks_bytes(self@.take(i + 1)));
            }
        }
        assert(self@.take(self@.len() as int) =~= self@);
        out
    }

    /// Adds `chunk` after the last chunk.
    pub fn append_chunk(&mut self, chunk: Chunk)
        ensures
            final(self)@ == old(self)@.push(chunk@),
    {
        self.chunks.push(chunk);
        assert(self@ =~= old(self)@.push(chunk@));
    }

    /// Where the first chunk whose type's text is `chunk_type` stands.
    fn position_of(&self, chunk_type: &str) -> (r: Option<usize>)
        ensures
            r matches Some(i) ==> is_first_match(self@, chunk_type.spec_bytes(), i as int),
            r is None ==> no_match(self@, chunk_type.spec_bytes()),
    {
        let code = chunk_type.as_bytes();
        for i in 0..self.chunks.len()
            invariant
                code@ == chunk_type.spec_bytes(),
                forall|j: int| 0 <= j < i ==> self@[j].kind != code@,
        {
            if type_matches(&self.chunks[i].chunk_type().bytes(), code) {
                return Some(i);
            }
        }
        None
    }

    /// The first chunk whose type's text is `chunk_type`, if any.
    pub fn chunk_by_type(&self, chunk_type: &str) -> (r: Option<&Chunk>)
        ensures
            r is None <==> no_match(self@, chunk_type.spec_bytes()),
            r matches Some(c) ==> exists|i: int|
                is_first_match(self@, chunk_type.spec_bytes(), i) && c@ == self@[i],
    {
        match self.position_of(chunk_type) {
            Some(i) => Some(&self.chunks[i]),
            None => None,
        }
    }

    /// Takes out the first chunk whose type's text is `chunk_type`, keeping
    /// the order of the others.
    pub fn remove_first_chunk(&mut self, chunk_type: &str) -> (r: Result<Chunk, ChunkNotFound>)
        ensures
            r is Err <==> no_match(old(self)@, chunk_type.spec_bytes()),
            r is Err ==> final(self)@ == old(self)@,
            r matches Ok(c) ==> exists|i: int|
                is_first_match(old(self)@, chunk_type.spec_bytes(), i) && c@ == old(self)@[i]
                    && final(self)@ == old(self)@.remove(i),
    {
        match self.position_of(chunk_type) {
            Some(i) => {
                let c = self.chunks.remove(i);
                assert(self@ =~= old(self)@.remove(i as int));
                Ok(c)
            },
            None => Err(ChunkNotFound),
        }
    }

    /// The eight bytes that open the file.
    pub fn header(&self) -> (r: [u8; 8])
        ensures
            r@ == signature(),
    {
        let r = Png::STANDARD_HEADER;
        assert(r@ =~= signature());
        r
    }

    /// The chunks, in order.
    pub fn chunks(&self) -> (r: &[Chunk])
        ensures
            r@.map_values(|c: Chunk| c@) == self@,
    {
        self.chunks.as_slice()
    }
}

} // verus!
