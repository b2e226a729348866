//! The operations behind the command line, on the bytes of a whole file:
//! add a message chunk, read one back, take one out.

use crate::chunk::{crc32_of, Chunk, ChunkView, DataError};
use crate::chunk_type::{is_type_code, ChunkType, ParseChunkTypeError};
use crate::conversions::{append_bytes, byte_chars};
use crate::png::{
    is_first_match, no_match, parse_png, png_bytes, ChunkNotFound, ParsePngError, Png,
};
use vstd::prelude::*;
use vstd::string::StringSliceAdditionalSpecFns;

verus! {

/// Represents why a command could not be carried out.
#[derive(Debug, Clone, Copy, PartialEq, Eq, Structural)]
pub enum CommandError {
    /// The file is not a PNG.
    Png(ParsePngError),
    /// The chunk type given is not four ASCII letters.
    ChunkType(ParseChunkTypeError),
    /// No chunk has the type given.
    NotFound(ChunkNotFound),
    /// A payload's declared length disagrees with its size.
    Data(DataError),
}

/// The chunk that `Chunk::new` makes of a type and a payload.
pub open spec fn fresh_chunk(kind: Seq<u8>, data: Seq<u8>) -> ChunkView {
    ChunkView { length: data.len() as u32, kind, data, crc: crc32_of(kind + data) }
}

/// Adds a chunk of type `chunk_type` holding the bytes of `message` at the
/// end of the PNG in `file`, and gives the new file.
pub fn encode(file: &[u8], chunk_type: &str, message: &str) -> (r: Result<Vec<u8>, CommandError>)
    requires
        message.spec_bytes().len() <= u32::MAX,
    ensures
        r is Ok <==> (parse_png(file@) is Ok && is_type_code(chunk_type.spec_bytes())),
        parse_png(file@) matches Err(e) ==> r == Err::<Vec<u8>, CommandError>(
            CommandError::Png(e),
        ),
        parse_png(file@) is Ok && !is_type_code(chunk_type.spec_bytes()) ==> r == Err::<
            Vec<u8>,
            CommandError,
        >(CommandError::ChunkType(ParseChunkTypeError)),
        r matches Ok(out) ==> out@ == png_bytes(
            parse_png(file@)->Ok_0.push(fresh_chunk(chunk_type.spec_bytes(), message.spec_bytes())),
        ),
{
    let mut png = match Png::parse(file) {
        Ok(p) => p,
        Err(e) => return Err(CommandError::Png(e)),
    };
    let kind = match ChunkType::from_text(chunk_type) {
        Ok(t) => t,
        Err(e) => return Err(CommandError::ChunkType(e)),
    };
    let mut data: Vec<u8> = Vec::new();
    append_bytes(&mut data, message.as_bytes());
    let chunk = Chunk::new(kind, data);
    png.append_chunk(chunk);
    Ok(png.as_bytes())
}

/// The payload, as text, of the first chunk of type `chunk_type` in the PNG
/// in `file`.
pub fn decode(file: &[u8], chunk_type: &str) -> (r: Result<String, CommandError>)
    ensures
        parse_png(file@) matches Err(e) ==> r == Err::<String, CommandError>(
            CommandError::Png(e),
        ),
        parse_png(file@) matches Ok(cs) ==> (no_match(cs, chunk_type.spec_bytes()) <==> r
            == Err::<String, CommandError>(CommandError::NotFound(ChunkNotFound))),
        r matches Ok(text) ==> parse_png(file@) is Ok && exists|i: int|
            is_first_match(parse_png(file@)->Ok_0, chunk_type.spec_bytes(), i) && text@
                == byte_chars(parse_png(file@)->Ok_0[i].data),
        r is Ok <==> (parse_png(file@) is Ok && !no_match(
            parse_png(file@)->Ok_0,
            chunk_type.spec_bytes(),
        )),
{
    let png = match Png::parse(file) {
        Ok(p) => p,
        Err(e) => return Err(CommandError::Png(e)),
    };
    match png.chunk_by_type(chunk_type) {
        None => Err(CommandError::NotFound(ChunkNotFound)),
        Some(c) => match c.data_as_string() {
            Ok(text) => {
                proof {
                    let i = choose|i: int|
                        is_first_match(png@, chunk_type.spec_bytes(), i) && c@ == png@[i];
                    let cs = parse_png(file@)->Ok_0;
                    assert(cs == png@);
                    assert(is_first_match(cs, chunk_type.spec_bytes(), i) && text@ == byte_chars(
                        cs[i].data,
                    ));
                }
                Ok(text)
            },
            Err(e) => Err(CommandError::Data(e)),
        },
    }
}

/// Takes the first chunk of type `chunk_type` out of the PNG in `file`, and
/// gives the new file.
pub fn remove(file: &[u8], chunk_type: &str) -> (r: Result<Vec<u8>, CommandError>)
    ensures
        parse_png(file@) matches Err(e) ==> r == Err::<Vec<u8>, CommandError>(
            CommandError::Png(e),
        ),
        parse_png(file@) matches Ok(cs) ==> (no_match(cs, chunk_type.spec_bytes()) <==> r
            == Err::<Vec<u8>, CommandError>(CommandError::NotFound(ChunkNotFound))),
        r matches Ok(out) ==> parse_png(file@) is Ok && exists|i: int|
            is_first_match(parse_png(file@)->Ok_0, chunk_type.spec_bytes(), i) && out@
                == png_bytes(parse_png(file@)->Ok_0.remove(i)),
        r is Ok <==> (parse_png(file@) is Ok && !no_match(
            parse_png(file@)->Ok_0,
            chunk_type.spec_bytes(),
        )),
{
    let mut png = match Png::parse(file) {
        Ok(p) => p,
        Err(e) => return Err(CommandError::Png(e)),
    };
    let ghost before = png@;
    match png.remove_first_chunk(chunk_type) {
        Ok(c) => {
            let out = png.as_bytes();
            proof {
                let i = choose|i: int|
                    is_first_match(before, chunk_type.spec_bytes(), i) && c@ == before[i] && png@
                        == before.remove(i);
                let cs = parse_png(file@)->Ok_0;
                assert(cs == before);
                assert(is_first_match(cs, chunk_type.spec_bytes(), i) && out@ == png_bytes(
                    cs.remove(i),
                ));
            }
            Ok(out)
        },
        Err(e) => Err(CommandError::NotFound(e)),
    }
}

} // verus!
