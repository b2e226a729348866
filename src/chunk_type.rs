//! The four-letter tag that names the kind of a chunk.

use crate::conversions::{append_byte_chars, byte_chars};
use vstd::string::StringSliceAdditionalSpecFns;
use vstd::prelude::*;

verus! {

/// An ASCII letter, `A`-`Z` or `a`-`z`.
pub open spec fn is_letter(b: u8) -> bool {
    (65 <= b <= 90) || (97 <= b <= 122)
}

/// An upper-case ASCII letter.
pub open spec fn is_upper(b: u8) -> bool {
    65 <= b <= 90
}

/// An ASCII letter at every position.
pub open spec fn all_letters(s: Seq<u8>) -> bool {
    forall|i: int| 0 <= i < s.len() ==> is_letter(#[trigger] s[i])
}

/// A valid chunk tag: four ASCII letters.
pub open spec fn is_type_code(s: Seq<u8>) -> bool {
    s.len() == 4 && all_letters(s)
}

/// The byte for bit 5 (from the most significant bit) is the case bit of an
/// ASCII letter: clear for upper case, set for lower case.
pub proof fn lemma_case_bit(b: u8)
    requires
        is_letter(b),
    ensures
        (b & 0x20u8 == 0u8) == is_upper(b),
{
    assert((b & 0x20u8 == 0u8) == (65u8 <= b && b <= 90u8)) by (bit_vector)
        requires
            (65u8 <= b && b <= 90u8) || (97u8 <= b && b <= 122u8),
    ;
}

/// Represents the type of a chunk: four ASCII letters whose cases carry
/// four properties.
#[derive(Debug)]
pub struct ChunkType {
    code: [u8; 4],
}

/// Represents an error met while making a `ChunkType`: a byte that is not an
/// ASCII letter, or text that is not four such letters.
#[derive(Debug, Clone, Copy, PartialEq, Eq, Structural)]
pub struct ParseChunkTypeError;

impl View for ChunkType {
    type V = Seq<u8>;

    closed spec fn view(&self) -> Seq<u8> {
        self.code@
    }
}

impl PartialEq for ChunkType {
    fn eq(&self, other: &ChunkType) -> (r: bool) {
        let r = self.code[0] == other.code[0] && self.code[1] == other.code[1] && self.code[2]
            == other.code[2] && self.code[3] == other.code[3];
        proof {
            if r {
                assert(self@ =~= other@);
            }
        }
        r
    }
}

impl vstd::std_specs::cmp::PartialEqSpecImpl for ChunkType {
    open spec fn obeys_eq_spec() -> bool {
        true
    }

    open spec fn eq_spec(&self, other: &ChunkType) -> bool {
        self@ == other@
    }
}

impl Eq for ChunkType {
}

impl TryFrom<[u8; 4]> for ChunkType {
    type Error = ParseChunkTypeError;

    fn try_from(nums: [u8; 4]) -> (r: Result<ChunkType, ParseChunkTypeError>)
        ensures
            r is Ok <==> all_letters(nums@),
            r matches Ok(t) ==> t@ == nums@,
            r matches Err(e) ==> e == ParseChunkTypeError,
    {
        let r = ChunkType::from_bytes(nums);
        proof {
            broadcast use vstd::array::axiom_array_ext_equal;

            if r is Ok {
                assert(r->Ok_0.code =~= nums);
            }
        }
        r
    }
}

impl vstd::std_specs::convert::TryFromSpecImpl<[u8; 4]> for ChunkType {
    open spec fn obeys_try_from_spec() -> bool {
        true
    }

    closed spec fn try_from_spec(nums: [u8; 4]) -> Result<ChunkType, ParseChunkTypeError> {
        if all_letters(nums@) {
            Ok(ChunkType { code: nums })
        } else {
            Err(ParseChunkTypeError)
        }
    }
}

impl std::str::FromStr for ChunkType {
    type Err = ParseChunkTypeError;

    fn from_str(s: &str) -> (r: Result<ChunkType, ParseChunkTypeError>)
        ensures
            r is Ok <==> is_type_code(s.spec_bytes()),
            r matches Ok(t) ==> t@ == s.spec_bytes(),
            r matches Err(e) ==> e == ParseChunkTypeError,
    {
        ChunkType::from_text(s)
    }
}

impl ChunkType {
    #[verifier::type_invariant]
    closed spec fn inv(self) -> bool {
        is_type_code(self.code@)
    }

    /// Makes a chunk type from four bytes, which must all be ASCII letters.
    pub fn from_bytes(nums: [u8; 4]) -> (r: Result<ChunkType, ParseChunkTypeError>)
        ensures
            r is Ok <==> all_letters(nums@),
            r matches Ok(t) ==> t@ == nums@,
            r matches Err(e) ==> e == ParseChunkTypeError,
    {
        for idx in 0..4usize
            invariant
                forall|i: int| 0 <= i < idx ==> is_letter(nums@[i]),
        {
            let cur = nums[idx];
            if cur < 65 || (cur > 90 && cur < 97) || cur > 122 {
                return Err(ParseChunkTypeError);
            }
        }
        Ok(ChunkType { code: nums })
    }

    /// Makes a chunk type from text, whose bytes must be four ASCII letters.
    pub fn from_text(s: &str) -> (r: Result<ChunkType, ParseChunkTypeError>)
        ensures
            r is Ok <==> is_type_code(s.spec_bytes()),
            r matches Ok(t) ==> t@ == s.spec_bytes(),
            r matches Err(e) ==> e == ParseChunkTypeError,
    {
        let b = s.as_bytes();
        if b.len() != 4 {
            return Err(ParseChunkTypeError);
        }
        let nums: [u8; 4] = [b[0], b[1], b[2], b[3]];
        assert(nums@ =~= s.spec_bytes());
        ChunkType::from_bytes(nums)
    }

    /// The four bytes, in order.
    pub fn bytes(&self) -> (r: [u8; 4])
        ensures
            r@ == self@,
            is_type_code(r@),
    {
        proof {
            use_type_invariant(self);
        }
        self.code
    }

    /// The four letters as text.
    pub fn to_string(&self) -> (r: String)
        ensures
            r@ == byte_chars(self@),
    {
        let mut s = String::new();
        append_byte_chars(&mut s, &self.code);
        s
    }

    /// Whether the reserved bit is valid: the third letter is upper case.
    pub fn is_valid(&self) -> (r: bool)
        ensures
            r == is_upper(self@[2]),
    {
        proof {
            use_type_invariant(self);
            lemma_case_bit(self.code[2]);
        }
        self.code[2] & 0x20u8 == 0u8
    }

    /// Whether the chunk is critical: the first letter is upper case.
    pub fn is_critical(&self) -> (r: bool)
        ensures
            r == is_upper(self@[0]),
    {
        proof {
            use_type_invariant(self);
            lemma_case_bit(self.code[0]);
        }
        self.code[0] & 0x20u8 == 0u8
    }

    /// Whether the chunk is public: the second letter is upper case.
    pub fn is_public(&self) -> (r: bool)
        ensures
            r == is_upper(self@[1]),
    {
        proof {
            use_type_invariant(self);
            lemma_case_bit(self.code[1]);
        }
        self.code[1] & 0x20u8 == 0u8
    }

    /// Whether the reserved bit is valid: the third letter is upper case.
    pub fn is_reserved_bit_valid(&self) -> (r: bool)
        ensures
            r == is_upper(self@[2]),
    {
        self.is_valid()
    }

    /// Whether the chunk is safe to copy: the fourth letter is lower case.
    pub fn is_safe_to_copy(&self) -> (r: bool)
        ensures
            r == !is_upper(self@[3]),
    {
        proof {
            use_type_invariant(self);
            lemma_case_bit(self.code[3]);
        }
        self.code[3] & 0x20u8 != 0u8
    }
}

} // verus!
