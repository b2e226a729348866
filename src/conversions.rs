//! Byte-level helpers shared by the chunk codec: big-endian integers,
//! bit arrays and single-character strings.

use vstd::prelude::*;

verus! {

/// The value of four bytes read as a big-endian unsigned integer.
pub open spec fn be_value(b: Seq<u8>) -> int {
    b[0] * 0x1000000 + b[1] * 0x10000 + b[2] * 0x100 + b[3]
}

/// The four bytes of `n`, most significant first.
pub open spec fn be_bytes(n: u32) -> Seq<u8> {
    seq![
        (n / 0x1000000) as u8,
        (n / 0x10000 % 0x100) as u8,
        (n / 0x100 % 0x100) as u8,
        (n % 0x100) as u8,
    ]
}

/// Bit `i` of `b`, counting from the most significant bit as bit 0.
pub open spec fn bit_at(b: u8, i: int) -> bool {
    (b >> ((7 - i) as u8)) & 1u8 == 1u8
}

/// Writing a number out and reading it back gives the number.
pub proof fn lemma_be_value_of_bytes(n: u32)
    ensures
        be_bytes(n).len() == 4,
        be_value(be_bytes(n)) == n,
{
    let b = be_bytes(n);
    assert(b[0] == n / 0x1000000);
    assert(b[1] == n / 0x10000 % 0x100);
    assert(b[2] == n / 0x100 % 0x100);
    assert(b[3] == n % 0x100);
    assert(be_value(b) == n) by (nonlinear_arith)
        requires
            b[0] == n / 0x1000000,
            b[1] == n / 0x10000 % 0x100,
            b[2] == n / 0x100 % 0x100,
            b[3] == n % 0x100,
            be_value(b) == b[0] * 0x1000000 + b[1] * 0x10000 + b[2] * 0x100 + b[3],
            0 <= n < 0x1_0000_0000,
    ;
}

/// Reading four bytes and writing the number back gives the bytes.
pub proof fn lemma_bytes_of_be_value(b: Seq<u8>)
    requires
        b.len() == 4,
    ensures
        0 <= be_value(b) <= u32::MAX,
        be_bytes(be_value(b) as u32) == b,
{
    let n = be_value(b);
    assert(0 <= n <= u32::MAX);
    let m = n as u32;
    let r = be_bytes(m);
    assert(m / 0x1000000 == b[0] && m / 0x10000 % 0x100 == b[1] && m / 0x100 % 0x100 == b[2]
        && m % 0x100 == b[3]) by (nonlinear_arith)
        requires
            m == b[0] * 0x1000000 + b[1] * 0x10000 + b[2] * 0x100 + b[3],
            0 <= b[0] < 256,
            0 <= b[1] < 256,
            0 <= b[2] < 256,
            0 <= b[3] < 256,
    ;
    assert(r =~= b);
}

/// Text with one character for each byte: the character whose code is
/// that byte.
pub open spec fn byte_chars(s: Seq<u8>) -> Seq<char> {
    s.map_values(|b: u8| b as char)
}

/// Appends one character to `s`.
/// Relies on `String::push`, which appends the character at the end.
#[verifier::external_body]
pub(crate) fn push_char(s: &mut String, c: char)
    ensures
        final(s)@ == old(s)@.push(c),
{
    s.push(c)
}

/// The one-character string of the character whose code is `num`.
pub fn u8_to_string(num: u8) -> (r: String)
    ensures
        r@ == seq![num as char],
{
    let mut s = String::new();
    push_char(&mut s, num as char);
    s
}

/// The low eight bits of the character code of `my_char`.
pub fn char_to_u8(my_char: char) -> (r: u8)
    ensures
        r == my_char as u8,
{
    my_char as u8
}

/// The bits of `num`, most significant first.
pub fn u8_to_bits(num: u8) -> (r: [bool; 8])
    ensures
        forall|i: int| 0 <= i < 8 ==> r[i] == bit_at(num, i),
{
    let mut fin_arr = [false; 8];
    for idx in 0..8usize
        invariant
            forall|i: int| 0 <= i < idx ==> fin_arr[i] == bit_at(num, i),
    {
        fin_arr[idx] = (num >> (7 - idx) as u8) & 1u8 == 1u8;
    }
    fin_arr
}

proof fn lemma_bits_of_sum(b0: u8, b1: u8, b2: u8, b3: u8, b4: u8, b5: u8, b6: u8, b7: u8)
    requires
        b0 == 0 || b0 == 0x80,
        b1 == 0 || b1 == 0x40,
        b2 == 0 || b2 == 0x20,
        b3 == 0 || b3 == 0x10,
        b4 == 0 || b4 == 0x08,
        b5 == 0 || b5 == 0x04,
        b6 == 0 || b6 == 0x02,
        b7 == 0 || b7 == 0x01,
    ensures
        ({
            let s = b0 | b1 | b2 | b3 | b4 | b5 | b6 | b7;
            &&& ((s >> 7u8) & 1u8 == 1u8) == (b0 != 0)
            &&& ((s >> 6u8) & 1u8 == 1u8) == (b1 != 0)
            &&& ((s >> 5u8) & 1u8 == 1u8) == (b2 != 0)
            &&& ((s >> 4u8) & 1u8 == 1u8) == (b3 != 0)
            &&& ((s >> 3u8) & 1u8 == 1u8) == (b4 != 0)
            &&& ((s >> 2u8) & 1u8 == 1u8) == (b5 != 0)
            &&& ((s >> 1u8) & 1u8 == 1u8) == (b6 != 0)
            &&& ((s >> 0u8) & 1u8 == 1u8) == (b7 != 0)
        }),
{
    assert(({
        let s = b0 | b1 | b2 | b3 | b4 | b5 | b6 | b7;
        &&& ((s >> 7u8) & 1u8 == 1u8) == (b0 != 0)
        &&& ((s >> 6u8) & 1u8 == 1u8) == (b1 != 0)
        &&& ((s >> 5u8) & 1u8 == 1u8) == (b2 != 0)
        &&& ((s >> 4u8) & 1u8 == 1u8) == (b3 != 0)
        &&& ((s >> 3u8) & 1u8 == 1u8) == (b4 != 0)
        &&& ((s >> 2u8) & 1u8 == 1u8) == (b5 != 0)
        &&& ((s >> 1u8) & 1u8 == 1u8) == (b6 != 0)
        &&& ((s >> 0u8) & 1u8 == 1u8) == (b7 != 0)
    })) by (bit_vector)
        requires
            b0 == 0 || b0 == 0x80,
            b1 == 0 || b1 == 0x40,
            b2 == 0 || b2 == 0x20,
            b3 == 0 || b3 == 0x10,
            b4 == 0 || b4 == 0x08,
            b5 == 0 || b5 == 0x04,
            b6 == 0 || b6 == 0x02,
            b7 == 0 || b7 == 0x01,
    ;
}

/// The byte whose bits, most significant first, are `rep`.
pub fn bits_to_byte(rep: &[bool; 8]) -> (r: u8)
    ensures
        forall|i: int| 0 <= i < 8 ==> bit_at(r, i) == rep[i],
{
    let b0: u8 = if rep[0] { 0x80 } else { 0 };
    let b1: u8 = if rep[1] { 0x40 } else { 0 };
    let b2: u8 = if rep[2] { 0x20 } else { 0 };
    let b3: u8 = if rep[3] { 0x10 } else { 0 };
    let b4: u8 = if rep[4] { 0x08 } else { 0 };
    let b5: u8 = if rep[5] { 0x04 } else { 0 };
    let b6: u8 = if rep[6] { 0x02 } else { 0 };
    let b7: u8 = if rep[7] { 0x01 } else { 0 };
    let sum = b0 | b1 | b2 | b3 | b4 | b5 | b6 | b7;
    proof {
        lemma_bits_of_sum(b0, b1, b2, b3, b4, b5, b6, b7);
        assert forall|i: int| 0 <= i < 8 implies bit_at(sum, i) == rep[i] by {
            if i == 0 {
            } else if i == 1 {
            } else if i == 2 {
            } else if i == 3 {
            } else if i == 4 {
            } else if i == 5 {
            } else if i == 6 {
            } else {
            }
        }
    }
    sum
}

/// Appends each byte of `src` to `out`, in order.
pub fn append_bytes(out: &mut Vec<u8>, src: &[u8])
    ensures
        final(out)@ == old(out)@ + src@,
{
    for idx in 0..src.len()
        invariant
            out@ == old(out)@ + src@.subrange(0, idx as int),
    {
        out.push(src[idx]);
        assert(out@ =~= old(out)@ + src@.subrange(0, idx + 1));
    }
    assert(src@.subrange(0, src@.len() as int) =~= src@);
}

/// Appends the character for each byte of `src` to `out`, in order.
pub fn append_byte_chars(out: &mut String, src: &[u8])
    ensures
        final(out)@ == old(out)@ + byte_chars(src@),
{
    for idx in 0..src.len()
        invariant
            out@ == old(out)@ + byte_chars(src@.subrange(0, idx as int)),
    {
        push_char(out, src[idx] as char);
        assert(byte_chars(src@.subrange(0, idx + 1)) =~= byte_chars(src@.subrange(0, idx as int)).push(src@[idx as int] as char));
        assert(out@ =~= old(out)@ + byte_chars(src@.subrange(0, idx + 1)));
    }
    assert(src@.subrange(0, src@.len() as int) =~= src@);
}

/// The big-endian value of four bytes.
pub fn bytes_to_u32(rep: [u8; 4]) -> (r: u32)
    ensures
        r == be_value(rep@),
{
    (rep[0] as u32) * 0x1000000 + (rep[1] as u32) * 0x10000 + (rep[2] as u32) * 0x100
        + (rep[3] as u32)
}

/// The four bytes of `n`, most significant first.
pub fn u32_to_bytes(n: u32) -> (r: [u8; 4])
    ensures
        r@ == be_bytes(n),
{
    let r = [(n / 0x1000000) as u8, (n / 0x10000 % 0x100) as u8, (n / 0x100 % 0x100) as u8, (n % 0x100) as u8];
    assert(r@ =~= be_bytes(n));
    r
}

} // verus!
