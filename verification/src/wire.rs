//! Big-endian wire primitives: the fixed-width integer encodings used by the
//! IPP binary format, as spec-level byte sequences, executable readers and
//! writers proved against them, and the round-trip lemmas the codec needs.

use vstd::prelude::*;

verus! {

/// Big-endian byte sequence of a 16-bit unsigned integer.
pub open spec fn spec_u16_be(x: u16) -> Seq<u8> {
    seq![(x >> 8) as u8, (x & 0xff) as u8]
}

/// The 16-bit unsigned integer read from two big-endian bytes.
pub open spec fn spec_u16_from_be(b0: u8, b1: u8) -> u16 {
    (((b0 as u16) << 8) | (b1 as u16)) as u16
}

/// Big-endian byte sequence of a 32-bit unsigned integer.
pub open spec fn spec_u32_be(x: u32) -> Seq<u8> {
    seq![
        ((x >> 24) & 0xff) as u8,
        ((x >> 16) & 0xff) as u8,
        ((x >> 8) & 0xff) as u8,
        (x & 0xff) as u8,
    ]
}

/// The 32-bit unsigned integer read from four big-endian bytes.
pub open spec fn spec_u32_from_be(b0: u8, b1: u8, b2: u8, b3: u8) -> u32 {
    (((b0 as u32) << 24) | ((b1 as u32) << 16) | ((b2 as u32) << 8) | (b3 as u32)) as u32
}

/// Big-endian byte sequence of a 32-bit signed integer (two's complement).
pub open spec fn spec_i32_be(x: i32) -> Seq<u8> {
    spec_u32_be(x as u32)
}

/// The 32-bit signed integer read from four big-endian bytes.
pub open spec fn spec_i32_from_be(b0: u8, b1: u8, b2: u8, b3: u8) -> i32 {
    spec_u32_from_be(b0, b1, b2, b3) as i32
}

pub proof fn lemma_u16_be_round(x: u16)
    ensures
        spec_u16_from_be(spec_u16_be(x)[0], spec_u16_be(x)[1]) == x,
{
    assert((((((x >> 8) as u8) as u16) << 8) | (((x & 0xff) as u8) as u16)) as u16 == x)
        by (bit_vector);
}

pub proof fn lemma_u32_be_round(x: u32)
    ensures
        spec_u32_from_be(
            spec_u32_be(x)[0],
            spec_u32_be(x)[1],
            spec_u32_be(x)[2],
            spec_u32_be(x)[3],
        ) == x,
{
    assert(((((((x >> 24) & 0xff) as u8) as u32) << 24) | (((((x >> 16) & 0xff) as u8) as u32)
        << 16) | (((((x >> 8) & 0xff) as u8) as u32) << 8) | (((x & 0xff) as u8) as u32)) as u32
        == x) by (bit_vector);
}

pub proof fn lemma_i32_be_round(x: i32)
    ensures
        spec_i32_from_be(
            spec_i32_be(x)[0],
            spec_i32_be(x)[1],
            spec_i32_be(x)[2],
            spec_i32_be(x)[3],
        ) == x,
{
    let u = x as u32;
    lemma_u32_be_round(u);
    assert(((x as u32) as i32) == x) by (bit_vector);
}

/// Appends the two big-endian bytes of `x`.
pub fn write_u16_be(out: &mut Vec<u8>, x: u16)
    ensures
        final(out)@ == old(out)@ + spec_u16_be(x),
{
    let b0: u8 = (x >> 8) as u8;
    let b1: u8 = (x & 0xff) as u8;
    out.push(b0);
    out.push(b1);
    assert(final(out)@ =~= old(out)@ + spec_u16_be(x));
}

/// Appends the four big-endian bytes of `x`.
pub fn write_u32_be(out: &mut Vec<u8>, x: u32)
    ensures
        final(out)@ == old(out)@ + spec_u32_be(x),
{
    let b0: u8 = ((x >> 24) & 0xff) as u8;
    let b1: u8 = ((x >> 16) & 0xff) as u8;
    let b2: u8 = ((x >> 8) & 0xff) as u8;
    let b3: u8 = (x & 0xff) as u8;
    out.push(b0);
    out.push(b1);
    out.push(b2);
    out.push(b3);
    assert(final(out)@ =~= old(out)@ + spec_u32_be(x));
}

/// Appends the four big-endian bytes of a signed 32-bit integer.
pub fn write_i32_be(out: &mut Vec<u8>, x: i32)
    ensures
        final(out)@ == old(out)@ + spec_i32_be(x),
{
    write_u32_be(out, x as u32);
}

/// Reads a big-endian 16-bit unsigned integer at `pos`.
pub fn read_u16_be(data: &[u8], pos: usize) -> (r: u16)
    requires
        pos + 2 <= data@.len(),
    ensures
        r == spec_u16_from_be(data@[pos as int], data@[pos + 1]),
{
    let b0 = data[pos];
    let b1 = data[pos + 1];
    ((b0 as u16) << 8) | (b1 as u16)
}

/// Reads a big-endian 32-bit unsigned integer at `pos`.
pub fn read_u32_be(data: &[u8], pos: usize) -> (r: u32)
    requires
        pos + 4 <= data@.len(),
    ensures
        r == spec_u32_from_be(data@[pos as int], data@[pos + 1], data@[pos + 2], data@[pos + 3]),
{
    let b0 = data[pos];
    let b1 = data[pos + 1];
    let b2 = data[pos + 2];
    let b3 = data[pos + 3];
    ((b0 as u32) << 24) | ((b1 as u32) << 16) | ((b2 as u32) << 8) | (b3 as u32)
}

/// Reads a big-endian 32-bit signed integer at `pos`.
pub fn read_i32_be(data: &[u8], pos: usize) -> (r: i32)
    requires
        pos + 4 <= data@.len(),
    ensures
        r == spec_i32_from_be(data@[pos as int], data@[pos + 1], data@[pos + 2], data@[pos + 3]),
{
    read_u32_be(data, pos) as i32
}

} // verus!
