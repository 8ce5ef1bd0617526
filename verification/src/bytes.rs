//! Integers as bytes, in network order and in little-endian order.

use vstd::prelude::*;

verus! {

/// The two bytes of `x`, most significant first.
pub open spec fn be16_bytes(x: u16) -> Seq<u8> {
    seq![(x / 256) as u8, (x % 256) as u8]
}

/// The number whose two bytes, most significant first, are `b0` and `b1`.
pub open spec fn be16(b0: u8, b1: u8) -> u16 {
    (b0 * 256 + b1) as u16
}

/// The four bytes of `x`, most significant first.
pub open spec fn be32_bytes(x: u32) -> Seq<u8> {
    seq![
        (x / 0x100_0000) as u8,
        (x / 0x1_0000 % 256) as u8,
        (x / 256 % 256) as u8,
        (x % 256) as u8,
    ]
}

/// The number whose four bytes, most significant first, are `b0` to `b3`.
pub open spec fn be32(b0: u8, b1: u8, b2: u8, b3: u8) -> u32 {
    (b0 * 0x100_0000 + b1 * 0x1_0000 + b2 * 256 + b3) as u32
}

/// The number whose eight bytes, most significant first, these are.
pub open spec fn be64(bytes: Seq<u8>) -> u64 {
    (be32(bytes[0], bytes[1], bytes[2], bytes[3]) * 0x1_0000_0000 + be32(
        bytes[4],
        bytes[5],
        bytes[6],
        bytes[7],
    )) as u64
}

/// The two bytes of `x`, least significant first.
pub open spec fn le16_bytes(x: u16) -> Seq<u8> {
    seq![(x % 256) as u8, (x / 256) as u8]
}

/// The four bytes of `x`, least significant first.
pub open spec fn le32_bytes(x: u32) -> Seq<u8> {
    seq![
        (x % 256) as u8,
        (x / 256 % 256) as u8,
        (x / 0x1_0000 % 256) as u8,
        (x / 0x100_0000) as u8,
    ]
}

/// Reading two bytes back gives the number that was written.
pub proof fn lemma_be16_round_trip(x: u16)
    ensures
        be16(be16_bytes(x)[0], be16_bytes(x)[1]) == x,
{
}

/// Reading four bytes back gives the number that was written.
pub proof fn lemma_be32_round_trip(x: u32)
    ensures
        be32(be32_bytes(x)[0], be32_bytes(x)[1], be32_bytes(x)[2], be32_bytes(x)[3]) == x,
{
}

pub fn read_be16(b0: u8, b1: u8) -> (x: u16)
    ensures
        x == be16(b0, b1),
{
    (b0 as u16) * 256 + (b1 as u16)
}

pub fn read_be32(b0: u8, b1: u8, b2: u8, b3: u8) -> (x: u32)
    ensures
        x == be32(b0, b1, b2, b3),
{
    (b0 as u32) * 0x100_0000 + (b1 as u32) * 0x1_0000 + (b2 as u32) * 256 + (b3 as u32)
}

pub fn read_be64(bytes: &[u8; 8]) -> (x: u64)
    ensures
        x == be64(bytes@),
{
    let high: u32 = read_be32(bytes[0], bytes[1], bytes[2], bytes[3]);
    let low: u32 = read_be32(bytes[4], bytes[5], bytes[6], bytes[7]);
    (high as u64) * 0x1_0000_0000 + (low as u64)
}

pub fn push_be16(out: &mut Vec<u8>, x: u16)
    ensures
        final(out)@ == old(out)@ + be16_bytes(x),
{
    out.push((x / 256) as u8);
    out.push((x % 256) as u8);
}

pub fn push_be32(out: &mut Vec<u8>, x: u32)
    ensures
        final(out)@ == old(out)@ + be32_bytes(x),
{
    out.push((x / 0x100_0000) as u8);
    out.push((x / 0x1_0000 % 256) as u8);
    out.push((x / 256 % 256) as u8);
    out.push((x % 256) as u8);
}

pub fn push_le16(out: &mut Vec<u8>, x: u16)
    ensures
        final(out)@ == old(out)@ + le16_bytes(x),
{
    out.push((x % 256) as u8);
    out.push((x / 256) as u8);
}

pub fn push_le32(out: &mut Vec<u8>, x: u32)
    ensures
        final(out)@ == old(out)@ + le32_bytes(x),
{
    out.push((x % 256) as u8);
    out.push((x / 256 % 256) as u8);
    out.push((x / 0x1_0000 % 256) as u8);
    out.push((x / 0x100_0000) as u8);
}

/// Appends the bytes of `input` from `from` up to `to`.
pub fn push_range(out: &mut Vec<u8>, input: &[u8], from: usize, to: usize)
    requires
        from <= to <= input@.len(),
    ensures
        final(out)@ == old(out)@ + input@.subrange(from as int, to as int),
{
    let part = vstd::slice::slice_subrange(input, from, to);
    out.extend_from_slice(part);
    assert(out@ =~= old(out)@ + input@.subrange(from as int, to as int));
}

/// The bytes of `input` as a vector of their own.
pub fn to_vec(input: &[u8]) -> (out: Vec<u8>)
    ensures
        out@ == input@,
{
    vstd::slice::slice_to_vec(input)
}

/// Whether two rows of bytes are the same.
pub fn same_bytes(a: &[u8], b: &[u8]) -> (same: bool)
    ensures
        same == (a@ == b@),
{
    let len = a.len();
    if len != b.len() {
        return false;
    }
    let mut i: usize = 0;
    while i < len
        invariant
            len == a@.len(),
            len == b@.len(),
            i <= len,
            forall|j: int| 0 <= j < i ==> a@[j] == b@[j],
        decreases len - i,
    {
        if a[i] != b[i] {
            return false;
        }
        i = i + 1;
    }
    assert(a@ =~= b@);
    true
}

/// A second vector with the same bytes.
pub fn copy_vec(input: &Vec<u8>) -> (out: Vec<u8>)
    ensures
        out@ == input@,
{
    vstd::slice::slice_to_vec(input.as_slice())
}

/// Bytes count for what their place is worth: in network order the first counts most, in
/// little-endian order the last.
pub proof fn law_bytes_count_by_place(x: u16, y: u32, bytes: Seq<u8>)
    requires
        bytes.len() == 8,
    ensures
        be16_bytes(x)[0] * 256 + be16_bytes(x)[1] == x,
        le16_bytes(x)[0] + 256 * le16_bytes(x)[1] == x,
        be32_bytes(y)[0] * 16_777_216 + be32_bytes(y)[1] * 65_536 + be32_bytes(y)[2] * 256
            + be32_bytes(y)[3] == y,
        le32_bytes(y)[0] + 256 * le32_bytes(y)[1] + 65_536 * le32_bytes(y)[2] + 16_777_216
            * le32_bytes(y)[3] == y,
        be64(bytes) == bytes.fold_left(0, |value: int, byte: u8| 256 * value + byte),
{
    reveal_with_fuel(Seq::fold_left, 9);
    assert(bytes.drop_last().drop_last().drop_last().drop_last().drop_last().drop_last().drop_last()
        =~= seq![bytes[0]]);
}

} // verus!
