use vstd::prelude::*;

verus! {

/// A big-endian 16-bit value from two bytes.
pub open spec fn spec_be16(b0: u8, b1: u8) -> int {
    b0 * 0x100 + b1
}

/// Read a big-endian u16.
pub fn be16(b0: u8, b1: u8) -> (r: u16)
    ensures
        r == spec_be16(b0, b1),
{
    (b0 as u16) * 0x100 + (b1 as u16)
}

/// A big-endian 32-bit value from four bytes.
pub open spec fn spec_be32(b0: u8, b1: u8, b2: u8, b3: u8) -> int {
    b0 * 0x100_0000 + b1 * 0x1_0000 + b2 * 0x100 + b3
}

/// Read a big-endian u32: RFC 792 timestamps arrive in network order.
pub fn be32(b0: u8, b1: u8, b2: u8, b3: u8) -> (r: u32)
    ensures
        r == spec_be32(b0, b1, b2, b3),
{
    (b0 as u32) * 0x100_0000 + (b1 as u32) * 0x1_0000 + (b2 as u32) * 0x100 + (b3 as u32)
}

/// The two big-endian bytes of a 16-bit value.
pub open spec fn spec_be16_bytes(x: u16) -> Seq<u8> {
    seq![(x / 0x100) as u8, (x % 0x100) as u8]
}

/// The four big-endian bytes of a 32-bit value.
pub open spec fn spec_be32_bytes(x: u32) -> Seq<u8> {
    seq![
        (x / 0x100_0000) as u8,
        ((x / 0x1_0000) % 0x100) as u8,
        ((x / 0x100) % 0x100) as u8,
        (x % 0x100) as u8,
    ]
}

/// The eight little-endian bytes of a 64-bit value: the echo payload's
/// timestamp encoding (the sender and listener of one process agree on it;
/// the network never reads it).
pub open spec fn spec_le64_bytes(x: u64) -> Seq<u8> {
    seq![
        (x % 0x100) as u8,
        ((x / 0x100) % 0x100) as u8,
        ((x / 0x1_0000) % 0x100) as u8,
        ((x / 0x100_0000) % 0x100) as u8,
        ((x / 0x1_0000_0000) % 0x100) as u8,
        ((x / 0x100_0000_0000) % 0x100) as u8,
        ((x / 0x1_0000_0000_0000) % 0x100) as u8,
        ((x / 0x100_0000_0000_0000) % 0x100) as u8,
    ]
}

/// Append a 16-bit value big-endian.
pub fn push_be16(v: &mut Vec<u8>, x: u16)
    ensures
        final(v)@ =~= old(v)@ + spec_be16_bytes(x),
{
    v.push((x / 0x100) as u8);
    v.push((x % 0x100) as u8);
}

/// Append a 32-bit value big-endian.
pub fn push_be32(v: &mut Vec<u8>, x: u32)
    ensures
        final(v)@ =~= old(v)@ + spec_be32_bytes(x),
{
    v.push((x / 0x100_0000) as u8);
    v.push(((x / 0x1_0000) % 0x100) as u8);
    v.push(((x / 0x100) % 0x100) as u8);
    v.push((x % 0x100) as u8);
}

/// Append a 64-bit value little-endian.
pub fn push_le64(v: &mut Vec<u8>, x: u64)
    ensures
        final(v)@ =~= old(v)@ + spec_le64_bytes(x),
{
    v.push((x % 0x100) as u8);
    v.push(((x / 0x100) % 0x100) as u8);
    v.push(((x / 0x1_0000) % 0x100) as u8);
    v.push(((x / 0x100_0000) % 0x100) as u8);
    v.push(((x / 0x1_0000_0000) % 0x100) as u8);
    v.push(((x / 0x100_0000_0000) % 0x100) as u8);
    v.push(((x / 0x1_0000_0000_0000) % 0x100) as u8);
    v.push(((x / 0x100_0000_0000_0000) % 0x100) as u8);
}

/// The little-endian 64-bit value held in eight bytes.
pub open spec fn spec_le64(b: Seq<u8>, off: int) -> int {
    b[off] + b[off + 1] * 0x100 + b[off + 2] * 0x1_0000 + b[off + 3] * 0x100_0000 + b[off + 4]
        * 0x1_0000_0000 + b[off + 5] * 0x100_0000_0000 + b[off + 6] * 0x1_0000_0000_0000 + b[off
        + 7] * 0x100_0000_0000_0000
}

/// Read a little-endian u64 out of a byte buffer.
pub fn read_le64(buf: &[u8], off: usize) -> (r: u64)
    requires
        off + 8 <= buf@.len(),
    ensures
        r == spec_le64(buf@, off as int),
{
    (buf[off] as u64) + (buf[off + 1] as u64) * 0x100 + (buf[off + 2] as u64) * 0x1_0000 + (buf[off
        + 3] as u64) * 0x100_0000 + (buf[off + 4] as u64) * 0x1_0000_0000 + (buf[off + 5] as u64)
        * 0x100_0000_0000 + (buf[off + 6] as u64) * 0x1_0000_0000_0000 + (buf[off + 7] as u64)
        * 0x100_0000_0000_0000
}

} // verus!
