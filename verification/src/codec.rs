//! Big-endian scalar encoding: the byte layout every multi-byte field of the
//! box format uses, as spec-level sequences with verified readers and writers.
use vstd::prelude::*;

verus! {

broadcast use vstd::seq::group_seq_axioms;

/// Big-endian bytes of a 16-bit value.
pub open spec fn be16(x: u16) -> Seq<u8> {
    seq![((x >> 8) & 0xff) as u8, (x & 0xff) as u8]
}

/// The 16-bit value a 2-byte big-endian sequence denotes.
pub open spec fn be16_val(s: Seq<u8>) -> u16
    recommends
        s.len() == 2,
{
    (((s[0] as u16) << 8) | (s[1] as u16))
}

/// Big-endian bytes of a 32-bit value.
pub open spec fn be32(x: u32) -> Seq<u8> {
    seq![
        ((x >> 24) & 0xff) as u8,
        ((x >> 16) & 0xff) as u8,
        ((x >> 8) & 0xff) as u8,
        (x & 0xff) as u8,
    ]
}

/// The 32-bit value a 4-byte big-endian sequence denotes.
pub open spec fn be32_val(s: Seq<u8>) -> u32
    recommends
        s.len() == 4,
{
    (((s[0] as u32) << 24) | ((s[1] as u32) << 16) | ((s[2] as u32) << 8) | (s[3] as u32))
}

/// Big-endian bytes of a 64-bit value.
pub open spec fn be64(x: u64) -> Seq<u8> {
    seq![
        ((x >> 56) & 0xff) as u8,
        ((x >> 48) & 0xff) as u8,
        ((x >> 40) & 0xff) as u8,
        ((x >> 32) & 0xff) as u8,
        ((x >> 24) & 0xff) as u8,
        ((x >> 16) & 0xff) as u8,
        ((x >> 8) & 0xff) as u8,
        (x & 0xff) as u8,
    ]
}

/// The 64-bit value an 8-byte big-endian sequence denotes.
pub open spec fn be64_val(s: Seq<u8>) -> u64
    recommends
        s.len() == 8,
{
    (((s[0] as u64) << 56) | ((s[1] as u64) << 48) | ((s[2] as u64) << 40) | ((s[3] as u64)
        << 32) | ((s[4] as u64) << 24) | ((s[5] as u64) << 16) | ((s[6] as u64) << 8) | (
    s[7] as u64))
}

/// The unsigned 32-bit pattern that stands for a signed value on the wire.
pub open spec fn u32_of_i32(x: i32) -> u32 {
    if x >= 0 {
        x as u32
    } else {
        (x + 0x1_0000_0000) as u32
    }
}

/// The signed value a 32-bit wire pattern stands for.
pub open spec fn i32_of_u32(x: u32) -> i32 {
    if x < 0x8000_0000 {
        x as i32
    } else {
        (x - 0x1_0000_0000) as i32
    }
}

/// Reading back the wire pattern of a signed value gives the value.
pub proof fn lemma_i32_round_trip(x: i32)
    ensures
        i32_of_u32(u32_of_i32(x)) == x,
{
}

/// Decoding the big-endian bytes of a 16-bit value gives the value back.
pub proof fn lemma_be16_round_trip()
    ensures
        forall|x: u16| #![trigger be16(x)] be16_val(be16(x)) == x && be16(x).len() == 2,
{
    assert forall|x: u16| #![trigger be16(x)] be16_val(be16(x)) == x && be16(x).len() == 2 by {
        assert((((((x >> 8) & 0xff) as u8) as u16) << 8 | (((x & 0xff) as u8) as u16)) == x)
            by (bit_vector);
    }
}

/// Decoding the big-endian bytes of a 32-bit value gives the value back.
pub proof fn lemma_be32_round_trip()
    ensures
        forall|x: u32| #![trigger be32(x)] be32_val(be32(x)) == x && be32(x).len() == 4,
{
    assert forall|x: u32| #![trigger be32(x)] be32_val(be32(x)) == x && be32(x).len() == 4 by {
        assert((((((x >> 24) & 0xff) as u8) as u32) << 24 | ((((x >> 16) & 0xff) as u8) as u32)
            << 16 | ((((x >> 8) & 0xff) as u8) as u32) << 8 | (((x & 0xff) as u8) as u32)) == x)
            by (bit_vector);
    }
}

/// Decoding the big-endian bytes of a 64-bit value gives the value back.
pub proof fn lemma_be64_round_trip()
    ensures
        forall|x: u64| #![trigger be64(x)] be64_val(be64(x)) == x && be64(x).len() == 8,
{
    assert forall|x: u64| #![trigger be64(x)] be64_val(be64(x)) == x && be64(x).len() == 8 by {
        assert((((((x >> 56) & 0xff) as u8) as u64) << 56 | ((((x >> 48) & 0xff) as u8) as u64)
            << 48 | ((((x >> 40) & 0xff) as u8) as u64) << 40 | ((((x >> 32) & 0xff) as u8) as u64)
            << 32 | ((((x >> 24) & 0xff) as u8) as u64) << 24 | ((((x >> 16) & 0xff) as u8) as u64)
            << 16 | ((((x >> 8) & 0xff) as u8) as u64) << 8 | (((x & 0xff) as u8) as u64)) == x)
            by (bit_vector);
    }
}

/// Append one big-endian 16-bit value to an output buffer.
pub fn put_u16(out: &mut Vec<u8>, x: u16)
    ensures
        final(out)@ == old(out)@ + be16(x),
{
    out.push(((x >> 8) & 0xff) as u8);
    out.push((x & 0xff) as u8);
    proof {
        assert(out@ =~= old(out)@ + be16(x));
    }
}

/// Append one big-endian 32-bit value to an output buffer.
pub fn put_u32(out: &mut Vec<u8>, x: u32)
    ensures
        final(out)@ == old(out)@ + be32(x),
{
    out.push(((x >> 24) & 0xff) as u8);
    out.push(((x >> 16) & 0xff) as u8);
    out.push(((x >> 8) & 0xff) as u8);
    out.push((x & 0xff) as u8);
    proof {
        assert(out@ =~= old(out)@ + be32(x));
    }
}

/// Append one big-endian 64-bit value to an output buffer.
pub fn put_u64(out: &mut Vec<u8>, x: u64)
    ensures
        final(out)@ == old(out)@ + be64(x),
{
    out.push(((x >> 56) & 0xff) as u8);
    out.push(((x >> 48) & 0xff) as u8);
    out.push(((x >> 40) & 0xff) as u8);
    out.push(((x >> 32) & 0xff) as u8);
    out.push(((x >> 24) & 0xff) as u8);
    out.push(((x >> 16) & 0xff) as u8);
    out.push(((x >> 8) & 0xff) as u8);
    out.push((x & 0xff) as u8);
    proof {
        assert(out@ =~= old(out)@ + be64(x));
    }
}

/// Append one big-endian signed 32-bit value to an output buffer.
pub fn put_i32(out: &mut Vec<u8>, x: i32)
    ensures
        final(out)@ == old(out)@ + be32(u32_of_i32(x)),
{
    let bits: u32 = if x >= 0 {
        x as u32
    } else {
        ((x as i64) + 0x1_0000_0000i64) as u32
    };
    put_u32(out, bits);
}

/// Read one big-endian 16-bit value at a byte position.
pub fn get_u16(data: &[u8], pos: usize) -> (r: u16)
    requires
        pos + 2 <= data@.len(),
    ensures
        r == be16_val(data@.subrange(pos as int, pos + 2)),
{
    let r = ((data[pos] as u16) << 8) | (data[pos + 1] as u16);
    proof {
        let s = data@.subrange(pos as int, pos + 2);
        assert(s[0] == data@[pos as int] && s[1] == data@[pos as int + 1]);
    }
    r
}

/// Read one big-endian 32-bit value at a byte position.
pub fn get_u32(data: &[u8], pos: usize) -> (r: u32)
    requires
        pos + 4 <= data@.len(),
    ensures
        r == be32_val(data@.subrange(pos as int, pos + 4)),
{
    let r = ((data[pos] as u32) << 24) | ((data[pos + 1] as u32) << 16) | ((data[pos + 2] as u32)
        << 8) | (data[pos + 3] as u32);
    proof {
        let s = data@.subrange(pos as int, pos + 4);
        assert(s[0] == data@[pos as int] && s[1] == data@[pos as int + 1] && s[2] == data@[pos as int
            + 2] && s[3] == data@[pos as int + 3]);
    }
    r
}

/// Read one big-endian 64-bit value at a byte position.
pub fn get_u64(data: &[u8], pos: usize) -> (r: u64)
    requires
        pos + 8 <= data@.len(),
    ensures
        r == be64_val(data@.subrange(pos as int, pos + 8)),
{
    let r = ((data[pos] as u64) << 56) | ((data[pos + 1] as u64) << 48) | ((data[pos + 2] as u64)
        << 40) | ((data[pos + 3] as u64) << 32) | ((data[pos + 4] as u64) << 24) | ((data[pos
        + 5] as u64) << 16) | ((data[pos + 6] as u64) << 8) | (data[pos + 7] as u64);
    proof {
        let s = data@.subrange(pos as int, pos + 8);
        assert(s[0] == data@[pos as int] && s[1] == data@[pos as int + 1] && s[2] == data@[pos as int
            + 2] && s[3] == data@[pos as int + 3] && s[4] == data@[pos as int + 4] && s[5] == data@[
        pos as int + 5] && s[6] == data@[pos as int + 6] && s[7] == data@[pos as int + 7]);
    }
    r
}

/// Read one big-endian signed 32-bit value at a byte position.
pub fn get_i32(data: &[u8], pos: usize) -> (r: i32)
    requires
        pos + 4 <= data@.len(),
    ensures
        r == i32_of_u32(be32_val(data@.subrange(pos as int, pos + 4))),
{
    let bits = get_u32(data, pos);
    if bits < 0x8000_0000 {
        bits as i32
    } else {
        ((bits as i64) - 0x1_0000_0000i64) as i32
    }
}

} // verus!
