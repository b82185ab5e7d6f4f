//! The "full box" extension: a 1-byte version and a 3-byte flags field packed
//! into one 4-byte big-endian word that opens many box payloads.
use vstd::prelude::*;

use crate::codec::{be32, be32_val, get_u32, put_u32};

verus! {

/// The packed word a version byte and 3-byte flags are written as.
pub open spec fn ext_word(version: u8, flags: u32) -> u32 {
    (((version as u32) << 24) | flags)
}

/// The version byte of a packed full-box word.
pub open spec fn ext_version(w: u32) -> u8 {
    (w >> 24) as u8
}

/// The 3-byte flags of a packed full-box word.
pub open spec fn ext_flags(w: u32) -> u32 {
    w & 0xFFFFFF
}

/// Unpacking the packed word gives the version and flags back, for flags that
/// fit their 3-byte field.
pub proof fn lemma_ext_word_round_trip(version: u8, flags: u32)
    requires
        flags < 0x1000000,
    ensures
        ext_version(ext_word(version, flags)) == version,
        ext_flags(ext_word(version, flags)) == flags,
{
    assert(flags < 0x1000000 ==> ((((version as u32) << 24) | flags) >> 24) as u8 == version)
        by (bit_vector);
    assert(flags < 0x1000000 ==> ((((version as u32) << 24) | flags) & 0xFFFFFF) == flags)
        by (bit_vector);
}

/// Append the full-box prefix word to an output buffer.
pub fn write_box_header_ext(out: &mut Vec<u8>, version: u8, flags: u32)
    ensures
        final(out)@ == old(out)@ + be32(ext_word(version, flags)),
{
    put_u32(out, ((version as u32) << 24) | flags);
}

/// Read the full-box prefix word at a byte position.
pub fn read_box_header_ext(data: &[u8], pos: usize) -> (r: (u8, u32))
    requires
        pos + 4 <= data@.len(),
    ensures
        r.0 == ext_version(be32_val(data@.subrange(pos as int, pos + 4))),
        r.1 == ext_flags(be32_val(data@.subrange(pos as int, pos + 4))),
{
    let w = get_u32(data, pos);
    proof {
        assert(w >> 24 < 256) by (bit_vector);
    }
    ((w >> 24) as u8, w & 0xFFFFFF)
}

} // verus!
