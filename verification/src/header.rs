//! The 8-or-16-byte box header: a 4-byte big-endian size and a 4-byte type
//! tag, with an 8-byte extended size when the size field is 1. A size field of
//! 0 means the payload runs to the end of the stream and is left for the
//! caller to resolve.
use vstd::prelude::*;

use crate::boxtype::{box_type_canonical, box_type_code, box_type_of, BoxType};
use crate::codec::{
    be32, be32_val, be64, be64_val, get_u32, get_u64, lemma_be32_round_trip, lemma_be64_round_trip,
    put_u32, put_u64,
};
use crate::Error;

verus! {

broadcast use vstd::seq::group_seq_axioms;

/// A decoded box header: the type tag, the declared size of the whole box
/// (header included), and how many bytes the header itself took (8 or 16).
#[derive(Debug, Clone, Copy, PartialEq, Eq, Structural)]
pub struct BoxHeader {
    pub kind: BoxType,
    pub size: u64,
    pub header_len: u64,
}

/// What reading a header at a position yields: a clean end of stream, a
/// truncated header, or a decoded header.
#[derive(Debug, Clone, Copy, PartialEq, Eq, Structural)]
pub enum HeaderParse {
    Eof,
    Short,
    Value(BoxHeader),
}

/// The header that the bytes at `pos` decode to.
pub open spec fn parse_header_at(data: Seq<u8>, pos: int) -> HeaderParse
    recommends
        0 <= pos <= data.len(),
{
    if pos == data.len() {
        HeaderParse::Eof
    } else if data.len() - pos < 8 {
        HeaderParse::Short
    } else {
        let size32 = be32_val(data.subrange(pos, pos + 4));
        let code = be32_val(data.subrange(pos + 4, pos + 8));
        if size32 == 1 {
            if data.len() - pos < 16 {
                HeaderParse::Short
            } else {
                HeaderParse::Value(
                    BoxHeader {
                        kind: box_type_of(code),
                        size: be64_val(data.subrange(pos + 8, pos + 16)),
                        header_len: 16,
                    },
                )
            }
        } else {
            HeaderParse::Value(
                BoxHeader { kind: box_type_of(code), size: size32 as u64, header_len: 8 },
            )
        }
    }
}

/// The bytes a header is written as: the compact 8-byte form when the size
/// fits 32 bits, else the size field 1 followed by the 8-byte extended size.
pub open spec fn header_bytes(kind: BoxType, size: u64) -> Seq<u8> {
    if size > u32::MAX {
        be32(1) + be32(box_type_code(kind)) + be64(size)
    } else {
        be32(size as u32) + be32(box_type_code(kind))
    }
}

impl BoxHeader {
    /// A header for a box of the given tag and declared total size.
    pub fn new(kind: BoxType, size: u64) -> (r: BoxHeader)
        ensures
            r.kind == kind,
            r.size == size,
            r.header_len == (if size > u32::MAX {
                16u64
            } else {
                8u64
            }),
    {
        if size > u32::MAX as u64 {
            BoxHeader { kind, size, header_len: 16 }
        } else {
            BoxHeader { kind, size, header_len: 8 }
        }
    }

    /// Decode the header at `pos`, or report a clean end of stream at the
    /// very position, or a truncation.
    pub fn read_at(data: &[u8], pos: usize) -> (r: Result<Option<(BoxHeader, usize)>, Error>)
        requires
            pos <= data@.len(),
        ensures
            parse_header_at(data@, pos as int) == HeaderParse::Eof ==> r == Ok::<
                Option<(BoxHeader, usize)>,
                Error,
            >(None),
            parse_header_at(data@, pos as int) == HeaderParse::Short ==> r == Err::<
                Option<(BoxHeader, usize)>,
                Error,
            >(Error::Truncated),
            forall|h: BoxHeader|
                parse_header_at(data@, pos as int) == HeaderParse::Value(h) ==> r == Ok::<
                    Option<(BoxHeader, usize)>,
                    Error,
                >(Some((h, (pos + h.header_len) as usize))),
    {
        if pos == data.len() {
            return Ok(None);
        }
        if data.len() - pos < 8 {
            return Err(Error::Truncated);
        }
        let size32 = get_u32(data, pos);
        let code = get_u32(data, pos + 4);
        let kind = BoxType::from_u32(code);
        if size32 == 1 {
            if data.len() - pos < 16 {
                return Err(Error::Truncated);
            }
            let size = get_u64(data, pos + 8);
            Ok(Some((BoxHeader { kind, size, header_len: 16 }, pos + 16)))
        } else {
            Ok(Some((BoxHeader { kind, size: size32 as u64, header_len: 8 }, pos + 8)))
        }
    }

    /// Append this header's wire form to an output buffer.
    pub fn write(&self, out: &mut Vec<u8>)
        ensures
            final(out)@ == old(out)@ + header_bytes(self.kind, self.size),
    {
        if self.size > u32::MAX as u64 {
            put_u32(out, 1);
            let code = self.kind.to_u32();
            put_u32(out, code);
            put_u64(out, self.size);
            proof {
                assert(out@ =~= old(out)@ + header_bytes(self.kind, self.size));
            }
        } else {
            put_u32(out, self.size as u32);
            let code = self.kind.to_u32();
            put_u32(out, code);
            proof {
                assert(out@ =~= old(out)@ + header_bytes(self.kind, self.size));
            }
        }
    }
}

/// Framing law, extended form: wherever the 4-byte size field reads 1 and 16
/// bytes are available, the header decodes with the 8-byte extended size as
/// its declared size and a header length of 16.
pub proof fn lemma_header_extended_form(data: Seq<u8>, pos: int)
    requires
        0 <= pos,
        pos + 16 <= data.len(),
        be32_val(data.subrange(pos, pos + 4)) == 1,
    ensures
        parse_header_at(data, pos) == HeaderParse::Value(
            BoxHeader {
                kind: box_type_of(be32_val(data.subrange(pos + 4, pos + 8))),
                size: be64_val(data.subrange(pos + 8, pos + 16)),
                header_len: 16,
            },
        ),
{
}

/// Framing law, compact form: wherever the 4-byte size field reads anything
/// but 1 and 8 bytes are available, the header decodes with that field as its
/// declared size and a header length of 8.
pub proof fn lemma_header_compact_form(data: Seq<u8>, pos: int)
    requires
        0 <= pos,
        pos + 8 <= data.len(),
        be32_val(data.subrange(pos, pos + 4)) != 1,
    ensures
        parse_header_at(data, pos) == HeaderParse::Value(
            BoxHeader {
                kind: box_type_of(be32_val(data.subrange(pos + 4, pos + 8))),
                size: be32_val(data.subrange(pos, pos + 4)) as u64,
                header_len: 8,
            },
        ),
{
}

/// Writing a header and decoding the result gives the header back, for any
/// canonical tag and any size other than the two reserved size-field values.
pub proof fn lemma_header_round_trip(kind: BoxType, size: u64, rest: Seq<u8>)
    requires
        box_type_canonical(kind),
        size != 0,
        size != 1,
    ensures
        header_bytes(kind, size).len() == (if size > u32::MAX {
            16int
        } else {
            8int
        }),
        parse_header_at(header_bytes(kind, size) + rest, 0) == HeaderParse::Value(
            BoxHeader {
                kind,
                size,
                header_len: if size > u32::MAX {
                    16u64
                } else {
                    8u64
                },
            },
        ),
{
    lemma_be32_round_trip();
    lemma_be64_round_trip();
    let s = header_bytes(kind, size) + rest;
    if size > u32::MAX {
        let a = be32(1);
        let b = be32(box_type_code(kind));
        let c = be64(size);
        assert(s =~= a + b + c + rest);
        assert(s.subrange(0, 4) =~= a);
        assert(s.subrange(4, 8) =~= b);
        assert(s.subrange(8, 16) =~= c);
    } else {
        let a = be32(size as u32);
        let b = be32(box_type_code(kind));
        assert(s =~= a + b + rest);
        assert(s.subrange(0, 4) =~= a);
        assert(s.subrange(4, 8) =~= b);
        assert(be32_val(s.subrange(0, 4)) != 1);
        assert(size as u32 as u64 == size);
    }
}

} // verus!
