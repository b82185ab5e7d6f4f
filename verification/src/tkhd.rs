//! The track header box: per-track identity, timing, and display metadata.
//! Version 0 stores its timestamps and duration as 32-bit fields, version 1 as
//! 64-bit; the rest of the layout is shared.
use vstd::prelude::*;

use crate::boxtype::BoxType;
use crate::codec::{
    be16, be16_val, be32, be32_val, be64, be64_val, get_i32, get_u16, get_u32, get_u64, i32_of_u32,
    lemma_be16_round_trip, lemma_be32_round_trip, lemma_be64_round_trip, lemma_i32_round_trip,
    put_i32, put_u16, put_u32, put_u64, u32_of_i32,
};
use crate::fixed::{FixedPointU16, FixedPointU8};
use crate::fullbox::{
    ext_flags, ext_version, ext_word, lemma_ext_word_round_trip, read_box_header_ext,
    write_box_header_ext,
};
use crate::header::{header_bytes, BoxHeader};
use crate::Error;

verus! {

broadcast use vstd::seq::group_seq_axioms;

/// Flag bits of the track header's 3-byte flags field.
#[derive(Debug, Clone, Copy, PartialEq, Eq, Structural)]
pub enum TrackFlag {
    TrackEnabled,
}

/// The flag bit a variant stands for.
pub open spec fn track_flag_value(f: TrackFlag) -> u32 {
    match f {
        TrackFlag::TrackEnabled => 1,
    }
}

impl TrackFlag {
    /// The flag bit this variant stands for.
    pub fn value(&self) -> (r: u32)
        ensures
            r == track_flag_value(*self),
    {
        match *self {
            TrackFlag::TrackEnabled => 1,
        }
    }
}

/// The 3x3 transformation matrix of a track header, in 16.16 and 2.30
/// fixed-point wire words kept as signed 32-bit values.
#[derive(Debug, Clone, Copy, PartialEq, Eq, Structural)]
pub struct Matrix {
    pub a: i32,
    pub b: i32,
    pub u: i32,
    pub c: i32,
    pub d: i32,
    pub v: i32,
    pub x: i32,
    pub y: i32,
    pub w: i32,
}

impl Default for Matrix {
    /// The unity matrix.
    fn default() -> (r: Matrix)
        ensures
            r == (Matrix {
                a: 0x00010000,
                b: 0,
                u: 0,
                c: 0,
                d: 0x00010000,
                v: 0,
                x: 0,
                y: 0,
                w: 0x40000000,
            }),
    {
        Matrix { a: 0x00010000, b: 0, u: 0, c: 0, d: 0x00010000, v: 0, x: 0, y: 0, w: 0x40000000 }
    }
}

/// A decoded track header.
#[derive(Debug, Clone, Copy, PartialEq, Eq, Structural)]
pub struct TkhdBox {
    pub version: u8,
    pub flags: u32,
    pub creation_time: u64,
    pub modification_time: u64,
    pub track_id: u32,
    pub duration: u64,
    pub layer: u16,
    pub alternate_group: u16,
    pub volume: FixedPointU8,
    pub matrix: Matrix,
    pub width: FixedPointU16,
    pub height: FixedPointU16,
}

impl Default for TkhdBox {
    /// An enabled version-0 track header with zeroed identity, full volume and
    /// the unity matrix.
    fn default() -> (r: TkhdBox)
        ensures
            r == (TkhdBox {
                version: 0,
                flags: 1,
                creation_time: 0,
                modification_time: 0,
                track_id: 0,
                duration: 0,
                layer: 0,
                alternate_group: 0,
                volume: (FixedPointU8 { raw: 256 }),
                matrix: (Matrix {
                    a: 0x00010000,
                    b: 0,
                    u: 0,
                    c: 0,
                    d: 0x00010000,
                    v: 0,
                    x: 0,
                    y: 0,
                    w: 0x40000000,
                }),
                width: (FixedPointU16 { raw: 0 }),
                height: (FixedPointU16 { raw: 0 }),
            }),
    {
        TkhdBox {
            version: 0,
            flags: 1,
            creation_time: 0,
            modification_time: 0,
            track_id: 0,
            duration: 0,
            layer: 0,
            alternate_group: 0,
            volume: FixedPointU8::new(1),
            matrix: Matrix::default(),
            width: FixedPointU16::new(0),
            height: FixedPointU16::new(0),
        }
    }
}

/// The declared total size of a track header box of this version.
pub open spec fn tkhd_size_spec(b: TkhdBox) -> u64 {
    if b.version == 1 {
        104
    } else if b.version == 0 {
        92
    } else {
        72
    }
}

/// The version-dependent timing fields, as written on the wire.
pub open spec fn tkhd_time_bytes(b: TkhdBox) -> Seq<u8> {
    if b.version == 1 {
        be64(b.creation_time) + be64(b.modification_time) + be32(b.track_id) + be32(0) + be64(
            b.duration,
        )
    } else {
        be32(b.creation_time as u32) + be32(b.modification_time as u32) + be32(b.track_id) + be32(0)
            + be32(b.duration as u32)
    }
}

/// The fields every version shares, as written on the wire.
pub open spec fn tkhd_tail_bytes(b: TkhdBox) -> Seq<u8> {
    be64(0) + be16(b.layer) + be16(b.alternate_group) + be16(b.volume.raw) + be16(0) + be32(
        u32_of_i32(b.matrix.a),
    ) + be32(u32_of_i32(b.matrix.b)) + be32(u32_of_i32(b.matrix.u)) + be32(u32_of_i32(b.matrix.c))
        + be32(u32_of_i32(b.matrix.d)) + be32(u32_of_i32(b.matrix.v)) + be32(u32_of_i32(b.matrix.x))
        + be32(u32_of_i32(b.matrix.y)) + be32(u32_of_i32(b.matrix.w)) + be32(b.width.raw) + be32(
        b.height.raw,
    )
}

/// The whole payload of a track header box: the full-box word, the timing
/// fields, then the shared tail.
pub open spec fn tkhd_payload(b: TkhdBox) -> Seq<u8> {
    be32(ext_word(b.version, b.flags)) + tkhd_time_bytes(b) + tkhd_tail_bytes(b)
}

/// The bytes a whole track header box is written as, header included.
pub open spec fn tkhd_bytes(b: TkhdBox) -> Seq<u8> {
    header_bytes(BoxType::TkhdBox, tkhd_size_spec(b)) + tkhd_payload(b)
}

/// The track header the shared tail at `base` decodes to, joined with the
/// already-decoded version-dependent fields.
pub open spec fn parse_tkhd_tail(
    data: Seq<u8>,
    base: int,
    version: u8,
    flags: u32,
    ct: u64,
    mt: u64,
    id: u32,
    dur: u64,
) -> TkhdBox {
    TkhdBox {
        version,
        flags,
        creation_time: ct,
        modification_time: mt,
        track_id: id,
        duration: dur,
        layer: be16_val(data.subrange(base + 8, base + 10)),
        alternate_group: be16_val(data.subrange(base + 10, base + 12)),
        volume: FixedPointU8 { raw: be16_val(data.subrange(base + 12, base + 14)) },
        matrix: Matrix {
            a: i32_of_u32(be32_val(data.subrange(base + 16, base + 20))),
            b: i32_of_u32(be32_val(data.subrange(base + 20, base + 24))),
            u: i32_of_u32(be32_val(data.subrange(base + 24, base + 28))),
            c: i32_of_u32(be32_val(data.subrange(base + 28, base + 32))),
            d: i32_of_u32(be32_val(data.subrange(base + 32, base + 36))),
            v: i32_of_u32(be32_val(data.subrange(base + 36, base + 40))),
            x: i32_of_u32(be32_val(data.subrange(base + 40, base + 44))),
            y: i32_of_u32(be32_val(data.subrange(base + 44, base + 48))),
            w: i32_of_u32(be32_val(data.subrange(base + 48, base + 52))),
        },
        width: FixedPointU16 { raw: be32_val(data.subrange(base + 52, base + 56)) },
        height: FixedPointU16 { raw: be32_val(data.subrange(base + 56, base + 60)) },
    }
}

/// The track header a bounded payload decodes to, or nothing where the
/// payload is too short or its version is unsupported.
pub open spec fn parse_tkhd(data: Seq<u8>) -> Option<TkhdBox> {
    if data.len() < 4 {
        None
    } else {
        let w = be32_val(data.subrange(0, 4));
        let version = ext_version(w);
        let flags = ext_flags(w);
        if version == 1 {
            if data.len() < 96 {
                None
            } else {
                Some(
                    parse_tkhd_tail(
                        data,
                        36,
                        1,
                        flags,
                        be64_val(data.subrange(4, 12)),
                        be64_val(data.subrange(12, 20)),
                        be32_val(data.subrange(20, 24)),
                        be64_val(data.subrange(28, 36)),
                    ),
                )
            }
        } else if version == 0 {
            if data.len() < 84 {
                None
            } else {
                Some(
                    parse_tkhd_tail(
                        data,
                        24,
                        0,
                        flags,
                        be32_val(data.subrange(4, 8)) as u64,
                        be32_val(data.subrange(8, 12)) as u64,
                        be32_val(data.subrange(12, 16)),
                        be32_val(data.subrange(20, 24)) as u64,
                    ),
                )
            }
        } else {
            None
        }
    }
}

impl TkhdBox {
    /// This box's type tag.
    pub fn get_type(&self) -> (r: BoxType)
        ensures
            r == BoxType::TkhdBox,
    {
        BoxType::TkhdBox
    }

    /// The declared total size of this box on the wire.
    pub fn get_size(&self) -> (r: u64)
        ensures
            r == tkhd_size_spec(*self),
    {
        let mut size: u64 = 8 + 4;
        if self.version == 1 {
            size += 32;
        } else if self.version == 0 {
            size += 20;
        }
        size += 60;
        size
    }

    /// Set the display width to an integer value.
    pub fn set_width(&mut self, width: u16)
        ensures
            *final(self) == (TkhdBox { width: (FixedPointU16 { raw: (65536 * (width as u32)) as u32 }), ..*old(
                self,
            ) }),
    {
        self.width = FixedPointU16::new(width);
    }

    /// Set the display height to an integer value.
    pub fn set_height(&mut self, height: u16)
        ensures
            *final(self) == (TkhdBox { height: (FixedPointU16 { raw: (65536 * (height as u32)) as u32 }), ..*old(
                self,
            ) }),
    {
        self.height = FixedPointU16::new(height);
    }

    /// Decode a track header from a bounded payload slice.
    pub fn read_block(data: &[u8]) -> (r: Result<TkhdBox, Error>)
        ensures
            parse_tkhd(data@) matches Some(b) ==> r == Ok::<TkhdBox, Error>(b),
            data@.len() < 4 ==> r == Err::<TkhdBox, Error>(Error::Truncated),
            data@.len() >= 4 && ext_version(be32_val(data@.subrange(0, 4))) > 1 ==> r == Err::<
                TkhdBox,
                Error,
            >(Error::InvalidData("version must be 0 or 1")),
            data@.len() >= 4 && parse_tkhd(data@) is None && ext_version(
                be32_val(data@.subrange(0, 4)),
            ) <= 1 ==> r == Err::<TkhdBox, Error>(Error::Truncated),
    {
        if data.len() < 4 {
            return Err(Error::Truncated);
        }
        let (version, flags) = read_box_header_ext(data, 0);
        let (creation_time, modification_time, track_id, duration, base): (
            u64,
            u64,
            u32,
            u64,
            usize,
        ) = if version == 1 {
            if data.len() < 96 {
                return Err(Error::Truncated);
            }
            (get_u64(data, 4), get_u64(data, 12), get_u32(data, 20), get_u64(data, 28), 36)
        } else if version == 0 {
            if data.len() < 84 {
                return Err(Error::Truncated);
            }
            (
                get_u32(data, 4) as u64,
                get_u32(data, 8) as u64,
                get_u32(data, 12),
                get_u32(data, 20) as u64,
                24,
            )
        } else {
            return Err(Error::InvalidData("version must be 0 or 1"));
        };
        let layer = get_u16(data, base + 8);
        let alternate_group = get_u16(data, base + 10);
        let volume = FixedPointU8::new_raw(get_u16(data, base + 12));
        let matrix = Matrix {
            a: get_i32(data, base + 16),
            b: get_i32(data, base + 20),
            u: get_i32(data, base + 24),
            c: get_i32(data, base + 28),
            d: get_i32(data, base + 32),
            v: get_i32(data, base + 36),
            x: get_i32(data, base + 40),
            y: get_i32(data, base + 44),
            w: get_i32(data, base + 48),
        };
        let width = FixedPointU16::new_raw(get_u32(data, base + 52));
        let height = FixedPointU16::new_raw(get_u32(data, base + 56));
        Ok(
            TkhdBox {
                version,
                flags,
                creation_time,
                modification_time,
                track_id,
                duration,
                layer,
                alternate_group,
                volume,
                matrix,
                width,
                height,
            },
        )
    }

    /// Encode this track header, box header included, returning the total
    /// bytes written; a version other than 0 or 1 is rejected unwritten.
    #[verifier::rlimit(60)]
    pub fn write_box(&self, out: &mut Vec<u8>) -> (r: Result<u64, Error>)
        ensures
            self.version <= 1 ==> r == Ok::<u64, Error>(tkhd_size_spec(*self)) && final(out)@ == old(
                out,
            )@ + tkhd_bytes(*self) && final(out)@.len() == old(out)@.len() + tkhd_size_spec(*self),
            self.version > 1 ==> r == Err::<u64, Error>(
                Error::InvalidData("version must be 0 or 1"),
            ) && final(out)@ == old(out)@,
    {
        if self.version > 1 {
            return Err(Error::InvalidData("version must be 0 or 1"));
        }
        let size = self.get_size();
        let header = BoxHeader::new(BoxType::TkhdBox, size);
        header.write(out);
        write_box_header_ext(out, self.version, self.flags);
        let ghost mid = old(out)@ + header_bytes(BoxType::TkhdBox, tkhd_size_spec(*self)) + be32(
            ext_word(self.version, self.flags),
        );
        if self.version == 1 {
            put_u64(out, self.creation_time);
            put_u64(out, self.modification_time);
            put_u32(out, self.track_id);
            put_u32(out, 0);
            put_u64(out, self.duration);
            proof {
                assert(out@ =~= mid + tkhd_time_bytes(*self));
            }
        } else {
            put_u32(out, #[verifier::truncate] (self.creation_time as u32));
            put_u32(out, #[verifier::truncate] (self.modification_time as u32));
            put_u32(out, self.track_id);
            put_u32(out, 0);
            put_u32(out, #[verifier::truncate] (self.duration as u32));
            proof {
                assert(out@ =~= mid + tkhd_time_bytes(*self));
            }
        }
        put_u64(out, 0);
        put_u16(out, self.layer);
        put_u16(out, self.alternate_group);
        put_u16(out, self.volume.raw_value());
        put_u16(out, 0);
        put_i32(out, self.matrix.a);
        put_i32(out, self.matrix.b);
        put_i32(out, self.matrix.u);
        put_i32(out, self.matrix.c);
        put_i32(out, self.matrix.d);
        put_i32(out, self.matrix.v);
        put_i32(out, self.matrix.x);
        put_i32(out, self.matrix.y);
        put_i32(out, self.matrix.w);
        put_u32(out, self.width.raw_value());
        put_u32(out, self.height.raw_value());
        proof {
            assert(out@ =~= mid + tkhd_time_bytes(*self) + tkhd_tail_bytes(*self));
            assert(out@ =~= old(out)@ + tkhd_bytes(*self));
        }
        Ok(size)
    }
}

/// Round-trip law: decoding the encoded payload of a well-formed track header
/// gives the header back. Well-formed means a version of 0 or 1, flags that
/// fit their 3-byte field, and version-0 timing fields that fit 32 bits.
pub proof fn lemma_tkhd_round_trip(b: TkhdBox)
    requires
        b.version == 0 || b.version == 1,
        b.flags < 0x1000000,
        b.version == 0 ==> b.creation_time <= u32::MAX && b.modification_time <= u32::MAX
            && b.duration <= u32::MAX,
    ensures
        parse_tkhd(tkhd_payload(b)) == Some(b),
        tkhd_payload(b).len() + 8 == tkhd_size_spec(b),
{
    lemma_be16_round_trip();
    lemma_be32_round_trip();
    lemma_be64_round_trip();
    lemma_ext_word_round_trip(b.version, b.flags);
    let p = tkhd_payload(b);
    let base: int = if b.version == 1 {
        36
    } else {
        24
    };
    assert(p.subrange(0, 4) =~= be32(ext_word(b.version, b.flags)));
    if b.version == 1 {
        assert(p.subrange(4, 12) =~= be64(b.creation_time));
        assert(p.subrange(12, 20) =~= be64(b.modification_time));
        assert(p.subrange(20, 24) =~= be32(b.track_id));
        assert(p.subrange(28, 36) =~= be64(b.duration));
    } else {
        assert(p.subrange(4, 8) =~= be32(b.creation_time as u32));
        assert(p.subrange(8, 12) =~= be32(b.modification_time as u32));
        assert(p.subrange(12, 16) =~= be32(b.track_id));
        assert(p.subrange(20, 24) =~= be32(b.duration as u32));
        assert(b.creation_time as u32 as u64 == b.creation_time);
        assert(b.modification_time as u32 as u64 == b.modification_time);
        assert(b.duration as u32 as u64 == b.duration);
    }
    assert(p.subrange(base + 8, base + 10) =~= be16(b.layer));
    assert(p.subrange(base + 10, base + 12) =~= be16(b.alternate_group));
    assert(p.subrange(base + 12, base + 14) =~= be16(b.volume.raw));
    assert(p.subrange(base + 16, base + 20) =~= be32(u32_of_i32(b.matrix.a)));
    assert(p.subrange(base + 20, base + 24) =~= be32(u32_of_i32(b.matrix.b)));
    assert(p.subrange(base + 24, base + 28) =~= be32(u32_of_i32(b.matrix.u)));
    assert(p.subrange(base + 28, base + 32) =~= be32(u32_of_i32(b.matrix.c)));
    assert(p.subrange(base + 32, base + 36) =~= be32(u32_of_i32(b.matrix.d)));
    assert(p.subrange(base + 36, base + 40) =~= be32(u32_of_i32(b.matrix.v)));
    assert(p.subrange(base + 40, base + 44) =~= be32(u32_of_i32(b.matrix.x)));
    assert(p.subrange(base + 44, base + 48) =~= be32(u32_of_i32(b.matrix.y)));
    assert(p.subrange(base + 48, base + 52) =~= be32(u32_of_i32(b.matrix.w)));
    assert(p.subrange(base + 52, base + 56) =~= be32(b.width.raw));
    assert(p.subrange(base + 56, base + 60) =~= be32(b.height.raw));
    lemma_i32_round_trip(b.matrix.a);
    lemma_i32_round_trip(b.matrix.b);
    lemma_i32_round_trip(b.matrix.u);
    lemma_i32_round_trip(b.matrix.c);
    lemma_i32_round_trip(b.matrix.d);
    lemma_i32_round_trip(b.matrix.v);
    lemma_i32_round_trip(b.matrix.x);
    lemma_i32_round_trip(b.matrix.y);
    lemma_i32_round_trip(b.matrix.w);
}

} // verus!
