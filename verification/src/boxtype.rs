//! The closed set of box type tags the crate knows, and their four-character
//! wire codes.
use vstd::prelude::*;

verus! {

pub const FOURCC_FTYP: u32 = 0x66747970;
pub const FOURCC_MOOV: u32 = 0x6D6F6F76;
pub const FOURCC_MOOF: u32 = 0x6D6F6F66;
pub const FOURCC_MDAT: u32 = 0x6D646174;
pub const FOURCC_EMSG: u32 = 0x656D7367;
pub const FOURCC_TRAK: u32 = 0x7472616B;
pub const FOURCC_MDIA: u32 = 0x6D646961;
pub const FOURCC_MINF: u32 = 0x6D696E66;
pub const FOURCC_STBL: u32 = 0x7374626C;
pub const FOURCC_TKHD: u32 = 0x746B6864;
pub const FOURCC_STCO: u32 = 0x7374636F;
pub const FOURCC_CO64: u32 = 0x636F3634;
pub const FOURCC_STSZ: u32 = 0x7374737A;
pub const FOURCC_STSC: u32 = 0x73747363;
pub const FOURCC_STTS: u32 = 0x73747473;
pub const FOURCC_STSS: u32 = 0x73747373;
pub const FOURCC_CTTS: u32 = 0x63747473;
pub const FOURCC_TRAF: u32 = 0x74726166;
pub const FOURCC_TFHD: u32 = 0x74666864;
pub const FOURCC_TRUN: u32 = 0x7472756E;

/// A box type tag: one variant per box kind the crate decodes, and a catch-all
/// carrying the wire code of any other tag, so unknown boxes stay skippable.
#[derive(Debug, Clone, Copy, PartialEq, Eq, Structural)]
pub enum BoxType {
    FtypBox,
    MoovBox,
    MoofBox,
    MdatBox,
    EmsgBox,
    TrakBox,
    MdiaBox,
    MinfBox,
    StblBox,
    TkhdBox,
    StcoBox,
    Co64Box,
    StszBox,
    StscBox,
    SttsBox,
    StssBox,
    CttsBox,
    TrafBox,
    TfhdBox,
    TrunBox,
    UnknownBox(u32),
}

/// The 4-byte wire code a tag is written as.
pub open spec fn box_type_code(t: BoxType) -> u32 {
    match t {
        BoxType::FtypBox => FOURCC_FTYP,
        BoxType::MoovBox => FOURCC_MOOV,
        BoxType::MoofBox => FOURCC_MOOF,
        BoxType::MdatBox => FOURCC_MDAT,
        BoxType::EmsgBox => FOURCC_EMSG,
        BoxType::TrakBox => FOURCC_TRAK,
        BoxType::MdiaBox => FOURCC_MDIA,
        BoxType::MinfBox => FOURCC_MINF,
        BoxType::StblBox => FOURCC_STBL,
        BoxType::TkhdBox => FOURCC_TKHD,
        BoxType::StcoBox => FOURCC_STCO,
        BoxType::Co64Box => FOURCC_CO64,
        BoxType::StszBox => FOURCC_STSZ,
        BoxType::StscBox => FOURCC_STSC,
        BoxType::SttsBox => FOURCC_STTS,
        BoxType::StssBox => FOURCC_STSS,
        BoxType::CttsBox => FOURCC_CTTS,
        BoxType::TrafBox => FOURCC_TRAF,
        BoxType::TfhdBox => FOURCC_TFHD,
        BoxType::TrunBox => FOURCC_TRUN,
        BoxType::UnknownBox(c) => c,
    }
}

/// The tag a 4-byte wire code decodes to.
pub open spec fn box_type_of(c: u32) -> BoxType {
    if c == FOURCC_FTYP {
        BoxType::FtypBox
    } else if c == FOURCC_MOOV {
        BoxType::MoovBox
    } else if c == FOURCC_MOOF {
        BoxType::MoofBox
    } else if c == FOURCC_MDAT {
        BoxType::MdatBox
    } else if c == FOURCC_EMSG {
        BoxType::EmsgBox
    } else if c == FOURCC_TRAK {
        BoxType::TrakBox
    } else if c == FOURCC_MDIA {
        BoxType::MdiaBox
    } else if c == FOURCC_MINF {
        BoxType::MinfBox
    } else if c == FOURCC_STBL {
        BoxType::StblBox
    } else if c == FOURCC_TKHD {
        BoxType::TkhdBox
    } else if c == FOURCC_STCO {
        BoxType::StcoBox
    } else if c == FOURCC_CO64 {
        BoxType::Co64Box
    } else if c == FOURCC_STSZ {
        BoxType::StszBox
    } else if c == FOURCC_STSC {
        BoxType::StscBox
    } else if c == FOURCC_STTS {
        BoxType::SttsBox
    } else if c == FOURCC_STSS {
        BoxType::StssBox
    } else if c == FOURCC_CTTS {
        BoxType::CttsBox
    } else if c == FOURCC_TRAF {
        BoxType::TrafBox
    } else if c == FOURCC_TFHD {
        BoxType::TfhdBox
    } else if c == FOURCC_TRUN {
        BoxType::TrunBox
    } else {
        BoxType::UnknownBox(c)
    }
}

/// A tag is canonical when it is not an `UnknownBox` wrapping the code of a
/// known tag; decoding a tag's own code then gives the tag back.
pub open spec fn box_type_canonical(t: BoxType) -> bool {
    box_type_of(box_type_code(t)) == t
}

impl BoxType {
    /// Decode a 4-byte wire code into a tag.
    pub fn from_u32(c: u32) -> (r: BoxType)
        ensures
            r == box_type_of(c),
    {
        if c == FOURCC_FTYP {
            BoxType::FtypBox
        } else if c == FOURCC_MOOV {
            BoxType::MoovBox
        } else if c == FOURCC_MOOF {
            BoxType::MoofBox
        } else if c == FOURCC_MDAT {
            BoxType::MdatBox
        } else if c == FOURCC_EMSG {
            BoxType::EmsgBox
        } else if c == FOURCC_TRAK {
            BoxType::TrakBox
        } else if c == FOURCC_MDIA {
            BoxType::MdiaBox
        } else if c == FOURCC_MINF {
            BoxType::MinfBox
        } else if c == FOURCC_STBL {
            BoxType::StblBox
        } else if c == FOURCC_TKHD {
            BoxType::TkhdBox
        } else if c == FOURCC_STCO {
            BoxType::StcoBox
        } else if c == FOURCC_CO64 {
            BoxType::Co64Box
        } else if c == FOURCC_STSZ {
            BoxType::StszBox
        } else if c == FOURCC_STSC {
            BoxType::StscBox
        } else if c == FOURCC_STTS {
            BoxType::SttsBox
        } else if c == FOURCC_STSS {
            BoxType::StssBox
        } else if c == FOURCC_CTTS {
            BoxType::CttsBox
        } else if c == FOURCC_TRAF {
            BoxType::TrafBox
        } else if c == FOURCC_TFHD {
            BoxType::TfhdBox
        } else if c == FOURCC_TRUN {
            BoxType::TrunBox
        } else {
            BoxType::UnknownBox(c)
        }
    }

    /// The 4-byte wire code this tag is written as.
    pub fn to_u32(&self) -> (r: u32)
        ensures
            r == box_type_code(*self),
    {
        match *self {
            BoxType::FtypBox => FOURCC_FTYP,
            BoxType::MoovBox => FOURCC_MOOV,
            BoxType::MoofBox => FOURCC_MOOF,
            BoxType::MdatBox => FOURCC_MDAT,
            BoxType::EmsgBox => FOURCC_EMSG,
            BoxType::TrakBox => FOURCC_TRAK,
            BoxType::MdiaBox => FOURCC_MDIA,
            BoxType::MinfBox => FOURCC_MINF,
            BoxType::StblBox => FOURCC_STBL,
            BoxType::TkhdBox => FOURCC_TKHD,
            BoxType::StcoBox => FOURCC_STCO,
            BoxType::Co64Box => FOURCC_CO64,
            BoxType::StszBox => FOURCC_STSZ,
            BoxType::StscBox => FOURCC_STSC,
            BoxType::SttsBox => FOURCC_STTS,
            BoxType::StssBox => FOURCC_STSS,
            BoxType::CttsBox => FOURCC_CTTS,
            BoxType::TrafBox => FOURCC_TRAF,
            BoxType::TfhdBox => FOURCC_TFHD,
            BoxType::TrunBox => FOURCC_TRUN,
            BoxType::UnknownBox(c) => c,
        }
    }
}

/// Decoding any wire code and re-encoding it gives the code back.
pub proof fn lemma_box_type_code_round_trip(c: u32)
    ensures
        box_type_code(box_type_of(c)) == c,
{
}

} // verus!
