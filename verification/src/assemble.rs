//! The box tree assembler: recursive descent over a bounded byte slice,
//! reading one sibling header after another, decoding the children a container
//! cares about and skipping the rest structurally.
use vstd::prelude::*;

use crate::boxtype::BoxType;
use crate::co64::{parse_co64, Co64Box};
use crate::codec::{be32_val, be64_val, get_i32, get_u32, get_u64, i32_of_u32};
use crate::fragment::{MoofBox, TfhdBox, TrafBox, TrunBox, TrunEntry};
use crate::fullbox::{ext_flags, read_box_header_ext};
use crate::file::MoovBox;
use crate::header::{parse_header_at, BoxHeader, HeaderParse};
use crate::stbl::{
    parse_ctts, parse_stco, parse_stsc, parse_stss, parse_stsz, parse_stts, CttsBox, CttsEntry,
    StblBox, StcoBox, StscBox, StscEntry, StssBox, StszBox, SttsBox, SttsEntry,
};
use crate::tkhd::{parse_tkhd, TkhdBox};
use crate::track::{MdiaBox, MinfBox, TrakBox};
use crate::Error;

verus! {

broadcast use vstd::seq::group_seq_axioms;

/// The child box starting at `pos`: its tag and the bounds of its payload,
/// with a declared size of 0 running to the end of the slice; nothing where
/// the header is truncated, smaller than itself, or past the slice's end.
pub open spec fn child_at(data: Seq<u8>, pos: int) -> Option<(BoxType, int, int)> {
    match parse_header_at(data, pos) {
        HeaderParse::Value(h) => {
            let size: int = if h.size == 0 {
                data.len() - pos
            } else {
                h.size as int
            };
            if size < 8 || size < h.header_len || pos + size > data.len() {
                None
            } else {
                Some((h.kind, pos + h.header_len, pos + size))
            }
        },
        _ => None,
    }
}

/// The decoded views a sample-table scan has collected so far.
pub struct StblAcc {
    pub stco: Option<(u8, u32, Seq<u32>)>,
    pub co64: Option<(u8, u32, Seq<u64>)>,
    pub stsz: Option<(u8, u32, u32, u32, Seq<u32>)>,
    pub stsc: Option<(u8, u32, Seq<StscEntry>)>,
    pub stts: Option<(u8, u32, Seq<SttsEntry>)>,
    pub stss: Option<(u8, u32, Seq<u32>)>,
    pub ctts: Option<(u8, u32, Seq<CttsEntry>)>,
}

/// A scan that has seen nothing yet.
pub open spec fn stbl_acc_empty() -> StblAcc {
    StblAcc { stco: None, co64: None, stsz: None, stsc: None, stts: None, stss: None, ctts: None }
}

/// The views of the tables a decoded sample-table box holds.
pub open spec fn stbl_to_acc(b: StblBox) -> StblAcc {
    StblAcc {
        stco: match b.stco {
            Some(x) => Some((x.version, x.flags, x.entries@)),
            None => None,
        },
        co64: match b.co64 {
            Some(x) => Some((x.version, x.flags, x.entries@)),
            None => None,
        },
        stsz: Some(
            (
                b.stsz.version,
                b.stsz.flags,
                b.stsz.sample_size,
                b.stsz.sample_count,
                b.stsz.sample_sizes@,
            ),
        ),
        stsc: Some((b.stsc.version, b.stsc.flags, b.stsc.entries@)),
        stts: Some((b.stts.version, b.stts.flags, b.stts.entries@)),
        stss: match b.stss {
            Some(x) => Some((x.version, x.flags, x.entries@)),
            None => None,
        },
        ctts: match b.ctts {
            Some(x) => Some((x.version, x.flags, x.entries@)),
            None => None,
        },
    }
}

/// Walk the sibling boxes of a sample-table payload from `pos`, folding each
/// recognized table into the accumulator and skipping unknown tags.
pub open spec fn scan_stbl(data: Seq<u8>, pos: int, acc: StblAcc) -> Option<StblAcc>
    decreases data.len() - pos,
{
    if pos < 0 || pos > data.len() {
        None
    } else if pos == data.len() {
        Some(acc)
    } else {
        match child_at(data, pos) {
            None => None,
            Some((kind, ps, end)) => {
                let payload = data.subrange(ps, end);
                if kind == BoxType::StcoBox {
                    match parse_stco(payload) {
                        Some(v) => scan_stbl(data, end, StblAcc { stco: Some(v), ..acc }),
                        None => None,
                    }
                } else if kind == BoxType::Co64Box {
                    match parse_co64(payload) {
                        Some(v) => scan_stbl(data, end, StblAcc { co64: Some(v), ..acc }),
                        None => None,
                    }
                } else if kind == BoxType::StszBox {
                    match parse_stsz(payload) {
                        Some(v) => scan_stbl(data, end, StblAcc { stsz: Some(v), ..acc }),
                        None => None,
                    }
                } else if kind == BoxType::StscBox {
                    match parse_stsc(payload) {
                        Some(v) => scan_stbl(data, end, StblAcc { stsc: Some(v), ..acc }),
                        None => None,
                    }
                } else if kind == BoxType::SttsBox {
                    match parse_stts(payload) {
                        Some(v) => scan_stbl(data, end, StblAcc { stts: Some(v), ..acc }),
                        None => None,
                    }
                } else if kind == BoxType::StssBox {
                    match parse_stss(payload) {
                        Some(v) => scan_stbl(data, end, StblAcc { stss: Some(v), ..acc }),
                        None => None,
                    }
                } else if kind == BoxType::CttsBox {
                    match parse_ctts(payload) {
                        Some(v) => scan_stbl(data, end, StblAcc { ctts: Some(v), ..acc }),
                        None => None,
                    }
                } else {
                    scan_stbl(data, end, acc)
                }
            },
        }
    }
}

/// What a sample-table payload decodes to: the scanned tables, requiring the
/// size, chunk-run and time-run tables to be present.
pub open spec fn parse_stbl(data: Seq<u8>) -> Option<StblAcc> {
    match scan_stbl(data, 0, stbl_acc_empty()) {
        None => None,
        Some(acc) => if acc.stsz is Some && acc.stsc is Some && acc.stts is Some {
            Some(acc)
        } else {
            None
        },
    }
}

/// Walk a media-information payload, keeping its sample table.
pub open spec fn scan_minf(data: Seq<u8>, pos: int, acc: Option<StblAcc>) -> Option<
    Option<StblAcc>,
>
    decreases data.len() - pos,
{
    if pos < 0 || pos > data.len() {
        None
    } else if pos == data.len() {
        Some(acc)
    } else {
        match child_at(data, pos) {
            None => None,
            Some((kind, ps, end)) => {
                if kind == BoxType::StblBox {
                    match parse_stbl(data.subrange(ps, end)) {
                        Some(v) => scan_minf(data, end, Some(v)),
                        None => None,
                    }
                } else {
                    scan_minf(data, end, acc)
                }
            },
        }
    }
}

/// What a media-information payload decodes to: its sample table, which must
/// be present.
pub open spec fn parse_minf(data: Seq<u8>) -> Option<StblAcc> {
    match scan_minf(data, 0, None) {
        None => None,
        Some(acc) => acc,
    }
}

/// Walk a media payload, keeping its media information.
pub open spec fn scan_mdia(data: Seq<u8>, pos: int, acc: Option<StblAcc>) -> Option<
    Option<StblAcc>,
>
    decreases data.len() - pos,
{
    if pos < 0 || pos > data.len() {
        None
    } else if pos == data.len() {
        Some(acc)
    } else {
        match child_at(data, pos) {
            None => None,
            Some((kind, ps, end)) => {
                if kind == BoxType::MinfBox {
                    match parse_minf(data.subrange(ps, end)) {
                        Some(v) => scan_mdia(data, end, Some(v)),
                        None => None,
                    }
                } else {
                    scan_mdia(data, end, acc)
                }
            },
        }
    }
}

/// What a media payload decodes to: the sample table of its media
/// information, which must be present.
pub open spec fn parse_mdia(data: Seq<u8>) -> Option<StblAcc> {
    match scan_mdia(data, 0, None) {
        None => None,
        Some(acc) => acc,
    }
}

/// Walk a track payload, keeping its header and its media chain.
pub open spec fn scan_trak(
    data: Seq<u8>,
    pos: int,
    tkhd: Option<TkhdBox>,
    stbl: Option<StblAcc>,
) -> Option<(Option<TkhdBox>, Option<StblAcc>)>
    decreases data.len() - pos,
{
    if pos < 0 || pos > data.len() {
        None
    } else if pos == data.len() {
        Some((tkhd, stbl))
    } else {
        match child_at(data, pos) {
            None => None,
            Some((kind, ps, end)) => {
                if kind == BoxType::TkhdBox {
                    match parse_tkhd(data.subrange(ps, end)) {
                        Some(v) => scan_trak(data, end, Some(v), stbl),
                        None => None,
                    }
                } else if kind == BoxType::MdiaBox {
                    match parse_mdia(data.subrange(ps, end)) {
                        Some(v) => scan_trak(data, end, tkhd, Some(v)),
                        None => None,
                    }
                } else {
                    scan_trak(data, end, tkhd, stbl)
                }
            },
        }
    }
}

/// What a track payload decodes to: its header and its sample-table views,
/// both of which must be present.
pub open spec fn parse_trak(data: Seq<u8>) -> Option<(TkhdBox, StblAcc)> {
    match scan_trak(data, 0, None, None) {
        None => None,
        Some((tkhd, stbl)) => match (tkhd, stbl) {
            (Some(t), Some(s)) => Some((t, s)),
            _ => None,
        },
    }
}

/// Walk a movie payload, collecting its tracks in file order.
pub open spec fn scan_moov(data: Seq<u8>, pos: int, acc: Seq<(TkhdBox, StblAcc)>) -> Option<
    Seq<(TkhdBox, StblAcc)>,
>
    decreases data.len() - pos,
{
    if pos < 0 || pos > data.len() {
        None
    } else if pos == data.len() {
        Some(acc)
    } else {
        match child_at(data, pos) {
            None => None,
            Some((kind, ps, end)) => {
                if kind == BoxType::TrakBox {
                    match parse_trak(data.subrange(ps, end)) {
                        Some(v) => scan_moov(data, end, acc.push(v)),
                        None => None,
                    }
                } else {
                    scan_moov(data, end, acc)
                }
            },
        }
    }
}

/// What a movie payload decodes to: its tracks' views, in file order.
pub open spec fn parse_moov(data: Seq<u8>) -> Option<Seq<(TkhdBox, StblAcc)>> {
    scan_moov(data, 0, Seq::empty())
}

/// Whether a decoded track matches a scanned track view.
pub open spec fn trak_matches(t: TrakBox, v: (TkhdBox, StblAcc)) -> bool {
    t.tkhd == v.0 && stbl_to_acc(t.mdia.minf.stbl) == v.1
}

/// Whether a decoded movie box matches a scanned movie view, track by track.
pub open spec fn moov_matches(m: MoovBox, v: Seq<(TkhdBox, StblAcc)>) -> bool {
    m.traks@.len() == v.len() && (forall|i: int|
        0 <= i < v.len() ==> #[trigger] trak_matches(m.traks@[i], v[i]))
}

/// Read the next sibling header inside a bounded slice and return its tag and
/// payload bounds, exactly as `child_at` fixes them.
fn read_child(data: &[u8], pos: usize) -> (r: Result<(BoxType, usize, usize), Error>)
    requires
        pos < data@.len(),
    ensures
        child_at(data@, pos as int) is None ==> r is Err,
        (child_at(data@, pos as int) matches Some(c) ==> r matches Ok(p) && p.0 == c.0 && p.1
            as int == c.1 && p.2 as int == c.2),
{
    let len = data.len();
    let (header, ps) = match BoxHeader::read_at(data, pos) {
        Ok(Some(p)) => p,
        Ok(None) => {
            proof {
                assert(false);
            }
            return Err(Error::Truncated);
        },
        Err(e) => {
            return Err(e);
        },
    };
    let size: u64 = if header.size == 0 {
        (len - pos) as u64
    } else {
        header.size
    };
    if size < 8 || size < header.header_len {
        return Err(Error::InvalidData("box is smaller than its own header"));
    }
    if size > (len - pos) as u64 {
        return Err(Error::Truncated);
    }
    Ok((header.kind, ps, pos + (size as usize)))
}

impl StblBox {
    /// Decode a sample-table box from a bounded payload slice, walking its
    /// children and requiring the size, chunk-run and time-run tables.
    pub fn read_block(data: &[u8]) -> (r: Result<StblBox, Error>)
        ensures
            r is Ok <==> parse_stbl(data@) is Some,
            (r matches Ok(b) ==> stbl_to_acc(b) == parse_stbl(data@).unwrap()),
    {
        let ghost whole = scan_stbl(data@, 0, stbl_acc_empty());
        let mut stco: Option<StcoBox> = None;
        let mut co64: Option<Co64Box> = None;
        let mut stsz: Option<StszBox> = None;
        let mut stsc: Option<StscBox> = None;
        let mut stts: Option<SttsBox> = None;
        let mut stss: Option<StssBox> = None;
        let mut ctts: Option<CttsBox> = None;
        let mut pos: usize = 0;
        let len = data.len();
        while pos < len
            invariant
                len == data@.len(),
                pos <= len,
                whole == scan_stbl(data@, 0, stbl_acc_empty()),
                whole == scan_stbl(
                    data@,
                    pos as int,
                    StblAcc {
                        stco: match stco {
                            Some(x) => Some((x.version, x.flags, x.entries@)),
                            None => None,
                        },
                        co64: match co64 {
                            Some(x) => Some((x.version, x.flags, x.entries@)),
                            None => None,
                        },
                        stsz: match stsz {
                            Some(x) => Some(
                                (x.version, x.flags, x.sample_size, x.sample_count, x.sample_sizes@),
                            ),
                            None => None,
                        },
                        stsc: match stsc {
                            Some(x) => Some((x.version, x.flags, x.entries@)),
                            None => None,
                        },
                        stts: match stts {
                            Some(x) => Some((x.version, x.flags, x.entries@)),
                            None => None,
                        },
                        stss: match stss {
                            Some(x) => Some((x.version, x.flags, x.entries@)),
                            None => None,
                        },
                        ctts: match ctts {
                            Some(x) => Some((x.version, x.flags, x.entries@)),
                            None => None,
                        },
                    },
                ),
            decreases len - pos,
        {
            let (kind, ps, end) = match read_child(data, pos) {
                Ok(c) => c,
                Err(e) => {
                    return Err(e);
                },
            };
            let payload = vstd::slice::slice_subrange(data, ps, end);
            match kind {
                BoxType::StcoBox => {
                    stco = Some(
                        match StcoBox::read_block(payload) {
                            Ok(b) => b,
                            Err(e) => {
                                return Err(e);
                            },
                        },
                    );
                },
                BoxType::Co64Box => {
                    co64 = Some(
                        match Co64Box::read_block(payload) {
                            Ok(b) => b,
                            Err(e) => {
                                return Err(e);
                            },
                        },
                    );
                },
                BoxType::StszBox => {
                    stsz = Some(
                        match StszBox::read_block(payload) {
                            Ok(b) => b,
                            Err(e) => {
                                return Err(e);
                            },
                        },
                    );
                },
                BoxType::StscBox => {
                    stsc = Some(
                        match StscBox::read_block(payload) {
                            Ok(b) => b,
                            Err(e) => {
                                return Err(e);
                            },
                        },
                    );
                },
                BoxType::SttsBox => {
                    stts = Some(
                        match SttsBox::read_block(payload) {
                            Ok(b) => b,
                            Err(e) => {
                                return Err(e);
                            },
                        },
                    );
                },
                BoxType::StssBox => {
                    stss = Some(
                        match StssBox::read_block(payload) {
                            Ok(b) => b,
                            Err(e) => {
                                return Err(e);
                            },
                        },
                    );
                },
                BoxType::CttsBox => {
                    ctts = Some(
                        match CttsBox::read_block(payload) {
                            Ok(b) => b,
                            Err(e) => {
                                return Err(e);
                            },
                        },
                    );
                },
                _ => {},
            }
            pos = end;
        }
        let stsz = match stsz {
            Some(b) => b,
            None => {
                return Err(Error::InvalidData("sample table has no sample-size box"));
            },
        };
        let stsc = match stsc {
            Some(b) => b,
            None => {
                return Err(Error::InvalidData("sample table has no sample-to-chunk box"));
            },
        };
        let stts = match stts {
            Some(b) => b,
            None => {
                return Err(Error::InvalidData("sample table has no time-to-sample box"));
            },
        };
        Ok(StblBox { stco, co64, stsz, stsc, stts, stss, ctts })
    }
}

impl MinfBox {
    /// Decode a media-information box from a bounded payload slice; its sample
    /// table must be present.
    pub fn read_block(data: &[u8]) -> (r: Result<MinfBox, Error>)
        ensures
            r is Ok <==> parse_minf(data@) is Some,
            (r matches Ok(b) ==> stbl_to_acc(b.stbl) == parse_minf(data@).unwrap()),
    {
        let ghost whole = scan_minf(data@, 0, None);
        let mut stbl: Option<StblBox> = None;
        let mut pos: usize = 0;
        let len = data.len();
        while pos < len
            invariant
                len == data@.len(),
                pos <= len,
                whole == scan_minf(data@, 0, None),
                whole == scan_minf(
                    data@,
                    pos as int,
                    match stbl {
                        Some(b) => Some(stbl_to_acc(b)),
                        None => None,
                    },
                ),
            decreases len - pos,
        {
            let (kind, ps, end) = match read_child(data, pos) {
                Ok(c) => c,
                Err(e) => {
                    return Err(e);
                },
            };
            let payload = vstd::slice::slice_subrange(data, ps, end);
            match kind {
                BoxType::StblBox => {
                    stbl = Some(
                        match StblBox::read_block(payload) {
                            Ok(b) => b,
                            Err(e) => {
                                return Err(e);
                            },
                        },
                    );
                },
                _ => {},
            }
            pos = end;
        }
        match stbl {
            Some(stbl) => Ok(MinfBox { stbl }),
            None => Err(Error::InvalidData("media information has no sample table")),
        }
    }
}

impl MdiaBox {
    /// Decode a media box from a bounded payload slice; its media information
    /// must be present.
    pub fn read_block(data: &[u8]) -> (r: Result<MdiaBox, Error>)
        ensures
            r is Ok <==> parse_mdia(data@) is Some,
            (r matches Ok(b) ==> stbl_to_acc(b.minf.stbl) == parse_mdia(data@).unwrap()),
    {
        let ghost whole = scan_mdia(data@, 0, None);
        let mut minf: Option<MinfBox> = None;
        let mut pos: usize = 0;
        let len = data.len();
        while pos < len
            invariant
                len == data@.len(),
                pos <= len,
                whole == scan_mdia(data@, 0, None),
                whole == scan_mdia(
                    data@,
                    pos as int,
                    match minf {
                        Some(b) => Some(stbl_to_acc(b.stbl)),
                        None => None,
                    },
                ),
            decreases len - pos,
        {
            let (kind, ps, end) = match read_child(data, pos) {
                Ok(c) => c,
                Err(e) => {
                    return Err(e);
                },
            };
            let payload = vstd::slice::slice_subrange(data, ps, end);
            match kind {
                BoxType::MinfBox => {
                    minf = Some(
                        match MinfBox::read_block(payload) {
                            Ok(b) => b,
                            Err(e) => {
                                return Err(e);
                            },
                        },
                    );
                },
                _ => {},
            }
            pos = end;
        }
        match minf {
            Some(minf) => Ok(MdiaBox { minf }),
            None => Err(Error::InvalidData("media box has no media information")),
        }
    }
}

impl TrakBox {
    /// Decode a track box from a bounded payload slice; its header and media
    /// chain must both be present.
    pub fn read_block(data: &[u8]) -> (r: Result<TrakBox, Error>)
        ensures
            r is Ok <==> parse_trak(data@) is Some,
            (r matches Ok(b) ==> trak_matches(b, parse_trak(data@).unwrap())),
    {
        let ghost whole = scan_trak(data@, 0, None, None);
        let mut tkhd: Option<TkhdBox> = None;
        let mut mdia: Option<MdiaBox> = None;
        let mut pos: usize = 0;
        let len = data.len();
        while pos < len
            invariant
                len == data@.len(),
                pos <= len,
                whole == scan_trak(data@, 0, None, None),
                whole == scan_trak(
                    data@,
                    pos as int,
                    tkhd,
                    match mdia {
                        Some(b) => Some(stbl_to_acc(b.minf.stbl)),
                        None => None,
                    },
                ),
            decreases len - pos,
        {
            let (kind, ps, end) = match read_child(data, pos) {
                Ok(c) => c,
                Err(e) => {
                    return Err(e);
                },
            };
            let payload = vstd::slice::slice_subrange(data, ps, end);
            match kind {
                BoxType::TkhdBox => {
                    tkhd = Some(
                        match TkhdBox::read_block(payload) {
                            Ok(b) => b,
                            Err(e) => {
                                return Err(e);
                            },
                        },
                    );
                },
                BoxType::MdiaBox => {
                    mdia = Some(
                        match MdiaBox::read_block(payload) {
                            Ok(b) => b,
                            Err(e) => {
                                return Err(e);
                            },
                        },
                    );
                },
                _ => {},
            }
            pos = end;
        }
        match (tkhd, mdia) {
            (Some(tkhd), Some(mdia)) => Ok(TrakBox { tkhd, mdia }),
            (None, _) => Err(Error::InvalidData("track box has no track header")),
            (_, None) => Err(Error::InvalidData("track box has no media box")),
        }
    }
}

impl MoovBox {
    /// Decode a movie box from a bounded payload slice, collecting its tracks
    /// in file order.
    pub fn read_block(data: &[u8]) -> (r: Result<MoovBox, Error>)
        ensures
            r is Ok <==> parse_moov(data@) is Some,
            (r matches Ok(m) ==> moov_matches(m, parse_moov(data@).unwrap())),
    {
        let ghost whole = scan_moov(data@, 0, Seq::empty());
        let mut traks: Vec<TrakBox> = Vec::new();
        let ghost trak_view = |t: TrakBox| (t.tkhd, stbl_to_acc(t.mdia.minf.stbl));
        let mut pos: usize = 0;
        let len = data.len();
        proof {
            assert(traks@.map_values(trak_view) =~= Seq::<(TkhdBox, StblAcc)>::empty());
        }
        while pos < len
            invariant
                len == data@.len(),
                pos <= len,
                whole == scan_moov(data@, 0, Seq::empty()),
                forall|t: TrakBox| #[trigger]
                    trak_view(t) == (t.tkhd, stbl_to_acc(t.mdia.minf.stbl)),
                whole == scan_moov(data@, pos as int, traks@.map_values(trak_view)),
            decreases len - pos,
        {
            let (kind, ps, end) = match read_child(data, pos) {
                Ok(c) => c,
                Err(e) => {
                    return Err(e);
                },
            };
            let payload = vstd::slice::slice_subrange(data, ps, end);
            match kind {
                BoxType::TrakBox => {
                    let trak = match TrakBox::read_block(payload) {
                        Ok(b) => b,
                        Err(e) => {
                            return Err(e);
                        },
                    };
                    let ghost before = traks@.map_values(trak_view);
                    traks.push(trak);
                    proof {
                        assert(traks@.map_values(trak_view) =~= before.push(trak_view(trak)));
                        assert(trak_view(trak) == (trak.tkhd, stbl_to_acc(trak.mdia.minf.stbl)));
                        let v = parse_trak(data@.subrange(ps as int, end as int)).unwrap();
                        assert(trak.tkhd == v.0 && stbl_to_acc(trak.mdia.minf.stbl) == v.1);
                        assert(trak_view(trak) == v);
                    }
                },
                _ => {},
            }
            pos = end;
        }
        Ok(MoovBox { traks })
    }
}


/// What a track-fragment-header payload decodes to: the track id and the
/// optional defaults its flag bits declare, in their wire order.
pub open spec fn parse_tfhd(data: Seq<u8>) -> Option<TfhdBox> {
    if data.len() < 8 {
        None
    } else {
        let flags = ext_flags(be32_val(data.subrange(0, 4)));
        let track_id = be32_val(data.subrange(4, 8));
        let o1: int = 8 + (if flags & 0x1 != 0 { 8int } else { 0int });
        let o2: int = o1 + (if flags & 0x2 != 0 { 4int } else { 0int });
        let o3: int = o2 + (if flags & 0x8 != 0 { 4int } else { 0int });
        let o4: int = o3 + (if flags & 0x10 != 0 { 4int } else { 0int });
        let o5: int = o4 + (if flags & 0x20 != 0 { 4int } else { 0int });
        if data.len() < o5 {
            None
        } else {
            Some(
                TfhdBox {
                    track_id,
                    base_data_offset: if flags & 0x1 != 0 {
                        Some(be64_val(data.subrange(8, 16)))
                    } else {
                        None
                    },
                    sample_description_index: if flags & 0x2 != 0 {
                        Some(be32_val(data.subrange(o1, o1 + 4)))
                    } else {
                        None
                    },
                    default_sample_duration: if flags & 0x8 != 0 {
                        Some(be32_val(data.subrange(o2, o2 + 4)))
                    } else {
                        None
                    },
                    default_sample_size: if flags & 0x10 != 0 {
                        Some(be32_val(data.subrange(o3, o3 + 4)))
                    } else {
                        None
                    },
                    default_sample_flags: if flags & 0x20 != 0 {
                        Some(be32_val(data.subrange(o4, o4 + 4)))
                    } else {
                        None
                    },
                },
            )
        }
    }
}

/// The width of one track-run entry under the run's flag bits.
pub open spec fn trun_entry_width(flags: u32) -> int {
    (if flags & 0x100 != 0 { 4int } else { 0int }) + (if flags & 0x200 != 0 { 4int } else { 0int })
        + (if flags & 0x400 != 0 { 4int } else { 0int }) + (if flags & 0x800 != 0 { 4int } else { 0int })
}

/// The entry starting at `p`, under the run's flag bits: each present field in
/// wire order, a sync flag read from the sample flags where present, and sync
/// otherwise.
pub open spec fn trun_entry_at(data: Seq<u8>, flags: u32, p: int) -> TrunEntry {
    let od: int = p;
    let os: int = od + (if flags & 0x100 != 0 { 4int } else { 0int });
    let of: int = os + (if flags & 0x200 != 0 { 4int } else { 0int });
    let oc: int = of + (if flags & 0x400 != 0 { 4int } else { 0int });
    TrunEntry {
        duration: if flags & 0x100 != 0 {
            Some(be32_val(data.subrange(od, od + 4)))
        } else {
            None
        },
        size: if flags & 0x200 != 0 {
            Some(be32_val(data.subrange(os, os + 4)))
        } else {
            None
        },
        rendering_offset: if flags & 0x800 != 0 {
            Some(i32_of_u32(be32_val(data.subrange(oc, oc + 4))))
        } else {
            None
        },
        is_sync: if flags & 0x400 != 0 {
            (be32_val(data.subrange(of, of + 4)) >> 16) & 1 == 0
        } else {
            true
        },
    }
}

/// What a track-run payload decodes to: the optional data offset and the
/// per-sample entries, rejecting a sample count whose entries could not fit.
pub open spec fn parse_trun(data: Seq<u8>) -> Option<(Option<i32>, Seq<TrunEntry>)> {
    if data.len() < 8 {
        None
    } else {
        let flags = ext_flags(be32_val(data.subrange(0, 4)));
        let count = be32_val(data.subrange(4, 8));
        let p0: int = 8 + (if flags & 0x1 != 0 { 4int } else { 0int }) + (if flags & 0x4 != 0 {
            4int
        } else {
            0int
        });
        let w = trun_entry_width(flags);
        if data.len() < p0 {
            None
        } else if w > 0 && count as int > (data.len() - p0) / w {
            None
        } else {
            Some(
                (
                    if flags & 0x1 != 0 {
                        Some(i32_of_u32(be32_val(data.subrange(8, 12))))
                    } else {
                        None
                    },
                    Seq::new(count as nat, |i: int| trun_entry_at(data, flags, p0 + w * i)),
                ),
            )
        }
    }
}

/// Walk a track-fragment payload, keeping its header and collecting its runs
/// in file order.
pub open spec fn scan_traf(
    data: Seq<u8>,
    pos: int,
    tfhd: Option<TfhdBox>,
    truns: Seq<(Option<i32>, Seq<TrunEntry>)>,
) -> Option<(Option<TfhdBox>, Seq<(Option<i32>, Seq<TrunEntry>)>)>
    decreases data.len() - pos,
{
    if pos < 0 || pos > data.len() {
        None
    } else if pos == data.len() {
        Some((tfhd, truns))
    } else {
        match child_at(data, pos) {
            None => None,
            Some((kind, ps, end)) => {
                if kind == BoxType::TfhdBox {
                    match parse_tfhd(data.subrange(ps, end)) {
                        Some(v) => scan_traf(data, end, Some(v), truns),
                        None => None,
                    }
                } else if kind == BoxType::TrunBox {
                    match parse_trun(data.subrange(ps, end)) {
                        Some(v) => scan_traf(data, end, tfhd, truns.push(v)),
                        None => None,
                    }
                } else {
                    scan_traf(data, end, tfhd, truns)
                }
            },
        }
    }
}

/// What a track-fragment payload decodes to: its header, which must be
/// present, and its runs in file order.
pub open spec fn parse_traf(data: Seq<u8>) -> Option<(TfhdBox, Seq<(Option<i32>, Seq<TrunEntry>)>)> {
    match scan_traf(data, 0, None, Seq::empty()) {
        None => None,
        Some((tfhd, truns)) => match tfhd {
            Some(t) => Some((t, truns)),
            None => None,
        },
    }
}

/// Whether a decoded run matches a scanned run view.
pub open spec fn trun_matches(t: TrunBox, v: (Option<i32>, Seq<TrunEntry>)) -> bool {
    t.data_offset == v.0 && t.entries@ == v.1
}

/// Whether a decoded track fragment matches a scanned track-fragment view.
pub open spec fn traf_matches(t: TrafBox, v: (TfhdBox, Seq<(Option<i32>, Seq<TrunEntry>)>)) -> bool {
    t.tfhd == v.0 && t.truns@.len() == v.1.len() && (forall|i: int|
        0 <= i < v.1.len() ==> #[trigger] trun_matches(t.truns@[i], v.1[i]))
}

/// Walk a movie-fragment payload, collecting its track fragments in order.
pub open spec fn scan_moof(
    data: Seq<u8>,
    pos: int,
    acc: Seq<(TfhdBox, Seq<(Option<i32>, Seq<TrunEntry>)>)>,
) -> Option<Seq<(TfhdBox, Seq<(Option<i32>, Seq<TrunEntry>)>)>>
    decreases data.len() - pos,
{
    if pos < 0 || pos > data.len() {
        None
    } else if pos == data.len() {
        Some(acc)
    } else {
        match child_at(data, pos) {
            None => None,
            Some((kind, ps, end)) => {
                if kind == BoxType::TrafBox {
                    match parse_traf(data.subrange(ps, end)) {
                        Some(v) => scan_moof(data, end, acc.push(v)),
                        None => None,
                    }
                } else {
                    scan_moof(data, end, acc)
                }
            },
        }
    }
}

/// What a movie-fragment payload decodes to: its track-fragment views.
pub open spec fn parse_moof(data: Seq<u8>) -> Option<
    Seq<(TfhdBox, Seq<(Option<i32>, Seq<TrunEntry>)>)>,
> {
    scan_moof(data, 0, Seq::empty())
}

/// Whether a decoded movie fragment matches a scanned view, fragment by
/// fragment.
pub open spec fn moof_box_matches(
    m: MoofBox,
    v: Seq<(TfhdBox, Seq<(Option<i32>, Seq<TrunEntry>)>)>,
) -> bool {
    m.trafs@.len() == v.len() && (forall|i: int|
        0 <= i < v.len() ==> #[trigger] traf_matches(m.trafs@[i], v[i]))
}

impl TfhdBox {
    /// Decode a track-fragment header from a bounded payload slice.
    pub fn read_block(data: &[u8]) -> (r: Result<TfhdBox, Error>)
        ensures
            r is Ok <==> parse_tfhd(data@) is Some,
            (r matches Ok(b) ==> b == parse_tfhd(data@).unwrap()),
    {
        if data.len() < 8 {
            return Err(Error::Truncated);
        }
        let (_, flags) = read_box_header_ext(data, 0);
        let track_id = get_u32(data, 4);
        let mut pos: usize = 8;
        let mut need: usize = 8;
        if flags & 0x1 != 0 {
            need += 8;
        }
        if flags & 0x2 != 0 {
            need += 4;
        }
        if flags & 0x8 != 0 {
            need += 4;
        }
        if flags & 0x10 != 0 {
            need += 4;
        }
        if flags & 0x20 != 0 {
            need += 4;
        }
        if data.len() < need {
            return Err(Error::Truncated);
        }
        let base_data_offset: Option<u64> = if flags & 0x1 != 0 {
            let v = get_u64(data, pos);
            pos += 8;
            Some(v)
        } else {
            None
        };
        let sample_description_index: Option<u32> = if flags & 0x2 != 0 {
            let v = get_u32(data, pos);
            pos += 4;
            Some(v)
        } else {
            None
        };
        let default_sample_duration: Option<u32> = if flags & 0x8 != 0 {
            let v = get_u32(data, pos);
            pos += 4;
            Some(v)
        } else {
            None
        };
        let default_sample_size: Option<u32> = if flags & 0x10 != 0 {
            let v = get_u32(data, pos);
            pos += 4;
            Some(v)
        } else {
            None
        };
        let default_sample_flags: Option<u32> = if flags & 0x20 != 0 {
            let v = get_u32(data, pos);
            pos += 4;
            Some(v)
        } else {
            None
        };
        Ok(
            TfhdBox {
                track_id,
                base_data_offset,
                sample_description_index,
                default_sample_duration,
                default_sample_size,
                default_sample_flags,
            },
        )
    }
}

impl TrunBox {
    /// Decode a track run from a bounded payload slice, rejecting a sample
    /// count whose entries could not fit in it.
    pub fn read_block(data: &[u8]) -> (r: Result<TrunBox, Error>)
        ensures
            r is Ok <==> parse_trun(data@) is Some,
            (r matches Ok(b) ==> trun_matches(b, parse_trun(data@).unwrap())),
    {
        if data.len() < 8 {
            return Err(Error::Truncated);
        }
        let (_, flags) = read_box_header_ext(data, 0);
        let count = get_u32(data, 4);
        let mut p0: usize = 8;
        if flags & 0x1 != 0 {
            p0 += 4;
        }
        if flags & 0x4 != 0 {
            p0 += 4;
        }
        let mut w: usize = 0;
        if flags & 0x100 != 0 {
            w += 4;
        }
        if flags & 0x200 != 0 {
            w += 4;
        }
        if flags & 0x400 != 0 {
            w += 4;
        }
        if flags & 0x800 != 0 {
            w += 4;
        }
        if data.len() < p0 {
            return Err(Error::Truncated);
        }
        if w > 0 && count as usize > (data.len() - p0) / w {
            return Err(
                Error::InvalidData("trun sample_count indicates more entries than could fit in the box"),
            );
        }
        let data_offset: Option<i32> = if flags & 0x1 != 0 {
            Some(get_i32(data, 8))
        } else {
            None
        };
        let n = count as usize;
        let len = data.len();
        proof {
            if w > 0 {
                assert(w * (n as int) <= data@.len() - p0) by (nonlinear_arith)
                    requires
                        w > 0,
                        p0 <= data@.len(),
                        n <= (data@.len() - p0) / (w as int),
                ;
            }
        }
        let mut entries: Vec<TrunEntry> = Vec::new();
        let mut i: usize = 0;
        while i < n
            invariant
                len == data@.len(),
                p0 + w * n <= len,
                i <= n,
                w == trun_entry_width(flags),
                entries@.len() == i,
                forall|j: int|
                    0 <= j < i ==> entries@[j] == trun_entry_at(data@, flags, p0 + w * j),
            decreases n - i,
        {
            proof {
                assert(w * (i as int) + w <= w * (n as int)) by (nonlinear_arith)
                    requires
                        i < n,
                        w >= 0,
                ;
            }
            let p = p0 + w * i;
            let mut q = p;
            let duration: Option<u32> = if flags & 0x100 != 0 {
                let v = get_u32(data, q);
                q += 4;
                Some(v)
            } else {
                None
            };
            let size: Option<u32> = if flags & 0x200 != 0 {
                let v = get_u32(data, q);
                q += 4;
                Some(v)
            } else {
                None
            };
            let is_sync: bool = if flags & 0x400 != 0 {
                let v = get_u32(data, q);
                q += 4;
                (v >> 16) & 1 == 0
            } else {
                true
            };
            let rendering_offset: Option<i32> = if flags & 0x800 != 0 {
                let v = get_i32(data, q);
                q += 4;
                Some(v)
            } else {
                None
            };
            entries.push(TrunEntry { duration, size, rendering_offset, is_sync });
            proof {
                assert(entries@[i as int] == trun_entry_at(data@, flags, p0 + w * (i as int)));
            }
            i += 1;
        }
        proof {
            assert(entries@ =~= Seq::new(
                count as nat,
                |j: int| trun_entry_at(data@, flags, p0 + trun_entry_width(flags) * j),
            ));
        }
        Ok(TrunBox { data_offset, entries })
    }
}

impl TrafBox {
    /// Decode a track fragment from a bounded payload slice; its header must
    /// be present.
    pub fn read_block(data: &[u8]) -> (r: Result<TrafBox, Error>)
        ensures
            r is Ok <==> parse_traf(data@) is Some,
            (r matches Ok(b) ==> traf_matches(b, parse_traf(data@).unwrap())),
    {
        let ghost whole = scan_traf(data@, 0, None, Seq::empty());
        let ghost trun_view = |t: TrunBox| (t.data_offset, t.entries@);
        let mut tfhd: Option<TfhdBox> = None;
        let mut truns: Vec<TrunBox> = Vec::new();
        let mut pos: usize = 0;
        let len = data.len();
        proof {
            assert(truns@.map_values(trun_view) =~= Seq::<(Option<i32>, Seq<TrunEntry>)>::empty());
        }
        while pos < len
            invariant
                len == data@.len(),
                pos <= len,
                whole == scan_traf(data@, 0, None, Seq::empty()),
                forall|t: TrunBox| #[trigger] trun_view(t) == (t.data_offset, t.entries@),
                whole == scan_traf(data@, pos as int, tfhd, truns@.map_values(trun_view)),
            decreases len - pos,
        {
            let (kind, ps, end) = match read_child(data, pos) {
                Ok(c) => c,
                Err(e) => {
                    return Err(e);
                },
            };
            let payload = vstd::slice::slice_subrange(data, ps, end);
            match kind {
                BoxType::TfhdBox => {
                    tfhd = Some(
                        match TfhdBox::read_block(payload) {
                            Ok(b) => b,
                            Err(e) => {
                                return Err(e);
                            },
                        },
                    );
                },
                BoxType::TrunBox => {
                    let trun = match TrunBox::read_block(payload) {
                        Ok(b) => b,
                        Err(e) => {
                            return Err(e);
                        },
                    };
                    let ghost before = truns@.map_values(trun_view);
                    truns.push(trun);
                    proof {
                        assert(truns@.map_values(trun_view) =~= before.push(trun_view(trun)));
                        let v = parse_trun(data@.subrange(ps as int, end as int)).unwrap();
                        assert(trun.data_offset == v.0 && trun.entries@ == v.1);
                        assert(trun_view(trun) == v);
                    }
                },
                _ => {},
            }
            pos = end;
        }
        match tfhd {
            Some(tfhd) => Ok(TrafBox { tfhd, truns }),
            None => Err(Error::InvalidData("track fragment has no header box")),
        }
    }
}

impl MoofBox {
    /// Decode a movie fragment from a bounded payload slice, collecting its
    /// track fragments in file order.
    pub fn read_block(data: &[u8]) -> (r: Result<MoofBox, Error>)
        ensures
            r is Ok <==> parse_moof(data@) is Some,
            (r matches Ok(m) ==> moof_box_matches(m, parse_moof(data@).unwrap())),
    {
        let ghost whole = scan_moof(data@, 0, Seq::empty());
        let ghost traf_view = |t: TrafBox|
            (t.tfhd, t.truns@.map_values(|u: TrunBox| (u.data_offset, u.entries@)));
        let mut trafs: Vec<TrafBox> = Vec::new();
        let mut pos: usize = 0;
        let len = data.len();
        proof {
            assert(trafs@.map_values(traf_view) =~= Seq::<
                (TfhdBox, Seq<(Option<i32>, Seq<TrunEntry>)>),
            >::empty());
        }
        while pos < len
            invariant
                len == data@.len(),
                pos <= len,
                whole == scan_moof(data@, 0, Seq::empty()),
                forall|t: TrafBox| #[trigger]
                    traf_view(t) == (
                        t.tfhd,
                        t.truns@.map_values(|u: TrunBox| (u.data_offset, u.entries@)),
                    ),
                whole == scan_moof(data@, pos as int, trafs@.map_values(traf_view)),
            decreases len - pos,
        {
            let (kind, ps, end) = match read_child(data, pos) {
                Ok(c) => c,
                Err(e) => {
                    return Err(e);
                },
            };
            let payload = vstd::slice::slice_subrange(data, ps, end);
            match kind {
                BoxType::TrafBox => {
                    let traf = match TrafBox::read_block(payload) {
                        Ok(b) => b,
                        Err(e) => {
                            return Err(e);
                        },
                    };
                    let ghost before = trafs@.map_values(traf_view);
                    trafs.push(traf);
                    proof {
                        assert(trafs@.map_values(traf_view) =~= before.push(traf_view(traf)));
                        let v = parse_traf(data@.subrange(ps as int, end as int)).unwrap();
                        assert(traf.tfhd == v.0);
                        assert forall|j: int| 0 <= j < v.1.len() implies (
                        traf.truns@[j].data_offset, traf.truns@[j].entries@) == v.1[j] by {
                            assert(trun_matches(traf.truns@[j], v.1[j]));
                        }
                        assert(traf.truns@.map_values(|u: TrunBox| (u.data_offset, u.entries@))
                            =~= v.1);
                        assert(traf_view(traf) == v);
                    }
                },
                _ => {},
            }
            pos = end;
        }
        Ok(MoofBox { trafs })
    }
}


/// The facts a top-level scan of a fully buffered stream establishes: the
/// file-type view, the event-message payloads, whether a movie header was
/// decoded, and — once the scan reaches a media-data header and stops — the
/// payload start and declared size of that box.
pub struct TopAcc {
    pub ftyp: Option<(u32, u32, Seq<u32>)>,
    pub emsgs: Seq<Seq<u8>>,
    pub mdat: Option<(u64, u64)>,
    pub got_moov: bool,
    pub got_moof: bool,
}

/// The view of an optional decoded file-type box.
pub open spec fn ftyp_view(f: Option<crate::file::FtypBox>) -> Option<(u32, u32, Seq<u32>)> {
    match f {
        Some(b) => Some((b.major_brand, b.minor_version, b.compatible_brands@)),
        None => None,
    }
}

/// The payload views of a sequence of event-message boxes.
pub open spec fn emsg_views(es: Seq<crate::file::EmsgBox>) -> Seq<Seq<u8>> {
    es.map_values(|e: crate::file::EmsgBox| e.payload@)
}

/// Walk the top-level boxes of a fully buffered stream from `pos`: record the
/// file-type box, count a decoded movie header, require movie fragments to
/// decode, collect event messages, stop at the first media-data header
/// (recording its payload start and declared size, reading none of its
/// payload), and skip every other tag; nothing where a header or a recognized
/// box is malformed or a non-media-data box overruns the stream.
pub open spec fn scan_top(data: Seq<u8>, pos: int, acc: TopAcc) -> Option<TopAcc>
    decreases data.len() - pos,
{
    if pos < 0 || pos > data.len() {
        None
    } else if pos == data.len() {
        Some(acc)
    } else {
        match parse_header_at(data, pos) {
            HeaderParse::Value(h) => {
                if h.kind == BoxType::MdatBox {
                    Some(TopAcc { mdat: Some(((pos + h.header_len) as u64, h.size)), ..acc })
                } else {
                    let size: int = if h.size == 0 {
                        data.len() - pos
                    } else {
                        h.size as int
                    };
                    if size < 8 || size < h.header_len || pos + size > data.len() {
                        None
                    } else {
                        let ps = pos + h.header_len;
                        let end = pos + size;
                        let payload = data.subrange(ps, end);
                        if h.kind == BoxType::FtypBox {
                            match crate::file::parse_ftyp(payload) {
                                Some(v) => scan_top(data, end, TopAcc { ftyp: Some(v), ..acc }),
                                None => None,
                            }
                        } else if h.kind == BoxType::MoovBox {
                            match parse_moov(payload) {
                                Some(_) => scan_top(data, end, TopAcc { got_moov: true, ..acc }),
                                None => None,
                            }
                        } else if h.kind == BoxType::MoofBox {
                            match parse_moof(payload) {
                                Some(_) => scan_top(data, end, TopAcc { got_moof: true, ..acc }),
                                None => None,
                            }
                        } else if h.kind == BoxType::EmsgBox {
                            scan_top(data, end, TopAcc { emsgs: acc.emsgs.push(payload), ..acc })
                        } else {
                            scan_top(data, end, acc)
                        }
                    }
                }
            },
            _ => None,
        }
    }
}

/// A movie header or movie fragment once seen stays seen: the scan's flags
/// only ever rise.
pub proof fn lemma_scan_top_flags_monotone(data: Seq<u8>, pos: int, acc: TopAcc)
    ensures
        scan_top(data, pos, acc) matches Some(r) ==> (acc.got_moov ==> r.got_moov) && (
        acc.got_moof ==> r.got_moof),
    decreases data.len() - pos,
{
    if 0 <= pos < data.len() {
        match parse_header_at(data, pos) {
            HeaderParse::Value(h) => {
                if h.kind != BoxType::MdatBox {
                    let size: int = if h.size == 0 {
                        data.len() - pos
                    } else {
                        h.size as int
                    };
                    if !(size < 8 || size < h.header_len || pos + size > data.len()) {
                        let ps = pos + h.header_len;
                        let end = pos + size;
                        let payload = data.subrange(ps, end);
                        if h.kind == BoxType::FtypBox {
                            match crate::file::parse_ftyp(payload) {
                                Some(v) => {
                                    lemma_scan_top_flags_monotone(
                                        data,
                                        end,
                                        TopAcc { ftyp: Some(v), ..acc },
                                    );
                                },
                                None => {},
                            }
                        } else if h.kind == BoxType::MoovBox {
                            lemma_scan_top_flags_monotone(
                                data,
                                end,
                                TopAcc { got_moov: true, ..acc },
                            );
                        } else if h.kind == BoxType::MoofBox {
                            lemma_scan_top_flags_monotone(
                                data,
                                end,
                                TopAcc { got_moof: true, ..acc },
                            );
                        } else if h.kind == BoxType::EmsgBox {
                            lemma_scan_top_flags_monotone(
                                data,
                                end,
                                TopAcc { emsgs: acc.emsgs.push(payload), ..acc },
                            );
                        } else {
                            lemma_scan_top_flags_monotone(data, end, acc);
                        }
                    }
                }
            },
            _ => {},
        }
    }
}

impl crate::file::Mp4File {
    /// Drive the box tree assembly over a fully buffered stream: read one
    /// top-level header after another, decode and fold in the file-type box,
    /// the movie header and any movie fragments, collect event messages, stop
    /// at the first media-data header after recording where its payload starts
    /// and how large the box declares itself (its payload is never read), and
    /// skip every other tag. Returns whether a movie header was decoded, as
    /// the fully buffered counterpart of an incremental read. The track map
    /// evolves by `set_moov` and `add_moof`, whose own contracts fix each fold;
    /// a failing fold returns its error with the earlier boxes applied.
    pub fn read_header_from(&mut self, data: &[u8]) -> (r: Result<bool, Error>)
        ensures
            scan_top(
                data@,
                0,
                TopAcc {
                    ftyp: ftyp_view(old(self).ftyp),
                    emsgs: emsg_views(old(self).emsgs@),
                    mdat: None,
                    got_moov: false,
                    got_moof: false,
                },
            ) is None ==> r is Err,
            r matches Ok(got) ==> (scan_top(
                data@,
                0,
                TopAcc {
                    ftyp: ftyp_view(old(self).ftyp),
                    emsgs: emsg_views(old(self).emsgs@),
                    mdat: None,
                    got_moov: false,
                    got_moof: false,
                },
            ) matches Some(acc) && got == acc.got_moov && ftyp_view(final(self).ftyp) == acc.ftyp
                && emsg_views(final(self).emsgs@) == acc.emsgs && (acc.mdat matches Some(m) ==> final(
                self).mdat_offset == m.0 && final(self).mdat_size == m.1) && (acc.mdat is None
                ==> final(self).mdat_offset == old(self).mdat_offset && final(self).mdat_size == old(
                self).mdat_size)),
            (scan_top(
                data@,
                0,
                TopAcc {
                    ftyp: ftyp_view(old(self).ftyp),
                    emsgs: emsg_views(old(self).emsgs@),
                    mdat: None,
                    got_moov: false,
                    got_moof: false,
                },
            ) matches Some(acc) && !acc.got_moov && !acc.got_moof ==> r == Ok::<bool, Error>(
                false,
            ) && final(self).tracks_view() == old(self).tracks_view()),
    {
        let ghost init = TopAcc {
            ftyp: ftyp_view(self.ftyp),
            emsgs: emsg_views(self.emsgs@),
            mdat: None,
            got_moov: false,
            got_moof: false,
        };
        let len = data.len();
        let mut pos: usize = 0;
        let mut got_moov = false;
        let mut got_moof = false;
        while pos < len
            invariant
                len == data@.len(),
                pos <= len,
                init == (TopAcc {
                    ftyp: ftyp_view(old(self).ftyp),
                    emsgs: emsg_views(old(self).emsgs@),
                    mdat: None,
                    got_moov: false,
                    got_moof: false,
                }),
                scan_top(data@, 0, init) == scan_top(
                    data@,
                    pos as int,
                    TopAcc {
                        ftyp: ftyp_view(self.ftyp),
                        emsgs: emsg_views(self.emsgs@),
                        mdat: None,
                        got_moov: got_moov,
                        got_moof: got_moof,
                    },
                ),
                self.mdat_offset == old(self).mdat_offset,
                self.mdat_size == old(self).mdat_size,
                !got_moov && !got_moof ==> self.tracks_view() == old(self).tracks_view(),
            decreases len - pos,
        {
            let ghost cur = TopAcc {
                ftyp: ftyp_view(self.ftyp),
                emsgs: emsg_views(self.emsgs@),
                mdat: None,
                got_moov: got_moov,
                got_moof: got_moof,
            };
            let (header, ps) = match BoxHeader::read_at(data, pos) {
                Ok(Some(p)) => p,
                Ok(None) => {
                    proof {
                        assert(false);
                    }
                    return Ok(got_moov);
                },
                Err(e) => {
                    return Err(e);
                },
            };
            if header.kind == BoxType::MdatBox {
                // stop here: only the position and declared size of the
                // media-data region are kept, its payload is never buffered
                self.mdat_offset = ps as u64;
                self.mdat_size = header.size;
                proof {
                    assert(scan_top(data@, pos as int, cur) == Some(
                        TopAcc { mdat: Some((ps as u64, header.size)), ..cur },
                    ));
                }
                return Ok(got_moov);
            }
            let size: u64 = if header.size == 0 {
                (len - pos) as u64
            } else {
                header.size
            };
            if size < 8 || size < header.header_len {
                return Err(Error::InvalidData("box is smaller than its own header"));
            }
            if size > (len - pos) as u64 {
                return Err(Error::Truncated);
            }
            let end = pos + (size as usize);
            match header.kind {
                BoxType::FtypBox => {
                    let payload = vstd::slice::slice_subrange(data, ps, end);
                    let ftyp = match crate::file::FtypBox::read_block(payload) {
                        Ok(b) => b,
                        Err(e) => {
                            return Err(e);
                        },
                    };
                    self.ftyp = Some(ftyp);
                },
                BoxType::MoovBox => {
                    let payload = vstd::slice::slice_subrange(data, ps, end);
                    let moov = match MoovBox::read_block(payload) {
                        Ok(b) => b,
                        Err(e) => {
                            return Err(e);
                        },
                    };
                    match self.set_moov(&moov) {
                        Ok(()) => {},
                        Err(e) => {
                            proof {
                                lemma_scan_top_flags_monotone(
                                    data@,
                                    end as int,
                                    TopAcc { got_moov: true, ..cur },
                                );
                            }
                            return Err(e);
                        },
                    }
                    got_moov = true;
                },
                BoxType::MoofBox => {
                    let payload = vstd::slice::slice_subrange(data, ps, end);
                    let moof = match MoofBox::read_block(payload) {
                        Ok(b) => b,
                        Err(e) => {
                            return Err(e);
                        },
                    };
                    match self.add_moof(ps as u64, &moof) {
                        Ok(()) => {},
                        Err(e) => {
                            proof {
                                lemma_scan_top_flags_monotone(
                                    data@,
                                    end as int,
                                    TopAcc { got_moof: true, ..cur },
                                );
                            }
                            return Err(e);
                        },
                    }
                    got_moof = true;
                },
                BoxType::EmsgBox => {
                    let payload = vstd::slice::slice_subrange(data, ps, end);
                    let ghost emsgs_pre = emsg_views(self.emsgs@);
                    let emsg = match crate::file::EmsgBox::read_block(payload) {
                        Ok(b) => b,
                        Err(e) => {
                            return Err(e);
                        },
                    };
                    self.emsgs.push(emsg);
                    proof {
                        assert(emsg_views(self.emsgs@) =~= emsgs_pre.push(
                            data@.subrange(ps as int, end as int),
                        ));
                    }
                },
                _ => {},
            }
            pos = end;
        }
        Ok(got_moov)
    }
}

} // verus!
