//! The file aggregate: the optional file-type box, event-message boxes, the
//! media-data region's position, and the map from track id to resolved track,
//! grown by folding in a movie header and then any number of movie fragments.
use vstd::prelude::*;

use crate::codec::{be32_val, get_u32};
use crate::fragment::{traf_samples_spec, MoofBox, TrafBox};
use crate::track::{build_samples, build_samples_err, Mp4Track, TrackView, TrakBox};
use crate::Error;

verus! {

broadcast use vstd::seq::group_seq_axioms;

/// A decoded file-type box: the major brand, its version, and the compatible
/// brands that fill the rest of the payload.
#[derive(Debug, Clone, PartialEq, Eq, Default)]
pub struct FtypBox {
    pub major_brand: u32,
    pub minor_version: u32,
    pub compatible_brands: Vec<u32>,
}

/// An event-message box, kept as its undecoded payload bytes.
#[derive(Debug, Clone, PartialEq, Eq, Default)]
pub struct EmsgBox {
    pub payload: Vec<u8>,
}

/// A movie header box: the declared tracks in file order.
#[derive(Debug, Clone, PartialEq, Eq)]
pub struct MoovBox {
    pub traks: Vec<TrakBox>,
}

/// What a file-type payload decodes to: major brand, minor version, and as
/// many 4-byte compatible brands as fit in the remaining bytes.
pub open spec fn parse_ftyp(data: Seq<u8>) -> Option<(u32, u32, Seq<u32>)> {
    if data.len() < 8 {
        None
    } else {
        Some(
            (
                be32_val(data.subrange(0, 4)),
                be32_val(data.subrange(4, 8)),
                Seq::new(
                    ((data.len() - 8) / 4) as nat,
                    |i: int| be32_val(data.subrange(8 + 4 * i, 12 + 4 * i)),
                ),
            ),
        )
    }
}

impl FtypBox {
    /// Decode a file-type box from a bounded payload slice.
    pub fn read_block(data: &[u8]) -> (r: Result<FtypBox, Error>)
        ensures
            (parse_ftyp(data@) matches Some(v) ==> r matches Ok(b) && b.major_brand == v.0
                && b.minor_version == v.1 && b.compatible_brands@ == v.2),
            parse_ftyp(data@) is None ==> r == Err::<FtypBox, Error>(Error::Truncated),
    {
        if data.len() < 8 {
            return Err(Error::Truncated);
        }
        let major_brand = get_u32(data, 0);
        let minor_version = get_u32(data, 4);
        let n = (data.len() - 8) / 4;
        let len = data.len();
        proof {
            assert(4 * ((data@.len() - 8) / 4) <= data@.len() - 8) by (nonlinear_arith);
        }
        let mut compatible_brands: Vec<u32> = Vec::new();
        let mut i: usize = 0;
        while i < n
            invariant
                len == data@.len(),
                n == (data@.len() - 8) / 4,
                4 * n + 8 <= len,
                i <= n,
                compatible_brands@.len() == i,
                forall|j: int|
                    0 <= j < i ==> compatible_brands@[j] == be32_val(
                        data@.subrange(8 + 4 * j, 12 + 4 * j),
                    ),
            decreases n - i,
        {
            compatible_brands.push(get_u32(data, 8 + 4 * i));
            i += 1;
        }
        proof {
            assert(compatible_brands@ =~= Seq::new(
                ((data@.len() - 8) / 4) as nat,
                |i: int| be32_val(data@.subrange(8 + 4 * i, 12 + 4 * i)),
            ));
        }
        Ok(FtypBox { major_brand, minor_version, compatible_brands })
    }
}

impl EmsgBox {
    /// Keep an event-message box as its payload bytes.
    pub fn read_block(data: &[u8]) -> (r: Result<EmsgBox, Error>)
        ensures
            r matches Ok(b) && b.payload@ == data@,
    {
        Ok(EmsgBox { payload: vstd::slice::slice_to_vec(data) })
    }
}

/// The first track with the given id, searching in order.
pub open spec fn find_track(tracks: Seq<TrackView>, id: u32) -> Option<int>
    decreases tracks.len(),
{
    if tracks.len() == 0 {
        None
    } else if tracks[0].track_id == id {
        Some(0)
    } else {
        match find_track(tracks.skip(1), id) {
            Some(i) => Some(i + 1),
            None => None,
        }
    }
}

/// A first hit at `i` with no earlier hit is what the search finds.
pub proof fn lemma_find_track_at(tracks: Seq<TrackView>, id: u32, i: int)
    requires
        0 <= i < tracks.len(),
        tracks[i].track_id == id,
        forall|j: int| 0 <= j < i ==> tracks[j].track_id != id,
    ensures
        find_track(tracks, id) == Some(i),
    decreases tracks.len(),
{
    if i > 0 {
        lemma_find_track_at(tracks.skip(1), id, i - 1);
    }
}

/// With no hit anywhere the search finds nothing.
pub proof fn lemma_find_track_none(tracks: Seq<TrackView>, id: u32)
    requires
        forall|j: int| 0 <= j < tracks.len() ==> tracks[j].track_id != id,
    ensures
        find_track(tracks, id) is None,
    decreases tracks.len(),
{
    if tracks.len() > 0 {
        lemma_find_track_none(tracks.skip(1), id);
    }
}

/// A found index is in range and carries the id.
pub proof fn lemma_find_track_props(tracks: Seq<TrackView>, id: u32)
    ensures
        find_track(tracks, id) matches Some(i) ==> 0 <= i < tracks.len() && tracks[i].track_id
            == id,
    decreases tracks.len(),
{
    if tracks.len() > 0 {
        lemma_find_track_props(tracks.skip(1), id);
    }
}

/// Whether a track's whole sample table resolves.
pub open spec fn trak_ok(trak: TrakBox) -> bool {
    build_samples(trak, trak.mdia.minf.stbl.stsz.sample_count as nat) is Some
}

/// The track a movie-header track entry resolves to.
pub open spec fn track_view_of(trak: TrakBox) -> TrackView {
    TrackView {
        track_id: trak.tkhd.track_id,
        duration: 0,
        default_sample_duration: 0,
        samples: build_samples(trak, trak.mdia.minf.stbl.stsz.sample_count as nat).unwrap(),
        tkhd: trak.tkhd,
    }
}

/// Insert a track, replacing the first one that carries the same id, else
/// appending.
pub open spec fn upsert_track(tracks: Seq<TrackView>, t: TrackView) -> Seq<TrackView> {
    match find_track(tracks, t.track_id) {
        Some(i) => tracks.update(i, t),
        None => tracks.push(t),
    }
}

/// The track map after folding in the first `k` tracks a movie header
/// declares.
pub open spec fn fold_traks(tracks0: Seq<TrackView>, traks: Seq<TrakBox>, k: nat) -> Seq<TrackView>
    decreases k,
{
    if k == 0 {
        tracks0
    } else {
        upsert_track(fold_traks(tracks0, traks, (k - 1) as nat), track_view_of(traks[k - 1]))
    }
}

/// The track map after one track fragment: its samples are appended to the
/// track its id names; nothing where the id is unknown or the fragment does
/// not resolve.
pub open spec fn traf_apply(tracks: Seq<TrackView>, moof_offset: u64, traf: TrafBox) -> Option<
    Seq<TrackView>,
> {
    match find_track(tracks, traf.tfhd.track_id) {
        None => None,
        Some(i) => match traf_samples_spec(tracks[i], moof_offset, traf) {
            None => None,
            Some(ss) => Some(
                tracks.update(i, TrackView { samples: tracks[i].samples + ss, ..tracks[i] }),
            ),
        },
    }
}

/// The track map after the first `k` track fragments of a movie fragment.
pub open spec fn moof_apply(
    tracks: Seq<TrackView>,
    moof_offset: u64,
    trafs: Seq<TrafBox>,
    k: nat,
) -> Option<Seq<TrackView>>
    decreases k,
{
    if k == 0 {
        Some(tracks)
    } else {
        match moof_apply(tracks, moof_offset, trafs, (k - 1) as nat) {
            None => None,
            Some(ts) => traf_apply(ts, moof_offset, trafs[k - 1]),
        }
    }
}

/// Once a fragment fails at some track fragment, it fails for every longer
/// prefix.
pub proof fn lemma_moof_apply_none_extends(
    tracks: Seq<TrackView>,
    moof_offset: u64,
    trafs: Seq<TrafBox>,
    k: nat,
    m: nat,
)
    requires
        k <= m,
        moof_apply(tracks, moof_offset, trafs, k) is None,
    ensures
        moof_apply(tracks, moof_offset, trafs, m) is None,
    decreases m - k,
{
    if k < m {
        lemma_moof_apply_none_extends(tracks, moof_offset, trafs, (k + 1) as nat, m);
    }
}

/// The parsed file: the optional file-type box, the event messages seen, the
/// media-data region's offset and declared size, and the resolved tracks.
#[derive(Debug)]
pub struct Mp4File {
    pub ftyp: Option<FtypBox>,
    pub emsgs: Vec<EmsgBox>,
    pub mdat_offset: u64,
    pub mdat_size: u64,
    pub tracks: Vec<Mp4Track>,
}

impl Mp4File {
    /// The tracks as mathematical views, in map order.
    pub open spec fn tracks_view(&self) -> Seq<TrackView> {
        self.tracks@.map_values(|t: Mp4Track| t@)
    }

    /// An empty aggregate: no boxes seen, no tracks, no media-data region.
    pub fn new() -> (r: Mp4File)
        ensures
            r.ftyp is None,
            r.emsgs@.len() == 0,
            r.mdat_offset == 0,
            r.mdat_size == 0,
            r.tracks_view().len() == 0,
    {
        let r = Mp4File {
            ftyp: None,
            emsgs: Vec::new(),
            mdat_offset: 0,
            mdat_size: 0,
            tracks: Vec::new(),
        };
        proof {
            assert(r.tracks_view() =~= Seq::<TrackView>::empty());
        }
        r
    }

    /// The first track with the given id.
    pub fn get_track(&self, track_id: u32) -> (r: Option<&Mp4Track>)
        ensures
            find_track(self.tracks_view(), track_id) is None ==> r is None,
            (find_track(self.tracks_view(), track_id) matches Some(i) ==> r matches Some(t) && *t
                == self.tracks@[i]),
    {
        let ghost tv = self.tracks_view();
        let n = self.tracks.len();
        let mut i: usize = 0;
        while i < n
            invariant
                n == self.tracks@.len(),
                tv == self.tracks_view(),
                i <= n,
                forall|j: int| 0 <= j < i ==> tv[j].track_id != track_id,
            decreases n - i,
        {
            if self.tracks[i].track_id == track_id {
                proof {
                    assert(tv[i as int].track_id == track_id);
                    lemma_find_track_at(tv, track_id, i as int);
                }
                return Some(&self.tracks[i]);
            }
            proof {
                assert(tv[i as int].track_id != track_id);
            }
            i += 1;
        }
        proof {
            lemma_find_track_none(tv, track_id);
        }
        None
    }

    /// Fold a movie header's tracks into the track map in file order,
    /// replacing any track that reused an id. A track whose tables do not
    /// resolve stops the fold there, leaving the earlier tracks folded.
    pub fn set_moov(&mut self, moov: &MoovBox) -> (r: Result<(), Error>)
        ensures
            r is Ok <==> (forall|i: int|
                0 <= i < moov.traks@.len() ==> #[trigger] trak_ok(moov.traks@[i])),
            r is Ok ==> final(self).tracks_view() == fold_traks(
                old(self).tracks_view(),
                moov.traks@,
                moov.traks@.len(),
            ),
            r is Err ==> exists|k: int|
                0 <= k < moov.traks@.len() && !#[trigger] trak_ok(moov.traks@[k]) && (forall|j: int|
                    0 <= j < k ==> #[trigger] trak_ok(moov.traks@[j])) && final(self).tracks_view()
                    == fold_traks(old(self).tracks_view(), moov.traks@, k as nat) && r == Err::<
                    (),
                    Error,
                >(
                    build_samples_err(
                        moov.traks@[k],
                        moov.traks@[k].mdia.minf.stbl.stsz.sample_count as nat,
                    ),
                ),
            final(self).ftyp == old(self).ftyp,
            final(self).emsgs == old(self).emsgs,
            final(self).mdat_offset == old(self).mdat_offset,
            final(self).mdat_size == old(self).mdat_size,
    {
        let ghost tracks0 = self.tracks_view();
        let n = moov.traks.len();
        let mut i: usize = 0;
        while i < n
            invariant
                n == moov.traks@.len(),
                i <= n,
                forall|j: int| 0 <= j < i ==> #[trigger] trak_ok(moov.traks@[j]),
                self.tracks_view() == fold_traks(tracks0, moov.traks@, i as nat),
                tracks0 == old(self).tracks_view(),
                self.ftyp == old(self).ftyp,
                self.emsgs == old(self).emsgs,
                self.mdat_offset == old(self).mdat_offset,
                self.mdat_size == old(self).mdat_size,
            decreases n - i,
        {
            let track = match Mp4Track::new(&moov.traks[i]) {
                Ok(track) => track,
                Err(err) => {
                    proof {
                        assert(!trak_ok(moov.traks@[i as int]));
                    }
                    return Err(err);
                },
            };
            proof {
                assert(track@ == track_view_of(moov.traks@[i as int]));
            }
            upsert(&mut self.tracks, track);
            i += 1;
        }
        Ok(())
    }

    /// Fold one movie fragment into the track map: each track fragment appends
    /// its samples to the track its id names, in order. A fragment naming an
    /// unknown track id fails with `TrakNotFound` there, leaving the earlier
    /// track fragments applied and the named tracks otherwise untouched.
    pub fn add_moof(&mut self, offset: u64, moof: &MoofBox) -> (r: Result<(), Error>)
        ensures
            r is Ok <==> moof_apply(
                old(self).tracks_view(),
                offset,
                moof.trafs@,
                moof.trafs@.len(),
            ) is Some,
            r is Ok ==> final(self).tracks_view() == moof_apply(
                old(self).tracks_view(),
                offset,
                moof.trafs@,
                moof.trafs@.len(),
            ).unwrap(),
            r is Err ==> exists|k: int|
                #![trigger moof.trafs@[k]]
                0 <= k < moof.trafs@.len() && (moof_apply(
                    old(self).tracks_view(),
                    offset,
                    moof.trafs@,
                    k as nat,
                ) matches Some(ts) && traf_apply(ts, offset, moof.trafs@[k]) is None && final(
                    self).tracks_view() == ts && (find_track(ts, moof.trafs@[k].tfhd.track_id)
                    is None ==> r == Err::<(), Error>(
                    Error::TrakNotFound(moof.trafs@[k].tfhd.track_id),
                ))),
            final(self).ftyp == old(self).ftyp,
            final(self).emsgs == old(self).emsgs,
            final(self).mdat_offset == old(self).mdat_offset,
            final(self).mdat_size == old(self).mdat_size,
    {
        let ghost tracks0 = self.tracks_view();
        let ghost trafs_g = moof.trafs@;
        let n = moof.trafs.len();
        let mut ti: usize = 0;
        while ti < n
            invariant
                n == trafs_g.len(),
                trafs_g == moof.trafs@,
                ti <= n,
                moof_apply(tracks0, offset, trafs_g, ti as nat) == Some(self.tracks_view()),
                tracks0 == old(self).tracks_view(),
                self.ftyp == old(self).ftyp,
                self.emsgs == old(self).emsgs,
                self.mdat_offset == old(self).mdat_offset,
                self.mdat_size == old(self).mdat_size,
            decreases n - ti,
        {
            let ghost ts_pre = self.tracks_view();
            let traf = &moof.trafs[ti];
            let track_id = traf.tfhd.track_id;
            let idx = match self.find_track_index(track_id) {
                Some(idx) => idx,
                None => {
                    proof {
                        assert(traf_apply(ts_pre, offset, trafs_g[ti as int]) is None);
                        assert(moof_apply(tracks0, offset, trafs_g, (ti + 1) as nat) is None);
                        lemma_moof_apply_none_extends(
                            tracks0,
                            offset,
                            trafs_g,
                            (ti + 1) as nat,
                            trafs_g.len(),
                        );
                    }
                    return Err(Error::TrakNotFound(track_id));
                },
            };
            proof {
                lemma_find_track_props(ts_pre, track_id);
            }
            let track = &mut self.tracks[idx];
            let ghost track_pre = *track;
            proof {
                assert(find_track(ts_pre, track_id) == Some(idx as int));
                assert(ts_pre[idx as int] == track_pre@);
            }
            match track.add_traf(offset, traf) {
                Ok(()) => {
                    proof {
                        let ss = traf_samples_spec(track_pre@, offset, trafs_g[ti as int]).unwrap();
                        assert(self.tracks@[idx as int]@.samples == ts_pre[idx as int].samples
                            + ss);
                        assert(self.tracks@[idx as int]@ == (TrackView {
                            samples: ts_pre[idx as int].samples + ss,
                            ..ts_pre[idx as int]
                        }));
                        assert(self.tracks_view() =~= ts_pre.update(
                            idx as int,
                            self.tracks@[idx as int]@,
                        ));
                        assert(traf_apply(ts_pre, offset, trafs_g[ti as int]) == Some(
                            self.tracks_view(),
                        ));
                    }
                },
                Err(err) => {
                    proof {
                        assert(self.tracks_view() =~= ts_pre);
                        assert(traf_apply(ts_pre, offset, trafs_g[ti as int]) is None);
                        assert(moof_apply(tracks0, offset, trafs_g, (ti + 1) as nat) is None);
                        lemma_moof_apply_none_extends(
                            tracks0,
                            offset,
                            trafs_g,
                            (ti + 1) as nat,
                            trafs_g.len(),
                        );
                    }
                    return Err(err);
                },
            }
            ti += 1;
        }
        Ok(())
    }

    /// The position of the first track with the given id in the track map.
    fn find_track_index(&self, track_id: u32) -> (r: Option<usize>)
        ensures
            r is None ==> find_track(self.tracks_view(), track_id) is None,
            (r matches Some(i) ==> find_track(self.tracks_view(), track_id) == Some(i as int) && i
                < self.tracks@.len()),
    {
        let ghost tv = self.tracks_view();
        let n = self.tracks.len();
        let mut i: usize = 0;
        while i < n
            invariant
                n == self.tracks@.len(),
                tv == self.tracks_view(),
                i <= n,
                forall|j: int| 0 <= j < i ==> tv[j].track_id != track_id,
            decreases n - i,
        {
            if self.tracks[i].track_id == track_id {
                proof {
                    assert(tv[i as int].track_id == track_id);
                    lemma_find_track_at(tv, track_id, i as int);
                }
                return Some(i);
            }
            proof {
                assert(tv[i as int].track_id != track_id);
            }
            i += 1;
        }
        proof {
            lemma_find_track_none(tv, track_id);
        }
        None
    }
}

/// Insert a track into the map, replacing the first track with its id, else
/// appending it.
fn upsert(tracks: &mut Vec<Mp4Track>, t: Mp4Track)
    ensures
        final(tracks)@.map_values(|x: Mp4Track| x@) == upsert_track(
            old(tracks)@.map_values(|x: Mp4Track| x@),
            t@,
        ),
{
    let ghost tv = tracks@.map_values(|x: Mp4Track| x@);
    let n = tracks.len();
    let mut i: usize = 0;
    while i < n
        invariant
            n == tracks@.len(),
            tv == tracks@.map_values(|x: Mp4Track| x@),
            tracks@ == old(tracks)@,
            i <= n,
            forall|j: int| 0 <= j < i ==> tv[j].track_id != t.track_id,
        decreases n - i,
    {
        if tracks[i].track_id == t.track_id {
            proof {
                assert(tv[i as int].track_id == t@.track_id);
                lemma_find_track_at(tv, t@.track_id, i as int);
            }
            let slot = &mut tracks[i];
            *slot = t;
            proof {
                assert(tracks@.map_values(|x: Mp4Track| x@) =~= tv.update(i as int, t@));
            }
            return ;
        }
        proof {
            assert(tv[i as int].track_id != t.track_id);
        }
        i += 1;
    }
    proof {
        lemma_find_track_none(tv, t@.track_id);
    }
    tracks.push(t);
    proof {
        assert(tracks@.map_values(|x: Mp4Track| x@) =~= tv.push(t@));
    }
}

/// A provider of plain in-memory buffers.
#[derive(Debug, Default)]
pub struct MemoryBufferProvider {}

/// A plain in-memory byte buffer.
#[derive(Debug, Clone, PartialEq, Eq, Default)]
pub struct MemoryBuffer {
    inner: Vec<u8>,
}

impl View for MemoryBuffer {
    type V = Seq<u8>;

    closed spec fn view(&self) -> Seq<u8> {
        self.inner@
    }
}

impl MemoryBufferProvider {
    /// A zero-filled buffer of the asked-for size.
    pub fn create_buffer(&mut self, size: usize) -> (r: Result<MemoryBuffer, Error>)
        ensures
            r matches Ok(b) && b@ == Seq::new(size as nat, |i: int| 0u8),
    {
        let v: Vec<u8> = vec![0u8; size];
        proof {
            assert(v@ =~= Seq::new(size as nat, |i: int| 0u8));
        }
        Ok(MemoryBuffer { inner: v })
    }
}

impl MemoryBuffer {
    /// Replace the buffer's contents with a copy of the given bytes.
    pub fn write_bytes(&mut self, data: &[u8]) -> (r: Result<(), Error>)
        ensures
            r is Ok,
            final(self)@ == data@,
    {
        self.inner = vstd::slice::slice_to_vec(data);
        Ok(())
    }

    /// A window into the buffer; the window must lie inside it.
    pub fn read_bytes(&self, offset: usize, len: usize) -> (r: Result<&[u8], Error>)
        requires
            offset + len <= self@.len(),
        ensures
            r matches Ok(s) && s@ == self@.subrange(offset as int, offset + len),
    {
        let n = self.inner.len();
        let end = offset + len;
        Ok(vstd::slice::slice_subrange(self.inner.as_slice(), offset, end))
    }
}


impl Mp4File {
    /// The ids of the tracks in the map, in map order.
    pub fn track_ids(&self) -> (r: Vec<u32>)
        ensures
            r@.len() == self.tracks_view().len(),
            forall|i: int| 0 <= i < r@.len() ==> r@[i] == self.tracks_view()[i].track_id,
    {
        let ghost tv = self.tracks_view();
        let mut ids: Vec<u32> = Vec::new();
        let n = self.tracks.len();
        let mut i: usize = 0;
        while i < n
            invariant
                n == self.tracks@.len(),
                tv == self.tracks_view(),
                i <= n,
                ids@.len() == i,
                forall|j: int| 0 <= j < i ==> ids@[j] == tv[j].track_id,
            decreases n - i,
        {
            ids.push(self.tracks[i].track_id);
            i += 1;
        }
        ids
    }
}

} // verus!
