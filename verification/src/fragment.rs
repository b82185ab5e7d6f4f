//! Movie fragments: the track-fragment header with its per-track defaults,
//! track runs with their optional per-sample fields, and the verified append
//! of a fragment's resolved samples onto an existing track.
use vstd::prelude::*;

use crate::track::{Mp4SampleOffset, Mp4Track, TrackView};
use crate::Error;

verus! {

/// A track-fragment header: the track it extends and the defaults a run may
/// fall back on.
#[derive(Debug, Clone, Copy, PartialEq, Eq, Structural)]
pub struct TfhdBox {
    pub track_id: u32,
    pub base_data_offset: Option<u64>,
    pub sample_description_index: Option<u32>,
    pub default_sample_duration: Option<u32>,
    pub default_sample_size: Option<u32>,
    pub default_sample_flags: Option<u32>,
}

/// One sample of a track run; a field left out inherits the fragment's or the
/// track's default. A sample with no flags field counts as a sync sample.
#[derive(Debug, Clone, Copy, PartialEq, Eq, Structural)]
pub struct TrunEntry {
    pub duration: Option<u32>,
    pub size: Option<u32>,
    pub rendering_offset: Option<i32>,
    pub is_sync: bool,
}

/// One track run: contiguous samples at an optional explicit distance from the
/// fragment's base offset; without one, the run follows the previous run.
#[derive(Debug, Clone, PartialEq, Eq)]
pub struct TrunBox {
    pub data_offset: Option<i32>,
    pub entries: Vec<TrunEntry>,
}

/// One track fragment: its header and its runs, in file order.
#[derive(Debug, Clone, PartialEq, Eq)]
pub struct TrafBox {
    pub tfhd: TfhdBox,
    pub truns: Vec<TrunBox>,
}

/// One movie fragment: its track fragments in file order.
#[derive(Debug, Clone, PartialEq, Eq)]
pub struct MoofBox {
    pub trafs: Vec<TrafBox>,
}

/// The size a run sample resolves to: its own field, else the fragment
/// default; nothing where both are missing.
pub open spec fn trun_entry_size(e: TrunEntry, tfhd: TfhdBox) -> Option<u32> {
    match e.size {
        Some(s) => Some(s),
        None => tfhd.default_sample_size,
    }
}

/// The duration a run sample resolves to: its own field, else the fragment
/// default, else the track default.
pub open spec fn trun_entry_duration(e: TrunEntry, tfhd: TfhdBox, track_default: u32) -> u32 {
    match e.duration {
        Some(d) => d,
        None => match tfhd.default_sample_duration {
            Some(d) => d,
            None => track_default,
        },
    }
}

/// The first `k` samples of one run resolved from byte cursor `off0` and time
/// cursor `t0`, with the cursors after them; nothing where a size is missing
/// or a cursor leaves the 64-bit range.
pub open spec fn run_build(
    entries: Seq<TrunEntry>,
    k: nat,
    tfhd: TfhdBox,
    track_default: u32,
    off0: int,
    t0: int,
) -> Option<(Seq<Mp4SampleOffset>, int, int)>
    decreases k,
{
    if k == 0 {
        Some((Seq::empty(), off0, t0))
    } else {
        match run_build(entries, (k - 1) as nat, tfhd, track_default, off0, t0) {
            None => None,
            Some((ss, off, t)) => {
                let e = entries[k - 1];
                match trun_entry_size(e, tfhd) {
                    None => None,
                    Some(sz) => {
                        let d = trun_entry_duration(e, tfhd, track_default);
                        if off + sz > u64::MAX || t + d > u64::MAX {
                            None
                        } else {
                            Some(
                                (
                                    ss.push(
                                        Mp4SampleOffset {
                                            offset: off as u64,
                                            size: sz,
                                            duration: d,
                                            start_time: t as u64,
                                            rendering_offset: (match e.rendering_offset {
                                                Some(v) => v,
                                                None => 0,
                                            }),
                                            is_sync: e.is_sync,
                                        },
                                    ),
                                    off + sz,
                                    t + d,
                                ),
                            )
                        }
                    },
                }
            },
        }
    }
}

/// The samples of the first `k` runs of a fragment, resolved in order from the
/// fragment's base offset and the cursors.
pub open spec fn traf_build(
    truns: Seq<TrunBox>,
    k: nat,
    tfhd: TfhdBox,
    track_default: u32,
    base: int,
    off0: int,
    t0: int,
) -> Option<(Seq<Mp4SampleOffset>, int, int)>
    decreases k,
{
    if k == 0 {
        Some((Seq::empty(), off0, t0))
    } else {
        match traf_build(truns, (k - 1) as nat, tfhd, track_default, base, off0, t0) {
            None => None,
            Some((ss, off, t)) => {
                let trun = truns[k - 1];
                let start = match trun.data_offset {
                    Some(d) => base + d,
                    None => off,
                };
                if start < 0 || start > u64::MAX {
                    None
                } else {
                    match run_build(
                        trun.entries@,
                        trun.entries@.len(),
                        tfhd,
                        track_default,
                        start,
                        t,
                    ) {
                        None => None,
                        Some((ss2, off2, t2)) => Some((ss + ss2, off2, t2)),
                    }
                }
            },
        }
    }
}

/// The samples one track fragment appends to a track: resolved run by run from
/// the fragment's base data offset (the movie fragment's own offset where the
/// header declares none), timed on from the track's last sample.
pub open spec fn traf_samples_spec(track: TrackView, moof_offset: u64, traf: TrafBox) -> Option<
    Seq<Mp4SampleOffset>,
> {
    let base = match traf.tfhd.base_data_offset {
        Some(b) => b as int,
        None => moof_offset as int,
    };
    let t0 = if track.samples.len() > 0 {
        track.samples.last().start_time + track.samples.last().duration
    } else {
        0
    };
    if t0 > u64::MAX {
        None
    } else {
        match traf_build(
            traf.truns@,
            traf.truns@.len(),
            traf.tfhd,
            track.default_sample_duration,
            base,
            base,
            t0,
        ) {
            None => None,
            Some((ss, _, _)) => Some(ss),
        }
    }
}

/// Once a run fails at some prefix, it fails for every longer prefix.
pub proof fn lemma_run_build_none_extends(
    entries: Seq<TrunEntry>,
    k: nat,
    m: nat,
    tfhd: TfhdBox,
    track_default: u32,
    off0: int,
    t0: int,
)
    requires
        k <= m,
        run_build(entries, k, tfhd, track_default, off0, t0) is None,
    ensures
        run_build(entries, m, tfhd, track_default, off0, t0) is None,
    decreases m - k,
{
    if k < m {
        lemma_run_build_none_extends(entries, (k + 1) as nat, m, tfhd, track_default, off0, t0);
    }
}

/// Once a fragment fails at some run, it fails for every longer run prefix.
pub proof fn lemma_traf_build_none_extends(
    truns: Seq<TrunBox>,
    k: nat,
    m: nat,
    tfhd: TfhdBox,
    track_default: u32,
    base: int,
    off0: int,
    t0: int,
)
    requires
        k <= m,
        traf_build(truns, k, tfhd, track_default, base, off0, t0) is None,
    ensures
        traf_build(truns, m, tfhd, track_default, base, off0, t0) is None,
    decreases m - k,
{
    if k < m {
        lemma_traf_build_none_extends(
            truns,
            (k + 1) as nat,
            m,
            tfhd,
            track_default,
            base,
            off0,
            t0,
        );
    }
}

impl Mp4Track {
    /// Append one track fragment's resolved samples to this track. A fragment
    /// that cannot be resolved leaves the track untouched.
    pub fn add_traf(&mut self, moof_offset: u64, traf: &TrafBox) -> (r: Result<(), Error>)
        ensures
            traf_samples_spec(old(self)@, moof_offset, *traf) is None ==> r is Err && *final(self)
                == *old(self),
            (traf_samples_spec(old(self)@, moof_offset, *traf) matches Some(ss) ==> r == Ok::<
                (),
                Error,
            >(()) && final(self)@.samples == old(self)@.samples + ss && final(self).track_id
                == old(self).track_id && final(self).duration == old(self).duration && final(
                self).default_sample_duration == old(self).default_sample_duration && final(
                self).tkhd == old(self).tkhd),
    {
        let ghost track0 = self@;
        let tfhd = traf.tfhd;
        let track_default = self.default_sample_duration;
        let base: u64 = match tfhd.base_data_offset {
            Some(b) => b,
            None => moof_offset,
        };
        let mut t: u64 = 0;
        if self.samples.len() > 0 {
            let last = self.samples[self.samples.len() - 1];
            if last.duration as u64 > u64::MAX - last.start_time {
                return Err(Error::InvalidData("fragment start time exceeds the 64-bit range"));
            }
            t = last.start_time + (last.duration as u64);
        }
        let ghost t0 = t as int;
        let ghost truns_g = traf.truns@;
        let mut new_samples: Vec<Mp4SampleOffset> = Vec::new();
        let mut cur: u64 = base;
        let n_runs = traf.truns.len();
        let mut ri: usize = 0;
        while ri < n_runs
            invariant
                n_runs == truns_g.len(),
                truns_g == traf.truns@,
                ri <= n_runs,
                traf_build(truns_g, ri as nat, tfhd, track_default, base as int, base as int, t0)
                    == Some((new_samples@, cur as int, t as int)),
                *self == *old(self),
                traf_samples_spec(old(self)@, moof_offset, *traf) matches Some(ss0) ==> traf_build(
                    truns_g,
                    truns_g.len(),
                    tfhd,
                    track_default,
                    base as int,
                    base as int,
                    t0,
                ) is Some,
                (traf_build(truns_g, truns_g.len(), tfhd, track_default, base as int, base as int, t0)
                    matches Some(full) ==> traf_samples_spec(old(self)@, moof_offset, *traf)
                    == Some(full.0)),
            decreases n_runs - ri,
        {
            let ghost pre = new_samples@;
            let ghost prev_off = cur as int;
            let ghost prev_t = t as int;
            let trun = &traf.truns[ri];
            let ghost start_spec = (match trun.data_offset {
                Some(d) => base + d,
                None => prev_off,
            });
            let start: u64 = match trun.data_offset {
                Some(d) => {
                    if d >= 0 {
                        if (d as u64) > u64::MAX - base {
                            proof {
                                assert(start_spec > u64::MAX);
                                assert(traf_build(
                                    truns_g,
                                    (ri + 1) as nat,
                                    tfhd,
                                    track_default,
                                    base as int,
                                    base as int,
                                    t0,
                                ) is None);
                                lemma_traf_build_none_extends(
                                    truns_g,
                                    (ri + 1) as nat,
                                    truns_g.len(),
                                    tfhd,
                                    track_default,
                                    base as int,
                                    base as int,
                                    t0,
                                );
                            }
                            return Err(
                                Error::InvalidData("fragment data offset exceeds the 64-bit range"),
                            );
                        }
                        base + (d as u64)
                    } else {
                        let mag = (-(d as i64)) as u64;
                        if mag > base {
                            proof {
                                assert(start_spec < 0);
                                assert(traf_build(
                                    truns_g,
                                    (ri + 1) as nat,
                                    tfhd,
                                    track_default,
                                    base as int,
                                    base as int,
                                    t0,
                                ) is None);
                                lemma_traf_build_none_extends(
                                    truns_g,
                                    (ri + 1) as nat,
                                    truns_g.len(),
                                    tfhd,
                                    track_default,
                                    base as int,
                                    base as int,
                                    t0,
                                );
                            }
                            return Err(
                                Error::InvalidData("fragment data offset is before the file start"),
                            );
                        }
                        base - mag
                    }
                },
                None => cur,
            };
            proof {
                assert(start as int == start_spec);
            }
            let ghost run_t0 = t as int;
            let entries_n = trun.entries.len();
            let mut ei: usize = 0;
            cur = start;
            while ei < entries_n
                invariant
                    n_runs == truns_g.len(),
                    truns_g == traf.truns@,
                    ri < n_runs,
                    *trun == truns_g[ri as int],
                    entries_n == trun.entries@.len(),
                    ei <= entries_n,
                    start as int == (match trun.data_offset {
                        Some(d) => base + d,
                        None => prev_off,
                    }),
                    traf_build(truns_g, ri as nat, tfhd, track_default, base as int, base as int, t0)
                        == Some((pre, prev_off, run_t0)),
                    (run_build(
                        trun.entries@,
                        ei as nat,
                        tfhd,
                        track_default,
                        start as int,
                        run_t0,
                    ) matches Some(p) && new_samples@ == pre + p.0 && cur as int == p.1 && t as int
                        == p.2),
                    *self == *old(self),
                    traf_samples_spec(old(self)@, moof_offset, *traf) matches Some(ss0)
                        ==> traf_build(
                        truns_g,
                        truns_g.len(),
                        tfhd,
                        track_default,
                        base as int,
                        base as int,
                        t0,
                    ) is Some,
                decreases entries_n - ei,
            {
                let e = trun.entries[ei];
                let sz: u32 = match e.size {
                    Some(s) => s,
                    None => match tfhd.default_sample_size {
                        Some(s) => s,
                        None => {
                            proof {
                                lemma_run_build_none_extends(
                                    trun.entries@,
                                    (ei + 1) as nat,
                                    trun.entries@.len(),
                                    tfhd,
                                    track_default,
                                    start as int,
                                    run_t0,
                                );
                                assert(truns_g[ri as int] == *trun);
                                assert(run_build(
                                    truns_g[ri as int].entries@,
                                    truns_g[ri as int].entries@.len(),
                                    tfhd,
                                    track_default,
                                    start as int,
                                    run_t0,
                                ) is None);
                                assert(traf_build(
                                    truns_g,
                                    ri as nat,
                                    tfhd,
                                    track_default,
                                    base as int,
                                    base as int,
                                    t0,
                                ) == Some((pre, prev_off, run_t0)));
                                assert(traf_build(
                                    truns_g,
                                    (ri + 1) as nat,
                                    tfhd,
                                    track_default,
                                    base as int,
                                    base as int,
                                    t0,
                                ) is None);
                                lemma_traf_build_none_extends(
                                    truns_g,
                                    (ri + 1) as nat,
                                    truns_g.len(),
                                    tfhd,
                                    track_default,
                                    base as int,
                                    base as int,
                                    t0,
                                );
                            }
                            return Err(Error::InvalidData("track run sample has no size"));
                        },
                    },
                };
                let d: u32 = match e.duration {
                    Some(d) => d,
                    None => match tfhd.default_sample_duration {
                        Some(d) => d,
                        None => track_default,
                    },
                };
                if (sz as u64) > u64::MAX - cur || (d as u64) > u64::MAX - t {
                    proof {
                        lemma_run_build_none_extends(
                            trun.entries@,
                            (ei + 1) as nat,
                            trun.entries@.len(),
                            tfhd,
                            track_default,
                            start as int,
                            run_t0,
                        );
                        assert(truns_g[ri as int] == *trun);
                        assert(run_build(
                            truns_g[ri as int].entries@,
                            truns_g[ri as int].entries@.len(),
                            tfhd,
                            track_default,
                            start as int,
                            run_t0,
                        ) is None);
                        assert(traf_build(
                            truns_g,
                            ri as nat,
                            tfhd,
                            track_default,
                            base as int,
                            base as int,
                            t0,
                        ) == Some((pre, prev_off, run_t0)));
                        assert(traf_build(
                            truns_g,
                            (ri + 1) as nat,
                            tfhd,
                            track_default,
                            base as int,
                            base as int,
                            t0,
                        ) is None);
                        lemma_traf_build_none_extends(
                            truns_g,
                            (ri + 1) as nat,
                            truns_g.len(),
                            tfhd,
                            track_default,
                            base as int,
                            base as int,
                            t0,
                        );
                    }
                    return Err(
                        Error::InvalidData("fragment sample position exceeds the 64-bit range"),
                    );
                }
                let rendering_offset: i32 = match e.rendering_offset {
                    Some(v) => v,
                    None => 0,
                };
                new_samples.push(
                    Mp4SampleOffset {
                        offset: cur,
                        size: sz,
                        duration: d,
                        start_time: t,
                        rendering_offset,
                        is_sync: e.is_sync,
                    },
                );
                cur = cur + (sz as u64);
                t = t + (d as u64);
                proof {
                    let stepped = run_build(
                        trun.entries@,
                        (ei + 1) as nat,
                        tfhd,
                        track_default,
                        start as int,
                        run_t0,
                    );
                    assert(stepped matches Some(p2) ==> new_samples@ =~= pre + p2.0);
                }
                ei += 1;
            }
            proof {
                assert(traf_build(
                    truns_g,
                    (ri + 1) as nat,
                    tfhd,
                    track_default,
                    base as int,
                    base as int,
                    t0,
                ) == Some((new_samples@, cur as int, t as int)));
            }
            ri += 1;
        }
        self.samples.append(&mut new_samples);
        proof {
            assert(self@.samples =~= track0.samples + traf_samples_spec(
                track0,
                moof_offset,
                *traf,
            ).unwrap());
        }
        Ok(())
    }
}

} // verus!
