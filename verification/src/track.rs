//! The sample-table resolver: turning a track's compact tables into the byte
//! offset, size, timing, rendering offset and sync flag of any 1-based sample
//! index, and materializing a whole track's samples at once.
use vstd::prelude::*;

use crate::boxtype::BoxType;
use crate::stbl::{CttsEntry, StblBox, StscEntry, StszBox, SttsEntry};
use crate::tkhd::TkhdBox;
use crate::Error;

verus! {

/// A track's media box, holding its media information.
#[derive(Debug, Clone, PartialEq, Eq, Default)]
pub struct MdiaBox {
    pub minf: MinfBox,
}

/// A track's media-information box, holding its sample table.
#[derive(Debug, Clone, PartialEq, Eq, Default)]
pub struct MinfBox {
    pub stbl: StblBox,
}

/// One track of a movie: its header and the media chain down to the sample
/// table.
#[derive(Debug, Clone, PartialEq, Eq)]
pub struct TrakBox {
    pub tkhd: TkhdBox,
    pub mdia: MdiaBox,
}

/// One fully resolved sample: its absolute byte offset, encoded size,
/// duration and cumulative start time, signed rendering offset, and sync flag.
#[derive(Debug, Clone, Copy, PartialEq, Eq, Structural)]
pub struct Mp4SampleOffset {
    pub offset: u64,
    pub size: u32,
    pub duration: u32,
    pub start_time: u64,
    pub rendering_offset: i32,
    pub is_sync: bool,
}

/// How many chunks the offset table declares, whichever width it uses; the
/// 32-bit table wins where a file carries both.
pub open spec fn chunk_count_spec(stbl: StblBox) -> nat {
    match stbl.stco {
        Some(stco) => stco.entries@.len(),
        None => match stbl.co64 {
            Some(co64) => co64.entries@.len(),
            None => 0,
        },
    }
}

/// The base byte offset of a 1-based chunk index, from whichever offset table
/// is present.
pub open spec fn chunk_offset_spec(stbl: StblBox, c: nat) -> Option<u64> {
    match stbl.stco {
        Some(stco) => if 1 <= c <= stco.entries@.len() {
            Some(stco.entries@[c - 1] as u64)
        } else {
            None
        },
        None => match stbl.co64 {
            Some(co64) => if 1 <= c <= co64.entries@.len() {
                Some(co64.entries@[c - 1])
            } else {
                None
            },
            None => None,
        },
    }
}

/// How many samples the 1-based chunk holds: the samples-per-chunk of the last
/// run whose first chunk is not beyond it, or zero before the first run.
pub open spec fn spc_of(entries: Seq<StscEntry>, chunk: nat) -> nat
    decreases entries.len(),
{
    if entries.len() == 0 {
        0
    } else if entries.last().first_chunk as nat <= chunk {
        entries.last().samples_per_chunk as nat
    } else {
        spc_of(entries.drop_last(), chunk)
    }
}

/// How many samples sit in chunks strictly before the 1-based chunk.
pub open spec fn samples_before_chunk(entries: Seq<StscEntry>, chunk: nat) -> nat
    decreases chunk,
{
    if chunk <= 1 {
        0
    } else {
        samples_before_chunk(entries, (chunk - 1) as nat) + spc_of(entries, (chunk - 1) as nat)
    }
}

/// The first chunk at or after `c` that covers the 1-based sample, searching
/// no further than `cc` chunks.
pub open spec fn chunk_for_sample(entries: Seq<StscEntry>, cc: nat, sample: nat, c: nat) -> Option<
    nat,
>
    decreases cc + 1 - c,
{
    if c > cc {
        None
    } else if samples_before_chunk(entries, c) < sample && sample <= samples_before_chunk(entries, c)
        + spc_of(entries, c) {
        Some(c)
    } else {
        chunk_for_sample(entries, cc, sample, c + 1)
    }
}

/// The declared size of the 1-based sample: the fixed size when one is set,
/// else its entry in the per-sample list.
pub open spec fn size_of_sample(stsz: StszBox, s: nat) -> Option<u32> {
    if stsz.sample_size != 0 {
        Some(stsz.sample_size)
    } else if 1 <= s <= stsz.sample_sizes@.len() {
        Some(stsz.sample_sizes@[s - 1])
    } else {
        None
    }
}

/// The summed sizes of the 1-based samples in `[lo, hi)`, or nothing where any
/// of them has no declared size.
pub open spec fn sum_sizes(stsz: StszBox, lo: nat, hi: nat) -> Option<int>
    decreases hi - lo,
{
    if hi <= lo {
        Some(0)
    } else {
        match (sum_sizes(stsz, lo, (hi - 1) as nat), size_of_sample(stsz, (hi - 1) as nat)) {
            (Some(acc), Some(sz)) => Some(acc + sz),
            _ => None,
        }
    }
}

/// The absolute byte offset of the 1-based sample: its chunk's base offset
/// plus the sizes of the samples before it in the chunk; nothing where no
/// chunk run covers it, its chunk has no table entry, or a needed size is
/// missing.
pub open spec fn sample_offset_spec(stbl: StblBox, s: nat) -> Option<int> {
    match chunk_for_sample(stbl.stsc.entries@, chunk_count_spec(stbl), s, 1) {
        None => None,
        Some(c) => match chunk_offset_spec(stbl, c) {
            None => None,
            Some(base) => match sum_sizes(stbl.stsz, samples_before_chunk(stbl.stsc.entries@, c)
                + 1, s) {
                None => None,
                Some(sum) => Some(base + sum),
            },
        },
    }
}

/// The duration of the 0-based sample: the delta of the time run covering it.
pub open spec fn stts_dur(entries: Seq<SttsEntry>, k: nat) -> Option<u32>
    decreases entries.len(),
{
    if entries.len() == 0 {
        None
    } else if k < entries[0].sample_count as nat {
        Some(entries[0].sample_delta)
    } else {
        stts_dur(entries.skip(1), (k - entries[0].sample_count) as nat)
    }
}

/// The decode start time of the 0-based sample: the sum of the durations of
/// all samples before it.
pub open spec fn stts_start(entries: Seq<SttsEntry>, k: nat) -> Option<int>
    decreases entries.len(),
{
    if entries.len() == 0 {
        None
    } else if k < entries[0].sample_count as nat {
        Some(k * entries[0].sample_delta)
    } else {
        match stts_start(entries.skip(1), (k - entries[0].sample_count) as nat) {
            Some(t) => Some(entries[0].sample_count * entries[0].sample_delta + t),
            None => None,
        }
    }
}

/// The composition offset of the 0-based sample from its run, where one covers
/// it.
pub open spec fn ctts_offset_at(entries: Seq<CttsEntry>, k: nat) -> Option<i32>
    decreases entries.len(),
{
    if entries.len() == 0 {
        None
    } else if k < entries[0].sample_count as nat {
        Some(entries[0].sample_offset)
    } else {
        ctts_offset_at(entries.skip(1), (k - entries[0].sample_count) as nat)
    }
}

/// The rendering offset of the 1-based sample: its composition-table entry
/// where the table is present and covers it, else zero.
pub open spec fn rendering_offset_spec(stbl: StblBox, s: nat) -> i32 {
    match stbl.ctts {
        None => 0,
        Some(ctts) => match ctts_offset_at(ctts.entries@, (s - 1) as nat) {
            Some(v) => v,
            None => 0,
        },
    }
}

/// Whether the 1-based sample is a sync sample: every sample is where no
/// sync table is present, else exactly the listed indices are.
pub open spec fn is_sync_spec(stbl: StblBox, s: nat) -> bool {
    match stbl.stss {
        None => true,
        Some(stss) => stss.entries@.contains(s as u32),
    }
}

/// A chunk holds at most the largest 32-bit count of samples.
pub proof fn lemma_spc_of_bound(entries: Seq<StscEntry>, chunk: nat)
    ensures
        spc_of(entries, chunk) <= u32::MAX,
    decreases entries.len(),
{
    if entries.len() > 0 && !(entries.last().first_chunk as nat <= chunk) {
        lemma_spc_of_bound(entries.drop_last(), chunk);
    }
}

/// A found chunk lies in the searched range and its sample window covers the
/// sample.
pub proof fn lemma_chunk_for_sample_props(entries: Seq<StscEntry>, cc: nat, sample: nat, c0: nat)
    ensures
        chunk_for_sample(entries, cc, sample, c0) matches Some(c) ==> c0 <= c <= cc
            && samples_before_chunk(entries, c) < sample && sample <= samples_before_chunk(
            entries,
            c,
        ) + spc_of(entries, c),
    decreases cc + 1 - c0,
{
    if c0 <= cc {
        lemma_chunk_for_sample_props(entries, cc, sample, c0 + 1);
    }
}

/// Once a size in the range is missing, every longer range's sum is missing
/// too.
pub proof fn lemma_sum_sizes_none_extends(stsz: StszBox, lo: nat, mid: nat, hi: nat)
    requires
        mid <= hi,
        sum_sizes(stsz, lo, mid) is None,
    ensures
        sum_sizes(stsz, lo, hi) is None,
    decreases hi - mid,
{
    if mid < hi {
        lemma_sum_sizes_none_extends(stsz, lo, mid + 1, hi);
    }
}

/// A sum of sizes is bounded by the widest size times the range's width.
pub proof fn lemma_sum_sizes_bound(stsz: StszBox, lo: nat, hi: nat)
    requires
        lo <= hi,
    ensures
        sum_sizes(stsz, lo, hi) matches Some(v) ==> 0 <= v <= (hi - lo) * 0xFFFF_FFFF,
    decreases hi - lo,
{
    if lo < hi {
        lemma_sum_sizes_bound(stsz, lo, (hi - 1) as nat);
        assert((hi - 1 - lo) * 0xFFFF_FFFF + 0xFFFF_FFFF == (hi - lo) * 0xFFFF_FFFF)
            by (nonlinear_arith);
    }
}

/// A sample's start time and duration are found or missing together.
pub proof fn lemma_stts_coupled(entries: Seq<SttsEntry>, k: nat)
    ensures
        stts_start(entries, k) is Some <==> stts_dur(entries, k) is Some,
    decreases entries.len(),
{
    if entries.len() > 0 && !(k < entries[0].sample_count as nat) {
        lemma_stts_coupled(entries.skip(1), (k - entries[0].sample_count) as nat);
    }
}

/// A start time is bounded by the widest delta times the sample's index.
pub proof fn lemma_stts_start_bound(entries: Seq<SttsEntry>, k: nat)
    ensures
        stts_start(entries, k) matches Some(t) ==> 0 <= t <= k * 0xFFFF_FFFF,
    decreases entries.len(),
{
    if entries.len() == 0 {
    } else if k < entries[0].sample_count as nat {
        let d = entries[0].sample_delta as int;
        assert(d <= 0xFFFF_FFFF ==> k * d <= k * 0xFFFF_FFFF) by (nonlinear_arith);
    } else {
        let c0 = entries[0].sample_count as nat;
        let d0 = entries[0].sample_delta as int;
        lemma_stts_start_bound(entries.skip(1), (k - c0) as nat);
        if stts_start(entries.skip(1), (k - c0) as nat) matches Some(t) {
            assert(c0 * d0 <= c0 * 0xFFFF_FFFF) by (nonlinear_arith)
                requires
                    d0 <= 0xFFFF_FFFF,
                    c0 >= 0,
            ;
            assert(c0 * 0xFFFF_FFFF + (k - c0) * 0xFFFF_FFFF == k * 0xFFFF_FFFF)
                by (nonlinear_arith);
        }
    }
}

/// The samples-per-chunk of the run covering a 1-based chunk.
fn stsc_spc(entries: &Vec<StscEntry>, chunk: usize) -> (r: u32)
    ensures
        r as nat == spc_of(entries@, chunk as nat),
{
    let mut i = entries.len();
    proof {
        assert(entries@.take(i as int) =~= entries@);
    }
    while i > 0
        invariant
            i <= entries@.len(),
            spc_of(entries@, chunk as nat) == spc_of(entries@.take(i as int), chunk as nat),
        decreases i,
    {
        i -= 1;
        let e = entries[i];
        proof {
            assert(entries@.take(i + 1).last() == entries@[i as int]);
            assert(entries@.take(i + 1).drop_last() =~= entries@.take(i as int));
        }
        if e.first_chunk as usize <= chunk {
            return e.samples_per_chunk;
        }
    }
    0
}

/// The chunk covering a 1-based sample, with the count of samples in earlier
/// chunks, searching the offset table's `chunk_count` chunks.
fn find_chunk(entries: &Vec<StscEntry>, chunk_count: usize, sample_id: u32) -> (r: Option<
    (usize, u64),
>)
    requires
        sample_id >= 1,
    ensures
        chunk_for_sample(entries@, chunk_count as nat, sample_id as nat, 1) is None ==> r is None,
        (chunk_for_sample(entries@, chunk_count as nat, sample_id as nat, 1) matches Some(c) ==> r
            matches Some(p) && p.0 == c && p.1 == samples_before_chunk(entries@, c)),
{
    let ghost es = entries@;
    let ghost cc = chunk_count as nat;
    let ghost sample = sample_id as nat;
    let mut acc: u64 = 0;
    let mut idx: usize = 0;
    while idx < chunk_count
        invariant
            sample_id >= 1,
            es == entries@,
            cc == chunk_count as nat,
            sample == sample_id as nat,
            idx <= chunk_count,
            acc == samples_before_chunk(es, (idx + 1) as nat),
            acc < sample_id,
            chunk_for_sample(es, cc, sample, 1) == chunk_for_sample(es, cc, sample, (idx + 1) as nat),
        decreases chunk_count - idx,
    {
        let c = idx + 1;
        let spc = stsc_spc(entries, c);
        proof {
            lemma_spc_of_bound(es, c as nat);
        }
        if (sample_id as u64) <= acc + (spc as u64) {
            return Some((c, acc));
        }
        acc = acc + (spc as u64);
        idx = c;
    }
    None
}

/// The declared size of a 1-based sample.
fn stsz_size(stsz: &StszBox, sample_id: u32) -> (r: Option<u32>)
    requires
        sample_id >= 1,
    ensures
        r == size_of_sample(*stsz, sample_id as nat),
{
    if stsz.sample_size != 0 {
        Some(stsz.sample_size)
    } else if (sample_id as usize) <= stsz.sample_sizes.len() {
        Some(stsz.sample_sizes[(sample_id - 1) as usize])
    } else {
        None
    }
}

/// The summed sizes of the 1-based samples in `[lo, hi)`.
fn stsz_sum(stsz: &StszBox, lo: u64, hi: u64) -> (r: Option<u64>)
    requires
        1 <= lo <= hi,
        hi <= u32::MAX,
    ensures
        r is None ==> sum_sizes(*stsz, lo as nat, hi as nat) is None,
        (r matches Some(v) ==> sum_sizes(*stsz, lo as nat, hi as nat) == Some(v as int)),
{
    let mut acc: u64 = 0;
    let mut j: u64 = lo;
    while j < hi
        invariant
            1 <= lo <= j <= hi,
            hi <= u32::MAX,
            sum_sizes(*stsz, lo as nat, j as nat) == Some(acc as int),
            acc <= (j - lo) * 0xFFFF_FFFF,
        decreases hi - j,
    {
        let sz = match stsz_size(stsz, j as u32) {
            Some(sz) => sz,
            None => {
                proof {
                    lemma_sum_sizes_none_extends(*stsz, lo as nat, (j + 1) as nat, hi as nat);
                }
                return None;
            },
        };
        proof {
            assert((j - lo) * 0xFFFF_FFFF + 0xFFFF_FFFF == (j + 1 - lo) * 0xFFFF_FFFF)
                by (nonlinear_arith);
            assert((j + 1 - lo) * 0xFFFF_FFFF <= 0xFFFF_FFFFu64 * 0xFFFF_FFFFu64)
                by (nonlinear_arith)
                requires
                    j + 1 - lo <= 0xFFFF_FFFF,
            ;
        }
        acc = acc + (sz as u64);
        j = j + 1;
    }
    Some(acc)
}

impl TrakBox {
    /// The absolute byte offset of the 1-based sample, or the lookup-miss
    /// error where no run or table entry covers it, or a structural error
    /// where the implied offset cannot fit 64 bits.
    pub fn sample_offset(&self, sample_id: u32) -> (r: Result<u64, Error>)
        requires
            sample_id >= 1,
        ensures
            sample_offset_spec(self.mdia.minf.stbl, sample_id as nat) is None ==> (r matches Err(
                Error::EntryInStblNotFound(t, _, s),
            ) && t == self.tkhd.track_id && s == sample_id),
            (sample_offset_spec(self.mdia.minf.stbl, sample_id as nat) matches Some(o) ==> (o
                <= u64::MAX ==> r == Ok::<u64, Error>(o as u64)) && (o > u64::MAX ==> r == Err::<
                u64,
                Error,
            >(Error::InvalidData("sample offset exceeds the 64-bit range")))),
    {
        let stbl = &self.mdia.minf.stbl;
        let ghost stbl_g = self.mdia.minf.stbl;
        let chunk_count: usize = match &stbl.stco {
            Some(stco) => stco.entries.len(),
            None => match &stbl.co64 {
                Some(co64) => co64.entries.len(),
                None => 0,
            },
        };
        proof {
            lemma_chunk_for_sample_props(
                stbl_g.stsc.entries@,
                chunk_count as nat,
                sample_id as nat,
                1,
            );
        }
        let (c, before) = match find_chunk(&stbl.stsc.entries, chunk_count, sample_id) {
            Some(p) => p,
            None => {
                return Err(
                    Error::EntryInStblNotFound(self.tkhd.track_id, BoxType::StscBox, sample_id),
                );
            },
        };
        let base: u64 = match &stbl.stco {
            Some(stco) => stco.entries[c - 1] as u64,
            None => match &stbl.co64 {
                Some(co64) => co64.entries[c - 1],
                None => {
                    proof {
                        assert(false);
                    }
                    0
                },
            },
        };
        proof {
            lemma_spc_of_bound(stbl_g.stsc.entries@, c as nat);
        }
        let sum: u64 = match stsz_sum(&stbl.stsz, before + 1, sample_id as u64) {
            Some(v) => v,
            None => {
                return Err(
                    Error::EntryInStblNotFound(self.tkhd.track_id, BoxType::StszBox, sample_id),
                );
            },
        };
        if sum > u64::MAX - base {
            return Err(Error::InvalidData("sample offset exceeds the 64-bit range"));
        }
        Ok(base + sum)
    }

    /// The declared size of the 1-based sample, or the lookup-miss error.
    pub fn sample_size(&self, sample_id: u32) -> (r: Result<u32, Error>)
        requires
            sample_id >= 1,
        ensures
            size_of_sample(self.mdia.minf.stbl.stsz, sample_id as nat) is None ==> r == Err::<
                u32,
                Error,
            >(Error::EntryInStblNotFound(self.tkhd.track_id, BoxType::StszBox, sample_id)),
            (size_of_sample(self.mdia.minf.stbl.stsz, sample_id as nat) matches Some(sz) ==> r
                == Ok::<u32, Error>(sz)),
    {
        match stsz_size(&self.mdia.minf.stbl.stsz, sample_id) {
            Some(sz) => Ok(sz),
            None => Err(Error::EntryInStblNotFound(self.tkhd.track_id, BoxType::StszBox, sample_id)),
        }
    }

    /// The decode start time and duration of the 1-based sample, or the
    /// lookup-miss error where no time run covers it.
    pub fn sample_time(&self, sample_id: u32) -> (r: Result<(u64, u32), Error>)
        requires
            sample_id >= 1,
        ensures
            stts_dur(self.mdia.minf.stbl.stts.entries@, (sample_id - 1) as nat) is None ==> r
                == Err::<(u64, u32), Error>(
                Error::EntryInStblNotFound(self.tkhd.track_id, BoxType::SttsBox, sample_id),
            ),
            (stts_dur(self.mdia.minf.stbl.stts.entries@, (sample_id - 1) as nat) matches Some(d)
                ==> stts_start(self.mdia.minf.stbl.stts.entries@, (sample_id - 1) as nat) matches
                Some(t) && r == Ok::<(u64, u32), Error>((t as u64, d))),
    {
        proof {
            lemma_stts_coupled(self.mdia.minf.stbl.stts.entries@, (sample_id - 1) as nat);
            assert(self.mdia.minf.stbl.stts.entries@.skip(0) =~= self.mdia.minf.stbl.stts.entries@);
        }
        match stts_lookup(&self.mdia.minf.stbl.stts.entries, 0, (sample_id - 1) as u64) {
            Some(p) => Ok(p),
            None => Err(Error::EntryInStblNotFound(self.tkhd.track_id, BoxType::SttsBox, sample_id)),
        }
    }

    /// The rendering offset of the 1-based sample: its composition-table
    /// entry where present, else zero.
    pub fn sample_rendering_offset(&self, sample_id: u32) -> (r: i32)
        requires
            sample_id >= 1,
        ensures
            r == rendering_offset_spec(self.mdia.minf.stbl, sample_id as nat),
    {
        match &self.mdia.minf.stbl.ctts {
            None => 0,
            Some(ctts) => {
                proof {
                    assert(ctts.entries@.skip(0) =~= ctts.entries@);
                }
                match ctts_lookup(&ctts.entries, 0, (sample_id - 1) as u64) {
                    Some(v) => v,
                    None => 0,
                }
            },
        }
    }

    /// Whether the 1-based sample is a sync sample: every sample is where no
    /// sync table is present.
    pub fn sample_is_sync(&self, sample_id: u32) -> (r: bool)
        requires
            sample_id >= 1,
        ensures
            r == is_sync_spec(self.mdia.minf.stbl, sample_id as nat),
    {
        match &self.mdia.minf.stbl.stss {
            None => true,
            Some(stss) => {
                let n = stss.entries.len();
                let mut i: usize = 0;
                while i < n
                    invariant
                        self.mdia.minf.stbl.stss == Some(*stss),
                        n == stss.entries@.len(),
                        i <= n,
                        forall|j: int| 0 <= j < i ==> stss.entries@[j] != sample_id,
                    decreases n - i,
                {
                    if stss.entries[i] == sample_id {
                        proof {
                            assert(((sample_id as nat) as u32) == sample_id);
                            assert(stss.entries@.contains(sample_id));
                        }
                        return true;
                    }
                    i += 1;
                }
                proof {
                    assert(!stss.entries@.contains(sample_id));
                }
                false
            },
        }
    }
}

/// The start time and duration of the 0-based sample `k`, looked up in the
/// time runs from entry `i` on.
fn stts_lookup(entries: &Vec<SttsEntry>, i: usize, k: u64) -> (r: Option<(u64, u32)>)
    requires
        i <= entries@.len(),
        k <= u32::MAX,
    ensures
        stts_dur(entries@.skip(i as int), k as nat) is None ==> r is None,
        (stts_dur(entries@.skip(i as int), k as nat) matches Some(d) ==> stts_start(
            entries@.skip(i as int),
            k as nat,
        ) matches Some(t) && r == Some((t as u64, d))),
    decreases entries@.len() - i,
{
    let ghost tail = entries@.skip(i as int);
    if i == entries.len() {
        return None;
    }
    let e = entries[i];
    proof {
        assert(tail[0] == entries@[i as int]);
        assert(tail.skip(1) =~= entries@.skip(i + 1));
        lemma_stts_coupled(tail, k as nat);
        lemma_stts_coupled(tail.skip(1), (k - e.sample_count) as nat);
        lemma_stts_start_bound(tail.skip(1), (k - e.sample_count) as nat);
    }
    if k < e.sample_count as u64 {
        proof {
            assert(k * (e.sample_delta as u64) <= 0xFFFF_FFFFu64 * 0xFFFF_FFFFu64)
                by (nonlinear_arith)
                requires
                    k <= 0xFFFF_FFFF,
                    e.sample_delta <= 0xFFFF_FFFF,
            ;
        }
        Some((k * (e.sample_delta as u64), e.sample_delta))
    } else {
        match stts_lookup(entries, i + 1, k - (e.sample_count as u64)) {
            Some((t, d)) => {
                proof {
                    assert((e.sample_count as u64) * (e.sample_delta as u64) + ((k - (
                    e.sample_count as u64)) as u64) * 0xFFFF_FFFFu64 <= 0xFFFF_FFFFu64
                        * 0xFFFF_FFFFu64) by (nonlinear_arith)
                        requires
                            k <= 0xFFFF_FFFF,
                            e.sample_count as u64 <= k,
                            e.sample_delta <= 0xFFFF_FFFF,
                    ;
                }
                Some(((e.sample_count as u64) * (e.sample_delta as u64) + t, d))
            },
            None => None,
        }
    }
}

/// The composition offset of the 0-based sample `k`, looked up in the runs
/// from entry `i` on.
fn ctts_lookup(entries: &Vec<CttsEntry>, i: usize, k: u64) -> (r: Option<i32>)
    requires
        i <= entries@.len(),
    ensures
        r == ctts_offset_at(entries@.skip(i as int), k as nat),
    decreases entries@.len() - i,
{
    let ghost tail = entries@.skip(i as int);
    if i == entries.len() {
        return None;
    }
    let e = entries[i];
    proof {
        assert(tail[0] == entries@[i as int]);
        assert(tail.skip(1) =~= entries@.skip(i + 1));
    }
    if k < e.sample_count as u64 {
        Some(e.sample_offset)
    } else {
        ctts_lookup(entries, i + 1, k - (e.sample_count as u64))
    }
}


/// The samples of a track resolved in index order up to the 1-based sample
/// `k`: a sample whose offset or size lookup misses is skipped; an offset
/// beyond 64 bits or a missing time run fails the whole build.
pub open spec fn build_samples(trak: TrakBox, k: nat) -> Option<Seq<Mp4SampleOffset>>
    decreases k,
{
    if k == 0 {
        Some(Seq::empty())
    } else {
        match build_samples(trak, (k - 1) as nat) {
            None => None,
            Some(prefix) => {
                let stbl = trak.mdia.minf.stbl;
                match sample_offset_spec(stbl, k) {
                    None => Some(prefix),
                    Some(o) => if o > u64::MAX {
                        None
                    } else {
                        match size_of_sample(stbl.stsz, k) {
                            None => Some(prefix),
                            Some(sz) => match (
                                stts_start(stbl.stts.entries@, (k - 1) as nat),
                                stts_dur(stbl.stts.entries@, (k - 1) as nat),
                            ) {
                                (Some(t), Some(d)) => Some(
                                    prefix.push(
                                        Mp4SampleOffset {
                                            offset: o as u64,
                                            size: sz,
                                            duration: d,
                                            start_time: t as u64,
                                            rendering_offset: rendering_offset_spec(stbl, k),
                                            is_sync: is_sync_spec(stbl, k),
                                        },
                                    ),
                                ),
                                _ => None,
                            },
                        }
                    },
                }
            },
        }
    }
}

/// Once the build fails at some prefix, it fails for every longer prefix.
pub proof fn lemma_build_samples_none_extends(trak: TrakBox, k: nat, m: nat)
    requires
        k <= m,
        build_samples(trak, k) is None,
    ensures
        build_samples(trak, m) is None,
    decreases m - k,
{
    if k < m {
        lemma_build_samples_none_extends(trak, (k + 1) as nat, m);
    }
}

/// The error a failing build reports: the structural error where the first
/// failing sample's implied offset leaves the 64-bit range, else the time-run
/// lookup miss for that sample. Meaningful only where `build_samples` fails;
/// a build that cannot fail is given the placeholder truncation value.
pub open spec fn build_samples_err(trak: TrakBox, k: nat) -> Error
    recommends
        build_samples(trak, k) is None,
    decreases k,
{
    if k == 0 {
        Error::Truncated
    } else if build_samples(trak, (k - 1) as nat) is None {
        build_samples_err(trak, (k - 1) as nat)
    } else {
        match sample_offset_spec(trak.mdia.minf.stbl, k) {
            Some(o) => if o > u64::MAX {
                Error::InvalidData("sample offset exceeds the 64-bit range")
            } else {
                Error::EntryInStblNotFound(trak.tkhd.track_id, BoxType::SttsBox, k as u32)
            },
            None => Error::EntryInStblNotFound(trak.tkhd.track_id, BoxType::SttsBox, k as u32),
        }
    }
}

/// Once the build fails at some prefix, every longer prefix reports that
/// prefix's error.
pub proof fn lemma_build_samples_err_extends(trak: TrakBox, k: nat, m: nat)
    requires
        k <= m,
        build_samples(trak, k) is None,
    ensures
        build_samples_err(trak, m) == build_samples_err(trak, k),
    decreases m - k,
{
    if k < m {
        lemma_build_samples_none_extends(trak, k, (m - 1) as nat);
        lemma_build_samples_err_extends(trak, k, (m - 1) as nat);
    }
}

/// One movie track: its identity, fragment defaults, and resolved samples.
#[derive(Debug, Clone, PartialEq, Eq)]
pub struct Mp4Track {
    pub track_id: u32,
    pub duration: u64,
    pub default_sample_duration: u32,
    pub samples: Vec<Mp4SampleOffset>,
    pub tkhd: TkhdBox,
}

impl Mp4Track {
    /// Resolve a whole track from its header and sample table, walking every
    /// declared sample index in order: an index whose offset or size lookup
    /// misses is skipped, any other failure fails the track.
    pub fn new(trak: &TrakBox) -> (r: Result<Mp4Track, Error>)
        ensures
            r is Ok <==> build_samples(*trak, trak.mdia.minf.stbl.stsz.sample_count as nat)
                is Some,
            (r matches Ok(t) ==> t.samples@ == build_samples(
                *trak,
                trak.mdia.minf.stbl.stsz.sample_count as nat,
            ).unwrap() && t.track_id == trak.tkhd.track_id && t.duration == 0
                && t.default_sample_duration == 0 && t.tkhd == trak.tkhd),
            (r matches Err(e) ==> e == build_samples_err(
                *trak,
                trak.mdia.minf.stbl.stsz.sample_count as nat,
            )),
    {
        let count = trak.mdia.minf.stbl.stsz.sample_count;
        let mut samples: Vec<Mp4SampleOffset> = Vec::new();
        let mut idx: u32 = 0;
        while idx < count
            invariant
                idx <= count,
                count == trak.mdia.minf.stbl.stsz.sample_count,
                build_samples(*trak, idx as nat) == Some(samples@),
            decreases count - idx,
        {
            let sample_id = idx + 1;
            let ghost k = sample_id as nat;
            let offset = match trak.sample_offset(sample_id) {
                Ok(offset) => offset,
                Err(Error::EntryInStblNotFound(_, _, _)) => {
                    proof {
                        assert(build_samples(*trak, k) == Some(samples@));
                    }
                    idx = sample_id;
                    continue ;
                },
                Err(err) => {
                    proof {
                        assert(err == build_samples_err(*trak, k));
                        lemma_build_samples_err_extends(*trak, k, count as nat);
                        lemma_build_samples_none_extends(*trak, k, count as nat);
                    }
                    return Err(err);
                },
            };
            let size = match trak.sample_size(sample_id) {
                Ok(size) => size,
                Err(Error::EntryInStblNotFound(_, _, _)) => {
                    proof {
                        assert(build_samples(*trak, k) == Some(samples@));
                    }
                    idx = sample_id;
                    continue ;
                },
                Err(err) => {
                    // a size lookup can only miss, which the arm above catches
                    proof {
                        assert(false);
                    }
                    return Err(err);
                },
            };
            let (start_time, duration) = match trak.sample_time(sample_id) {
                Ok(p) => p,
                Err(err) => {
                    proof {
                        assert(err == build_samples_err(*trak, k));
                        lemma_build_samples_err_extends(*trak, k, count as nat);
                        lemma_build_samples_none_extends(*trak, k, count as nat);
                    }
                    return Err(err);
                },
            };
            let rendering_offset = trak.sample_rendering_offset(sample_id);
            let is_sync = trak.sample_is_sync(sample_id);
            samples.push(
                Mp4SampleOffset { offset, size, duration, start_time, rendering_offset, is_sync },
            );
            proof {
                assert(build_samples(*trak, k) == Some(samples@));
            }
            idx = sample_id;
        }
        Ok(
            Mp4Track {
                track_id: trak.tkhd.track_id,
                duration: 0,
                default_sample_duration: 0,
                samples,
                tkhd: trak.tkhd,
            },
        )
    }
}


/// The mathematical view of a track: its scalar fields and its samples as a
/// sequence.
pub struct TrackView {
    pub track_id: u32,
    pub duration: u64,
    pub default_sample_duration: u32,
    pub samples: Seq<Mp4SampleOffset>,
    pub tkhd: TkhdBox,
}

impl View for Mp4Track {
    type V = TrackView;

    open spec fn view(&self) -> TrackView {
        TrackView {
            track_id: self.track_id,
            duration: self.duration,
            default_sample_duration: self.default_sample_duration,
            samples: self.samples@,
            tkhd: self.tkhd,
        }
    }
}


impl Mp4Track {
    /// How many samples the track has resolved.
    pub fn sample_count(&self) -> (r: usize)
        ensures
            r == self@.samples.len(),
    {
        self.samples.len()
    }

    /// The resolved descriptor of the 1-based sample index, or nothing where
    /// the index is out of range.
    pub fn sample(&self, sample_id: u32) -> (r: Option<&Mp4SampleOffset>)
        ensures
            1 <= sample_id <= self@.samples.len() ==> (r matches Some(s) && *s
                == self@.samples[sample_id - 1]),
            !(1 <= sample_id <= self@.samples.len()) ==> r is None,
    {
        if sample_id >= 1 && (sample_id as usize) <= self.samples.len() {
            Some(&self.samples[(sample_id - 1) as usize])
        } else {
            None
        }
    }
}

} // verus!
