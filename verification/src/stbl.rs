//! The sample-table component boxes: 32-bit chunk offsets, sample sizes,
//! sample-to-chunk runs, time-to-sample runs, sync-sample indices and
//! composition-time offsets, plus the sample-table container that groups them.
//! Every table checks its declared entry count against the bytes that remain
//! before allocating.
use vstd::prelude::*;

use crate::co64::Co64Box;
use crate::codec::{be32_val, get_i32, get_u32, i32_of_u32};
use crate::fullbox::{ext_flags, ext_version, read_box_header_ext};
use crate::Error;

verus! {

broadcast use vstd::seq::group_seq_axioms;

/// A decoded 32-bit chunk-offset table.
#[derive(Debug, Clone, PartialEq, Eq, Default)]
pub struct StcoBox {
    pub version: u8,
    pub flags: u32,
    pub entries: Vec<u32>,
}

/// A decoded sample-size table: one fixed size for every sample, or a
/// per-sample list when the fixed size is zero.
#[derive(Debug, Clone, PartialEq, Eq, Default)]
pub struct StszBox {
    pub version: u8,
    pub flags: u32,
    pub sample_size: u32,
    pub sample_count: u32,
    pub sample_sizes: Vec<u32>,
}

/// One run of the sample-to-chunk table: starting at `first_chunk`, every
/// following chunk holds `samples_per_chunk` samples until the next run.
#[derive(Debug, Clone, Copy, PartialEq, Eq, Structural)]
pub struct StscEntry {
    pub first_chunk: u32,
    pub samples_per_chunk: u32,
    pub sample_description_index: u32,
}

/// A decoded sample-to-chunk run table.
#[derive(Debug, Clone, PartialEq, Eq, Default)]
pub struct StscBox {
    pub version: u8,
    pub flags: u32,
    pub entries: Vec<StscEntry>,
}

/// One run of the time-to-sample table: `sample_count` consecutive samples
/// each lasting `sample_delta` ticks.
#[derive(Debug, Clone, Copy, PartialEq, Eq, Structural)]
pub struct SttsEntry {
    pub sample_count: u32,
    pub sample_delta: u32,
}

/// A decoded time-to-sample run table.
#[derive(Debug, Clone, PartialEq, Eq, Default)]
pub struct SttsBox {
    pub version: u8,
    pub flags: u32,
    pub entries: Vec<SttsEntry>,
}

/// A decoded sync-sample table: the 1-based indices of the sync samples.
#[derive(Debug, Clone, PartialEq, Eq, Default)]
pub struct StssBox {
    pub version: u8,
    pub flags: u32,
    pub entries: Vec<u32>,
}

/// One run of the composition-offset table: `sample_count` consecutive samples
/// each rendered `sample_offset` ticks away from their decode time.
#[derive(Debug, Clone, Copy, PartialEq, Eq, Structural)]
pub struct CttsEntry {
    pub sample_count: u32,
    pub sample_offset: i32,
}

/// A decoded composition-offset run table.
#[derive(Debug, Clone, PartialEq, Eq, Default)]
pub struct CttsBox {
    pub version: u8,
    pub flags: u32,
    pub entries: Vec<CttsEntry>,
}

/// A track's sample table: the offset table in one of its two widths, the
/// required size, chunk-run and time-run tables, and the optional sync and
/// composition tables.
#[derive(Debug, Clone, PartialEq, Eq, Default)]
pub struct StblBox {
    pub stco: Option<StcoBox>,
    pub co64: Option<Co64Box>,
    pub stsz: StszBox,
    pub stsc: StscBox,
    pub stts: SttsBox,
    pub stss: Option<StssBox>,
    pub ctts: Option<CttsBox>,
}

/// What a 32-bit chunk-offset payload decodes to.
pub open spec fn parse_stco(data: Seq<u8>) -> Option<(u8, u32, Seq<u32>)> {
    if data.len() < 8 {
        None
    } else {
        let w = be32_val(data.subrange(0, 4));
        let n = be32_val(data.subrange(4, 8));
        if n as int > (data.len() - 8) / 4 {
            None
        } else {
            Some(
                (
                    ext_version(w),
                    ext_flags(w),
                    Seq::new(n as nat, |i: int| be32_val(data.subrange(8 + 4 * i, 12 + 4 * i))),
                ),
            )
        }
    }
}

/// What a sample-size payload decodes to: fixed size, declared count, and the
/// per-sample list used when the fixed size is zero.
pub open spec fn parse_stsz(data: Seq<u8>) -> Option<(u8, u32, u32, u32, Seq<u32>)> {
    if data.len() < 12 {
        None
    } else {
        let w = be32_val(data.subrange(0, 4));
        let ss = be32_val(data.subrange(4, 8));
        let n = be32_val(data.subrange(8, 12));
        if ss != 0 {
            Some((ext_version(w), ext_flags(w), ss, n, Seq::empty()))
        } else if n as int > (data.len() - 12) / 4 {
            None
        } else {
            Some(
                (
                    ext_version(w),
                    ext_flags(w),
                    ss,
                    n,
                    Seq::new(n as nat, |i: int| be32_val(data.subrange(12 + 4 * i, 16 + 4 * i))),
                ),
            )
        }
    }
}

/// What a sample-to-chunk payload decodes to.
pub open spec fn parse_stsc(data: Seq<u8>) -> Option<(u8, u32, Seq<StscEntry>)> {
    if data.len() < 8 {
        None
    } else {
        let w = be32_val(data.subrange(0, 4));
        let n = be32_val(data.subrange(4, 8));
        if n as int > (data.len() - 8) / 12 {
            None
        } else {
            Some(
                (
                    ext_version(w),
                    ext_flags(w),
                    Seq::new(
                        n as nat,
                        |i: int|
                            StscEntry {
                                first_chunk: be32_val(data.subrange(8 + 12 * i, 12 + 12 * i)),
                                samples_per_chunk: be32_val(
                                    data.subrange(12 + 12 * i, 16 + 12 * i),
                                ),
                                sample_description_index: be32_val(
                                    data.subrange(16 + 12 * i, 20 + 12 * i),
                                ),
                            },
                    ),
                ),
            )
        }
    }
}

/// What a time-to-sample payload decodes to.
pub open spec fn parse_stts(data: Seq<u8>) -> Option<(u8, u32, Seq<SttsEntry>)> {
    if data.len() < 8 {
        None
    } else {
        let w = be32_val(data.subrange(0, 4));
        let n = be32_val(data.subrange(4, 8));
        if n as int > (data.len() - 8) / 8 {
            None
        } else {
            Some(
                (
                    ext_version(w),
                    ext_flags(w),
                    Seq::new(
                        n as nat,
                        |i: int|
                            SttsEntry {
                                sample_count: be32_val(data.subrange(8 + 8 * i, 12 + 8 * i)),
                                sample_delta: be32_val(data.subrange(12 + 8 * i, 16 + 8 * i)),
                            },
                    ),
                ),
            )
        }
    }
}

/// What a sync-sample payload decodes to.
pub open spec fn parse_stss(data: Seq<u8>) -> Option<(u8, u32, Seq<u32>)> {
    if data.len() < 8 {
        None
    } else {
        let w = be32_val(data.subrange(0, 4));
        let n = be32_val(data.subrange(4, 8));
        if n as int > (data.len() - 8) / 4 {
            None
        } else {
            Some(
                (
                    ext_version(w),
                    ext_flags(w),
                    Seq::new(n as nat, |i: int| be32_val(data.subrange(8 + 4 * i, 12 + 4 * i))),
                ),
            )
        }
    }
}

/// What a composition-offset payload decodes to.
pub open spec fn parse_ctts(data: Seq<u8>) -> Option<(u8, u32, Seq<CttsEntry>)> {
    if data.len() < 8 {
        None
    } else {
        let w = be32_val(data.subrange(0, 4));
        let n = be32_val(data.subrange(4, 8));
        if n as int > (data.len() - 8) / 8 {
            None
        } else {
            Some(
                (
                    ext_version(w),
                    ext_flags(w),
                    Seq::new(
                        n as nat,
                        |i: int|
                            CttsEntry {
                                sample_count: be32_val(data.subrange(8 + 8 * i, 12 + 8 * i)),
                                sample_offset: i32_of_u32(
                                    be32_val(data.subrange(12 + 8 * i, 16 + 8 * i)),
                                ),
                            },
                    ),
                ),
            )
        }
    }
}

impl StcoBox {
    /// Decode a 32-bit chunk-offset table from a bounded payload slice.
    pub fn read_block(data: &[u8]) -> (r: Result<StcoBox, Error>)
        ensures
            (parse_stco(data@) matches Some(v) ==> r matches Ok(b) && b.version == v.0 && b.flags
                == v.1 && b.entries@ == v.2),
            data@.len() < 8 ==> r == Err::<StcoBox, Error>(Error::Truncated),
            data@.len() >= 8 && parse_stco(data@) is None ==> r == Err::<StcoBox, Error>(
                Error::InvalidData("stco entry_count indicates more entries than could fit in the box"),
            ),
    {
        if data.len() < 8 {
            return Err(Error::Truncated);
        }
        let (version, flags) = read_box_header_ext(data, 0);
        let entry_count = get_u32(data, 4);
        if entry_count as usize > (data.len() - 8) / 4 {
            return Err(
                Error::InvalidData("stco entry_count indicates more entries than could fit in the box"),
            );
        }
        let mut entries: Vec<u32> = Vec::new();
        let n = entry_count as usize;
        let len = data.len();
        proof {
            assert(4 * ((data@.len() - 8) / 4) <= data@.len() - 8) by (nonlinear_arith);
        }
        let mut i: usize = 0;
        while i < n
            invariant
                len == data@.len(),
                4 * n + 8 <= len,
                i <= n,
                entries@.len() == i,
                forall|j: int|
                    0 <= j < i ==> entries@[j] == be32_val(data@.subrange(8 + 4 * j, 12 + 4 * j)),
            decreases n - i,
        {
            entries.push(get_u32(data, 8 + 4 * i));
            i += 1;
        }
        proof {
            assert(entries@ =~= Seq::new(
                entry_count as nat,
                |i: int| be32_val(data@.subrange(8 + 4 * i, 12 + 4 * i)),
            ));
        }
        Ok(StcoBox { version, flags, entries })
    }
}

impl StszBox {
    /// Decode a sample-size table from a bounded payload slice.
    pub fn read_block(data: &[u8]) -> (r: Result<StszBox, Error>)
        ensures
            (parse_stsz(data@) matches Some(v) ==> r matches Ok(b) && b.version == v.0 && b.flags
                == v.1 && b.sample_size == v.2 && b.sample_count == v.3 && b.sample_sizes@ == v.4),
            data@.len() < 12 ==> r == Err::<StszBox, Error>(Error::Truncated),
            data@.len() >= 12 && parse_stsz(data@) is None ==> r == Err::<StszBox, Error>(
                Error::InvalidData("stsz sample_count indicates more entries than could fit in the box"),
            ),
    {
        if data.len() < 12 {
            return Err(Error::Truncated);
        }
        let (version, flags) = read_box_header_ext(data, 0);
        let sample_size = get_u32(data, 4);
        let sample_count = get_u32(data, 8);
        let mut sample_sizes: Vec<u32> = Vec::new();
        if sample_size == 0 {
            if sample_count as usize > (data.len() - 12) / 4 {
                return Err(
                    Error::InvalidData("stsz sample_count indicates more entries than could fit in the box"),
                );
            }
            let n = sample_count as usize;
            let len = data.len();
            proof {
                assert(4 * ((data@.len() - 12) / 4) <= data@.len() - 12) by (nonlinear_arith);
            }
            let mut i: usize = 0;
            while i < n
                invariant
                    len == data@.len(),
                    4 * n + 12 <= len,
                    i <= n,
                    sample_sizes@.len() == i,
                    forall|j: int|
                        0 <= j < i ==> sample_sizes@[j] == be32_val(
                            data@.subrange(12 + 4 * j, 16 + 4 * j),
                        ),
                decreases n - i,
            {
                sample_sizes.push(get_u32(data, 12 + 4 * i));
                i += 1;
            }
            proof {
                assert(sample_sizes@ =~= Seq::new(
                    sample_count as nat,
                    |i: int| be32_val(data@.subrange(12 + 4 * i, 16 + 4 * i)),
                ));
            }
        }
        Ok(StszBox { version, flags, sample_size, sample_count, sample_sizes })
    }
}

impl StscBox {
    /// Decode a sample-to-chunk table from a bounded payload slice.
    pub fn read_block(data: &[u8]) -> (r: Result<StscBox, Error>)
        ensures
            (parse_stsc(data@) matches Some(v) ==> r matches Ok(b) && b.version == v.0 && b.flags
                == v.1 && b.entries@ == v.2),
            data@.len() < 8 ==> r == Err::<StscBox, Error>(Error::Truncated),
            data@.len() >= 8 && parse_stsc(data@) is None ==> r == Err::<StscBox, Error>(
                Error::InvalidData("stsc entry_count indicates more entries than could fit in the box"),
            ),
    {
        if data.len() < 8 {
            return Err(Error::Truncated);
        }
        let (version, flags) = read_box_header_ext(data, 0);
        let entry_count = get_u32(data, 4);
        if entry_count as usize > (data.len() - 8) / 12 {
            return Err(
                Error::InvalidData("stsc entry_count indicates more entries than could fit in the box"),
            );
        }
        let mut entries: Vec<StscEntry> = Vec::new();
        let n = entry_count as usize;
        let len = data.len();
        proof {
            assert(12 * ((data@.len() - 8) / 12) <= data@.len() - 8) by (nonlinear_arith);
        }
        let mut i: usize = 0;
        while i < n
            invariant
                len == data@.len(),
                12 * n + 8 <= len,
                i <= n,
                entries@.len() == i,
                forall|j: int|
                    0 <= j < i ==> entries@[j] == (StscEntry {
                        first_chunk: be32_val(data@.subrange(8 + 12 * j, 12 + 12 * j)),
                        samples_per_chunk: be32_val(data@.subrange(12 + 12 * j, 16 + 12 * j)),
                        sample_description_index: be32_val(
                            data@.subrange(16 + 12 * j, 20 + 12 * j),
                        ),
                    }),
            decreases n - i,
        {
            let first_chunk = get_u32(data, 8 + 12 * i);
            let samples_per_chunk = get_u32(data, 12 + 12 * i);
            let sample_description_index = get_u32(data, 16 + 12 * i);
            entries.push(StscEntry { first_chunk, samples_per_chunk, sample_description_index });
            i += 1;
        }
        proof {
            assert(entries@ =~= Seq::new(
                entry_count as nat,
                |i: int|
                    StscEntry {
                        first_chunk: be32_val(data@.subrange(8 + 12 * i, 12 + 12 * i)),
                        samples_per_chunk: be32_val(data@.subrange(12 + 12 * i, 16 + 12 * i)),
                        sample_description_index: be32_val(
                            data@.subrange(16 + 12 * i, 20 + 12 * i),
                        ),
                    },
            ));
        }
        Ok(StscBox { version, flags, entries })
    }
}

impl SttsBox {
    /// Decode a time-to-sample table from a bounded payload slice.
    pub fn read_block(data: &[u8]) -> (r: Result<SttsBox, Error>)
        ensures
            (parse_stts(data@) matches Some(v) ==> r matches Ok(b) && b.version == v.0 && b.flags
                == v.1 && b.entries@ == v.2),
            data@.len() < 8 ==> r == Err::<SttsBox, Error>(Error::Truncated),
            data@.len() >= 8 && parse_stts(data@) is None ==> r == Err::<SttsBox, Error>(
                Error::InvalidData("stts entry_count indicates more entries than could fit in the box"),
            ),
    {
        if data.len() < 8 {
            return Err(Error::Truncated);
        }
        let (version, flags) = read_box_header_ext(data, 0);
        let entry_count = get_u32(data, 4);
        if entry_count as usize > (data.len() - 8) / 8 {
            return Err(
                Error::InvalidData("stts entry_count indicates more entries than could fit in the box"),
            );
        }
        let mut entries: Vec<SttsEntry> = Vec::new();
        let n = entry_count as usize;
        let len = data.len();
        proof {
            assert(8 * ((data@.len() - 8) / 8) <= data@.len() - 8) by (nonlinear_arith);
        }
        let mut i: usize = 0;
        while i < n
            invariant
                len == data@.len(),
                8 * n + 8 <= len,
                i <= n,
                entries@.len() == i,
                forall|j: int|
                    0 <= j < i ==> entries@[j] == (SttsEntry {
                        sample_count: be32_val(data@.subrange(8 + 8 * j, 12 + 8 * j)),
                        sample_delta: be32_val(data@.subrange(12 + 8 * j, 16 + 8 * j)),
                    }),
            decreases n - i,
        {
            let sample_count = get_u32(data, 8 + 8 * i);
            let sample_delta = get_u32(data, 12 + 8 * i);
            entries.push(SttsEntry { sample_count, sample_delta });
            i += 1;
        }
        proof {
            assert(entries@ =~= Seq::new(
                entry_count as nat,
                |i: int|
                    SttsEntry {
                        sample_count: be32_val(data@.subrange(8 + 8 * i, 12 + 8 * i)),
                        sample_delta: be32_val(data@.subrange(12 + 8 * i, 16 + 8 * i)),
                    },
            ));
        }
        Ok(SttsBox { version, flags, entries })
    }
}

impl StssBox {
    /// Decode a sync-sample table from a bounded payload slice.
    pub fn read_block(data: &[u8]) -> (r: Result<StssBox, Error>)
        ensures
            (parse_stss(data@) matches Some(v) ==> r matches Ok(b) && b.version == v.0 && b.flags
                == v.1 && b.entries@ == v.2),
            data@.len() < 8 ==> r == Err::<StssBox, Error>(Error::Truncated),
            data@.len() >= 8 && parse_stss(data@) is None ==> r == Err::<StssBox, Error>(
                Error::InvalidData("stss entry_count indicates more entries than could fit in the box"),
            ),
    {
        if data.len() < 8 {
            return Err(Error::Truncated);
        }
        let (version, flags) = read_box_header_ext(data, 0);
        let entry_count = get_u32(data, 4);
        if entry_count as usize > (data.len() - 8) / 4 {
            return Err(
                Error::InvalidData("stss entry_count indicates more entries than could fit in the box"),
            );
        }
        let mut entries: Vec<u32> = Vec::new();
        let n = entry_count as usize;
        let len = data.len();
        proof {
            assert(4 * ((data@.len() - 8) / 4) <= data@.len() - 8) by (nonlinear_arith);
        }
        let mut i: usize = 0;
        while i < n
            invariant
                len == data@.len(),
                4 * n + 8 <= len,
                i <= n,
                entries@.len() == i,
                forall|j: int|
                    0 <= j < i ==> entries@[j] == be32_val(data@.subrange(8 + 4 * j, 12 + 4 * j)),
            decreases n - i,
        {
            entries.push(get_u32(data, 8 + 4 * i));
            i += 1;
        }
        proof {
            assert(entries@ =~= Seq::new(
                entry_count as nat,
                |i: int| be32_val(data@.subrange(8 + 4 * i, 12 + 4 * i)),
            ));
        }
        Ok(StssBox { version, flags, entries })
    }
}

impl CttsBox {
    /// Decode a composition-offset table from a bounded payload slice.
    pub fn read_block(data: &[u8]) -> (r: Result<CttsBox, Error>)
        ensures
            (parse_ctts(data@) matches Some(v) ==> r matches Ok(b) && b.version == v.0 && b.flags
                == v.1 && b.entries@ == v.2),
            data@.len() < 8 ==> r == Err::<CttsBox, Error>(Error::Truncated),
            data@.len() >= 8 && parse_ctts(data@) is None ==> r == Err::<CttsBox, Error>(
                Error::InvalidData("ctts entry_count indicates more entries than could fit in the box"),
            ),
    {
        if data.len() < 8 {
            return Err(Error::Truncated);
        }
        let (version, flags) = read_box_header_ext(data, 0);
        let entry_count = get_u32(data, 4);
        if entry_count as usize > (data.len() - 8) / 8 {
            return Err(
                Error::InvalidData("ctts entry_count indicates more entries than could fit in the box"),
            );
        }
        let mut entries: Vec<CttsEntry> = Vec::new();
        let n = entry_count as usize;
        let len = data.len();
        proof {
            assert(8 * ((data@.len() - 8) / 8) <= data@.len() - 8) by (nonlinear_arith);
        }
        let mut i: usize = 0;
        while i < n
            invariant
                len == data@.len(),
                8 * n + 8 <= len,
                i <= n,
                entries@.len() == i,
                forall|j: int|
                    0 <= j < i ==> entries@[j] == (CttsEntry {
                        sample_count: be32_val(data@.subrange(8 + 8 * j, 12 + 8 * j)),
                        sample_offset: i32_of_u32(be32_val(data@.subrange(12 + 8 * j, 16 + 8 * j))),
                    }),
            decreases n - i,
        {
            let sample_count = get_u32(data, 8 + 8 * i);
            let sample_offset = get_i32(data, 12 + 8 * i);
            entries.push(CttsEntry { sample_count, sample_offset });
            i += 1;
        }
        proof {
            assert(entries@ =~= Seq::new(
                entry_count as nat,
                |i: int|
                    CttsEntry {
                        sample_count: be32_val(data@.subrange(8 + 8 * i, 12 + 8 * i)),
                        sample_offset: i32_of_u32(be32_val(data@.subrange(12 + 8 * i, 16 + 8 * i))),
                    },
            ));
        }
        Ok(CttsBox { version, flags, entries })
    }
}

} // verus!
