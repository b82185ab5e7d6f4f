//! Parsing and serialization of ISO-BMFF (MP4) container metadata.
//!
//! The crate decodes the typed, length-prefixed records ("boxes") that make
//! up an MP4 file, resolves a track's compact sample tables into addressable
//! per-sample records, and folds streamed movie fragments into tracks that an
//! earlier movie header declared.
use vstd::prelude::*;

pub mod assemble;
pub mod boxtype;
pub mod header;
pub mod co64;
pub mod codec;
pub mod file;
pub mod fixed;
pub mod fragment;
pub mod fullbox;
pub mod stbl;
pub mod tkhd;
pub mod track;

use crate::boxtype::BoxType;

verus! {

/// Errors that parsing, serialization and sample resolution report.
#[derive(Debug, Clone, PartialEq, Eq)]
pub enum Error {
    /// A box's own fields are self-contradictory or unsupported.
    InvalidData(&'static str),
    /// The byte source ended before a declared length was satisfied.
    Truncated,
    /// A movie fragment referenced a track id that no movie header declared.
    TrakNotFound(u32),
    /// A sample index fell outside every run a sample table declares.
    EntryInStblNotFound(u32, BoxType, u32),
}

} // verus!
