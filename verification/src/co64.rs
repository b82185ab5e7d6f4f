//! The 64-bit chunk-offset table box: a declared entry count followed by that
//! many 8-byte chunk offsets.
use vstd::prelude::*;

use crate::boxtype::BoxType;
use crate::codec::{
    be32, be32_val, be64, be64_val, get_u64, lemma_be32_round_trip, lemma_be64_round_trip, put_u32,
    put_u64,
};
use crate::fullbox::{
    ext_flags, ext_version, ext_word, lemma_ext_word_round_trip, read_box_header_ext,
    write_box_header_ext,
};
use crate::header::{header_bytes, BoxHeader};
use crate::Error;

verus! {

broadcast use vstd::seq::group_seq_axioms;

/// A decoded 64-bit chunk-offset table.
#[derive(Debug, Clone, PartialEq, Eq, Default)]
pub struct Co64Box {
    pub version: u8,
    pub flags: u32,
    pub entries: Vec<u64>,
}

/// The wire bytes of the table's entries, in order.
pub open spec fn co64_entries_bytes(es: Seq<u64>) -> Seq<u8>
    decreases es.len(),
{
    if es.len() == 0 {
        Seq::empty()
    } else {
        co64_entries_bytes(es.drop_last()) + be64(es.last())
    }
}

/// The whole payload of a chunk-offset box: the full-box word, the entry
/// count, then the entries.
pub open spec fn co64_payload(version: u8, flags: u32, es: Seq<u64>) -> Seq<u8> {
    be32(ext_word(version, flags)) + be32(es.len() as u32) + co64_entries_bytes(es)
}

/// What a bounded payload decodes to: version, flags and the entry sequence,
/// or nothing where the payload is too short or the declared entry count could
/// not fit in it.
pub open spec fn parse_co64(data: Seq<u8>) -> Option<(u8, u32, Seq<u64>)> {
    if data.len() < 8 {
        None
    } else {
        let w = be32_val(data.subrange(0, 4));
        let n = be32_val(data.subrange(4, 8));
        if n as int > (data.len() - 8) / 8 {
            None
        } else {
            Some(
                (
                    ext_version(w),
                    ext_flags(w),
                    Seq::new(n as nat, |i: int| be64_val(data.subrange(8 + 8 * i, 16 + 8 * i))),
                ),
            )
        }
    }
}

/// The entry bytes take 8 bytes per entry.
pub proof fn lemma_co64_entries_bytes_len(es: Seq<u64>)
    ensures
        co64_entries_bytes(es).len() == 8 * es.len(),
    decreases es.len(),
{
    if es.len() > 0 {
        lemma_co64_entries_bytes_len(es.drop_last());
    }
}

/// Each entry's 8 bytes sit at its index in the entry bytes.
pub proof fn lemma_co64_entries_bytes_index(es: Seq<u64>, i: int)
    requires
        0 <= i < es.len(),
    ensures
        co64_entries_bytes(es).subrange(8 * i, 8 * i + 8) == be64(es[i]),
    decreases es.len(),
{
    lemma_co64_entries_bytes_len(es.drop_last());
    if i == es.len() - 1 {
        assert(co64_entries_bytes(es).subrange(8 * i, 8 * i + 8) =~= be64(es.last()));
    } else {
        lemma_co64_entries_bytes_index(es.drop_last(), i);
        assert(co64_entries_bytes(es).subrange(8 * i, 8 * i + 8) =~= co64_entries_bytes(
            es.drop_last(),
        ).subrange(8 * i, 8 * i + 8));
    }
}

impl Co64Box {
    /// This box's type tag.
    pub fn get_type(&self) -> (r: BoxType)
        ensures
            r == BoxType::Co64Box,
    {
        BoxType::Co64Box
    }

    /// The declared total size of this box on the wire: the 8-byte header, the
    /// 4-byte full-box word, the 4-byte count, and 8 bytes per entry.
    pub fn get_size(&self) -> (r: u64)
        requires
            16 + 8 * self.entries@.len() <= u64::MAX,
        ensures
            r == 16 + 8 * self.entries@.len(),
    {
        8 + 4 + 4 + (8 * (self.entries.len() as u64))
    }

    /// Decode a chunk-offset table from a bounded payload slice, rejecting a
    /// declared entry count that could not fit in the payload.
    pub fn read_block(data: &[u8]) -> (r: Result<Co64Box, Error>)
        ensures
            (parse_co64(data@) matches Some(v) ==> r matches Ok(b) && b.version == v.0 && b.flags
                == v.1 && b.entries@ == v.2),
            data@.len() < 8 ==> r == Err::<Co64Box, Error>(Error::Truncated),
            data@.len() >= 8 && parse_co64(data@) is None ==> r == Err::<Co64Box, Error>(
                Error::InvalidData("co64 entry_count indicates more entries than could fit in the box"),
            ),
    {
        if data.len() < 8 {
            return Err(Error::Truncated);
        }
        let (version, flags) = read_box_header_ext(data, 0);
        let entry_count = crate::codec::get_u32(data, 4);
        if entry_count as usize > (data.len() - 8) / 8 {
            return Err(
                Error::InvalidData("co64 entry_count indicates more entries than could fit in the box"),
            );
        }
        let mut entries: Vec<u64> = Vec::new();
        let n = entry_count as usize;
        let len = data.len();
        proof {
            assert(8 * ((data@.len() - 8) / 8) <= data@.len() - 8) by (nonlinear_arith);
        }
        let mut i: usize = 0;
        while i < n
            invariant
                len == data@.len(),
                8 * n + 8 <= len,
                i <= n,
                entries@.len() == i,
                forall|j: int|
                    0 <= j < i ==> entries@[j] == be64_val(data@.subrange(8 + 8 * j, 16 + 8 * j)),
            decreases n - i,
        {
            entries.push(get_u64(data, 8 + 8 * i));
            i += 1;
        }
        proof {
            assert(entries@ =~= Seq::new(
                entry_count as nat,
                |i: int| be64_val(data@.subrange(8 + 8 * i, 16 + 8 * i)),
            ));
        }
        Ok(Co64Box { version, flags, entries })
    }

    /// Encode this table, box header included, returning the total bytes
    /// written.
    pub fn write_box(&self, out: &mut Vec<u8>) -> (r: Result<u64, Error>)
        requires
            self.entries@.len() <= u32::MAX,
        ensures
            r == Ok::<u64, Error>((16 + 8 * self.entries@.len()) as u64),
            final(out)@ == old(out)@ + header_bytes(
                BoxType::Co64Box,
                (16 + 8 * self.entries@.len()) as u64,
            ) + co64_payload(self.version, self.flags, self.entries@),
            16 + 8 * self.entries@.len() <= u32::MAX ==> final(out)@.len() == old(out)@.len() + 16
                + 8 * self.entries@.len(),
    {
        let size = self.get_size();
        let header = BoxHeader::new(BoxType::Co64Box, size);
        header.write(out);
        write_box_header_ext(out, self.version, self.flags);
        put_u32(out, self.entries.len() as u32);
        let ghost mid = out@;
        let mut i: usize = 0;
        let n = self.entries.len();
        while i < n
            invariant
                n == self.entries@.len(),
                i <= n,
                out@ == mid + co64_entries_bytes(self.entries@.take(i as int)),
            decreases n - i,
        {
            put_u64(out, self.entries[i]);
            proof {
                let es = self.entries@;
                assert(es.take(i + 1).drop_last() =~= es.take(i as int));
                assert(es.take(i + 1).last() == es[i as int]);
                assert(out@ =~= mid + co64_entries_bytes(es.take(i + 1)));
            }
            i += 1;
        }
        proof {
            assert(self.entries@.take(n as int) =~= self.entries@);
            lemma_co64_entries_bytes_len(self.entries@);
            assert(out@ =~= old(out)@ + header_bytes(
                BoxType::Co64Box,
                (16 + 8 * self.entries@.len()) as u64,
            ) + co64_payload(self.version, self.flags, self.entries@));
        }
        Ok(size)
    }
}

/// Round-trip law: decoding the encoded payload of a well-formed chunk-offset
/// table gives version, flags and entries back. Well-formed means flags that
/// fit their 3-byte field and an entry count that fits its 4-byte field.
pub proof fn lemma_co64_round_trip(version: u8, flags: u32, es: Seq<u64>)
    requires
        flags < 0x1000000,
        es.len() <= u32::MAX,
    ensures
        parse_co64(co64_payload(version, flags, es)) == Some((version, flags, es)),
        co64_payload(version, flags, es).len() + 8 == 16 + 8 * es.len(),
{
    lemma_be32_round_trip();
    lemma_be64_round_trip();
    lemma_ext_word_round_trip(version, flags);
    lemma_co64_entries_bytes_len(es);
    let p = co64_payload(version, flags, es);
    let eb = co64_entries_bytes(es);
    assert(p.subrange(0, 4) =~= be32(ext_word(version, flags)));
    assert(p.subrange(4, 8) =~= be32(es.len() as u32));
    let n = be32_val(p.subrange(4, 8));
    assert(n == es.len());
    assert forall|i: int| 0 <= i < es.len() implies be64_val(
        p.subrange(8 + 8 * i, 16 + 8 * i),
    ) == es[i] by {
        lemma_co64_entries_bytes_index(es, i);
        assert(p.subrange(8 + 8 * i, 16 + 8 * i) =~= eb.subrange(8 * i, 8 * i + 8));
    }
    assert(Seq::new(n as nat, |i: int| be64_val(p.subrange(8 + 8 * i, 16 + 8 * i))) =~= es);
}

} // verus!
