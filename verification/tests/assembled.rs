use mp4kit::boxtype::BoxType;
use mp4kit::file::Mp4File;
use mp4kit::fixed::{FixedPointU16, FixedPointU8};
use mp4kit::stbl::StblBox;
use mp4kit::tkhd::{Matrix, TkhdBox, TrackFlag};
use mp4kit::track::TrakBox;
use mp4kit::Error;

fn push_u32(out: &mut Vec<u8>, v: u32) {
    out.extend_from_slice(&v.to_be_bytes());
}

/// A child box: 4-byte size, 4-byte tag, then the payload.
fn boxed(tag: &[u8; 4], payload: &[u8]) -> Vec<u8> {
    let mut out = Vec::new();
    push_u32(&mut out, (payload.len() + 8) as u32);
    out.extend_from_slice(tag);
    out.extend_from_slice(payload);
    out
}

fn full_box_payload(entries: &[u32]) -> Vec<u8> {
    let mut p = Vec::new();
    push_u32(&mut p, 0); // version and flags
    for e in entries {
        push_u32(&mut p, *e);
    }
    p
}

fn example_tkhd(track_id: u32) -> TkhdBox {
    TkhdBox {
        version: 0,
        flags: TrackFlag::TrackEnabled.value(),
        creation_time: 1,
        modification_time: 2,
        track_id,
        duration: 5000,
        layer: 0,
        alternate_group: 0,
        volume: FixedPointU8::new(1),
        matrix: Matrix::default(),
        width: FixedPointU16::new(640),
        height: FixedPointU16::new(360),
    }
}

/// The tables of `offset_example` in tests/tracks.rs, as wire bytes: two
/// chunks at 1000 and 5000, runs of 3 then 2 samples, fixed size 100, five
/// samples of 1000 ticks.
fn example_stbl_bytes() -> Vec<u8> {
    let stts = boxed(b"stts", &full_box_payload(&[1, 5, 1000]));
    let stsc = boxed(b"stsc", &full_box_payload(&[2, 1, 3, 1, 2, 2, 1]));
    let stsz = boxed(b"stsz", &full_box_payload(&[100, 5]));
    let stco = boxed(b"stco", &full_box_payload(&[2, 1000, 5000]));
    let mut stbl_payload = Vec::new();
    stbl_payload.extend_from_slice(&stts);
    stbl_payload.extend_from_slice(&stsc);
    stbl_payload.extend_from_slice(&stsz);
    stbl_payload.extend_from_slice(&stco);
    stbl_payload
}

fn example_moov_bytes(track_id: u32) -> Vec<u8> {
    let stbl = boxed(b"stbl", &example_stbl_bytes());
    let minf = boxed(b"minf", &stbl);
    let mdia = boxed(b"mdia", &minf);
    let mut tkhd_bytes = Vec::new();
    example_tkhd(track_id).write_box(&mut tkhd_bytes).unwrap();
    let mut trak_payload = tkhd_bytes;
    trak_payload.extend_from_slice(&mdia);
    let trak = boxed(b"trak", &trak_payload);
    boxed(b"moov", &trak)
}

#[test]
fn stbl_assembles_from_child_boxes() {
    let stbl = StblBox::read_block(&example_stbl_bytes()).unwrap();
    assert_eq!(stbl.stco.as_ref().unwrap().entries, vec![1000, 5000]);
    assert_eq!(stbl.stsz.sample_size, 100);
    assert_eq!(stbl.stsz.sample_count, 5);
    assert_eq!(stbl.stsc.entries.len(), 2);
    assert_eq!(stbl.stts.entries.len(), 1);
    assert!(stbl.stss.is_none() && stbl.ctts.is_none() && stbl.co64.is_none());
}

#[test]
fn stbl_without_required_tables_is_rejected() {
    let only_stco = boxed(b"stco", &full_box_payload(&[1, 1000]));
    assert!(matches!(
        StblBox::read_block(&only_stco),
        Err(Error::InvalidData(_))
    ));
}

#[test]
fn trak_assembles_header_and_media_chain() {
    let stbl = boxed(b"stbl", &example_stbl_bytes());
    let minf = boxed(b"minf", &stbl);
    let mdia = boxed(b"mdia", &minf);
    let mut trak_payload = Vec::new();
    example_tkhd(3).write_box(&mut trak_payload).unwrap();
    trak_payload.extend_from_slice(&mdia);
    let trak = TrakBox::read_block(&trak_payload).unwrap();
    assert_eq!(trak.tkhd, example_tkhd(3));
    assert_eq!(trak.sample_offset(4).unwrap(), 5000);
}

#[test]
fn read_header_assembles_a_whole_file() {
    let mut data = Vec::new();
    // a file-type payload has no full-box word: brand fields only
    let mut ftyp_payload = Vec::new();
    push_u32(&mut ftyp_payload, 0x69736F6D);
    push_u32(&mut ftyp_payload, 512);
    push_u32(&mut ftyp_payload, 0x69736F6D);
    let ftyp = boxed(b"ftyp", &ftyp_payload[..]);
    data.extend_from_slice(&ftyp);
    data.extend_from_slice(&example_moov_bytes(1));
    // an unknown box that must be skipped structurally
    data.extend_from_slice(&boxed(b"free", &[0xAB; 11]));
    let mdat_payload_offset = (data.len() + 8) as u64;
    data.extend_from_slice(&boxed(b"mdat", &[0u8; 32]));

    let mut file = Mp4File::new();
    let got_moov = file.read_header_from(&data).unwrap();
    assert!(got_moov);
    assert_eq!(file.mdat_offset, mdat_payload_offset);
    assert_eq!(file.mdat_size, 40);
    let ftyp = file.ftyp.as_ref().unwrap();
    assert_eq!(ftyp.major_brand, 0x69736F6D);
    assert_eq!(ftyp.minor_version, 512);
    assert_eq!(ftyp.compatible_brands, vec![0x69736F6D]);
    let track = file.get_track(1).unwrap();
    assert_eq!(track.samples.len(), 5);
    assert_eq!(track.samples[3].offset, 5000);
    assert_eq!(track.samples[4].start_time, 4000);
}

#[test]
fn fragmented_file_appends_to_the_declared_track() {
    let mut data = Vec::new();
    data.extend_from_slice(&example_moov_bytes(1));

    // tfhd: flags 0x18 = default duration and size present
    let mut tfhd_payload = Vec::new();
    push_u32(&mut tfhd_payload, 0x18);
    push_u32(&mut tfhd_payload, 1); // track id
    push_u32(&mut tfhd_payload, 500); // default duration
    push_u32(&mut tfhd_payload, 200); // default size
    let tfhd = boxed(b"tfhd", &tfhd_payload);

    // trun: flags 0x1 = data offset present, two samples of the defaults
    let mut trun_payload = Vec::new();
    push_u32(&mut trun_payload, 0x1);
    push_u32(&mut trun_payload, 2); // sample count
    push_u32(&mut trun_payload, 64); // data offset
    let trun = boxed(b"trun", &trun_payload);

    let mut traf_payload = tfhd;
    traf_payload.extend_from_slice(&trun);
    let traf = boxed(b"traf", &traf_payload);
    let moof = boxed(b"moof", &traf);
    let moof_payload_offset = (data.len() + 8) as u64;
    data.extend_from_slice(&moof);

    let mut file = Mp4File::new();
    assert!(file.read_header_from(&data).unwrap());
    let track = file.get_track(1).unwrap();
    assert_eq!(track.samples.len(), 7);
    // the run sits at the fragment's payload offset plus its data offset
    assert_eq!(track.samples[5].offset, moof_payload_offset + 64);
    assert_eq!(track.samples[5].size, 200);
    assert_eq!(track.samples[5].duration, 500);
    assert_eq!(track.samples[5].start_time, 5000);
    assert_eq!(track.samples[6].offset, moof_payload_offset + 64 + 200);
    assert_eq!(track.samples[6].start_time, 5500);
}

#[test]
fn fragment_naming_an_unknown_track_fails_the_read() {
    let mut data = Vec::new();
    data.extend_from_slice(&example_moov_bytes(1));
    let mut tfhd_payload = Vec::new();
    push_u32(&mut tfhd_payload, 0x18);
    push_u32(&mut tfhd_payload, 2); // no such track
    push_u32(&mut tfhd_payload, 500);
    push_u32(&mut tfhd_payload, 200);
    let traf = boxed(b"traf", &boxed(b"tfhd", &tfhd_payload));
    data.extend_from_slice(&boxed(b"moof", &traf));

    let mut file = Mp4File::new();
    assert_eq!(file.read_header_from(&data), Err(Error::TrakNotFound(2)));
    assert_eq!(file.get_track(1).unwrap().samples.len(), 5);
}

#[test]
fn unknown_top_level_boxes_are_skipped_not_errors() {
    let mut data = Vec::new();
    data.extend_from_slice(&boxed(b"skip", &[1, 2, 3]));
    data.extend_from_slice(&boxed(b"wide", &[]));
    let mut file = Mp4File::new();
    assert_eq!(file.read_header_from(&data), Ok(false));
    assert_eq!(file.mdat_offset, 0);
    let _ = BoxType::UnknownBox(0);
}

#[test]
fn read_header_stops_at_an_extended_size_mdat_header() {
    // size field 1, tag mdat, 8-byte extended size 32: the media-data payload
    // is not in the buffer and must not be needed
    let data = [
        0u8, 0, 0, 1, 0x6D, 0x64, 0x61, 0x74, 0, 0, 0, 0, 0, 0, 0, 32,
    ];
    let mut file = Mp4File::new();
    assert_eq!(file.read_header_from(&data), Ok(false));
    assert_eq!(file.mdat_offset, 16);
    assert_eq!(file.mdat_size, 32);
}

#[test]
fn read_header_stops_at_a_compact_mdat_header() {
    let data = [0u8, 0, 0, 24, 0x6D, 0x64, 0x61, 0x74];
    let mut file = Mp4File::new();
    assert_eq!(file.read_header_from(&data), Ok(false));
    assert_eq!(file.mdat_offset, 8);
    assert_eq!(file.mdat_size, 24);
}

#[test]
fn read_header_reads_nothing_after_the_first_mdat() {
    // malformed bytes after the media-data header must never be reached
    let mut data = Vec::new();
    data.extend_from_slice(&boxed(b"mdat", &[0u8; 4]));
    data.extend_from_slice(&[0xFF, 0xEE]);
    let mut file = Mp4File::new();
    assert_eq!(file.read_header_from(&data), Ok(false));
    assert_eq!(file.mdat_offset, 8);
    assert_eq!(file.mdat_size, 12);
}
