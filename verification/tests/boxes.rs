use mp4kit::boxtype::BoxType;
use mp4kit::co64::Co64Box;
use mp4kit::fixed::{FixedPointU16, FixedPointU8};
use mp4kit::header::BoxHeader;
use mp4kit::stbl::{StcoBox, SttsBox};
use mp4kit::tkhd::{Matrix, TkhdBox, TrackFlag};
use mp4kit::Error;

#[test]
fn test_co64() {
    let src_box = Co64Box {
        version: 0,
        flags: 0,
        entries: vec![267, 1970, 2535, 2803, 11843, 22223, 33584],
    };
    let mut buf = Vec::new();
    src_box.write_box(&mut buf).unwrap();
    assert_eq!(buf.len(), src_box.get_size() as usize);

    let (header, pos) = BoxHeader::read_at(&buf, 0).unwrap().unwrap();
    assert_eq!(header.kind, BoxType::Co64Box);
    assert_eq!(src_box.get_size(), header.size);

    let dst_box = Co64Box::read_block(&buf[pos..]).unwrap();
    assert_eq!(src_box, dst_box);
}

#[test]
fn test_tkhd32() {
    let src_box = TkhdBox {
        version: 0,
        flags: TrackFlag::TrackEnabled.value(),
        creation_time: 100,
        modification_time: 200,
        track_id: 1,
        duration: 634634,
        layer: 0,
        alternate_group: 0,
        volume: FixedPointU8::new(1),
        matrix: Matrix::default(),
        width: FixedPointU16::new(512),
        height: FixedPointU16::new(288),
    };
    let mut buf = Vec::new();
    src_box.write_box(&mut buf).unwrap();
    assert_eq!(buf.len(), src_box.get_size() as usize);

    let (header, pos) = BoxHeader::read_at(&buf, 0).unwrap().unwrap();
    assert_eq!(header.kind, BoxType::TkhdBox);
    assert_eq!(src_box.get_size(), header.size);

    let dst_box = TkhdBox::read_block(&buf[pos..]).unwrap();
    assert_eq!(src_box, dst_box);
}

#[test]
fn test_tkhd64() {
    let src_box = TkhdBox {
        version: 1,
        flags: TrackFlag::TrackEnabled.value(),
        creation_time: 100,
        modification_time: 200,
        track_id: 1,
        duration: 634634,
        layer: 0,
        alternate_group: 0,
        volume: FixedPointU8::new(1),
        matrix: Matrix::default(),
        width: FixedPointU16::new(512),
        height: FixedPointU16::new(288),
    };
    let mut buf = Vec::new();
    src_box.write_box(&mut buf).unwrap();
    assert_eq!(buf.len(), src_box.get_size() as usize);

    let (header, pos) = BoxHeader::read_at(&buf, 0).unwrap().unwrap();
    assert_eq!(header.kind, BoxType::TkhdBox);
    assert_eq!(src_box.get_size(), header.size);

    let dst_box = TkhdBox::read_block(&buf[pos..]).unwrap();
    assert_eq!(src_box, dst_box);
}

#[test]
fn tkhd_round_trips_large_version1_times() {
    let src_box = TkhdBox {
        version: 1,
        flags: 7,
        creation_time: 0x1_0000_0001,
        modification_time: u64::MAX,
        track_id: 42,
        duration: 0xFFFF_FFFF_FF,
        layer: 3,
        alternate_group: 9,
        volume: FixedPointU8::new_raw(0x0180),
        matrix: Matrix {
            a: -1,
            b: 2,
            u: -3,
            c: 4,
            d: -5,
            v: 6,
            x: i32::MIN,
            y: i32::MAX,
            w: 0,
        },
        width: FixedPointU16::new_raw(0x1234_5678),
        height: FixedPointU16::new_raw(0x8765_4321),
    };
    let mut buf = Vec::new();
    src_box.write_box(&mut buf).unwrap();
    assert_eq!(buf.len(), 104);
    let (_, pos) = BoxHeader::read_at(&buf, 0).unwrap().unwrap();
    assert_eq!(TkhdBox::read_block(&buf[pos..]).unwrap(), src_box);
}

#[test]
fn tkhd_rejects_unsupported_version() {
    let mut payload = vec![2u8, 0, 0, 0];
    payload.extend_from_slice(&[0u8; 100]);
    assert_eq!(
        TkhdBox::read_block(&payload),
        Err(Error::InvalidData("version must be 0 or 1"))
    );
}

#[test]
fn tkhd_truncated_payload() {
    assert_eq!(TkhdBox::read_block(&[0u8, 0]), Err(Error::Truncated));
    // a version-0 header needs 84 payload bytes; 40 is too short
    assert_eq!(TkhdBox::read_block(&[0u8; 40]), Err(Error::Truncated));
}

#[test]
fn header_extended_form_reads_64_bit_size() {
    let v: u64 = 0x2_0000_0055;
    let mut buf = Vec::new();
    BoxHeader::new(BoxType::MdatBox, v).write(&mut buf);
    assert_eq!(buf.len(), 16);
    assert_eq!(&buf[0..4], &[0, 0, 0, 1]);
    let (header, pos) = BoxHeader::read_at(&buf, 0).unwrap().unwrap();
    assert_eq!(header.kind, BoxType::MdatBox);
    assert_eq!(header.size, v);
    assert_eq!(header.header_len, 16);
    assert_eq!(pos, 16);
}

#[test]
fn header_compact_form_reads_32_bit_size() {
    let mut buf = Vec::new();
    BoxHeader::new(BoxType::MoovBox, 300).write(&mut buf);
    assert_eq!(buf.len(), 8);
    let (header, pos) = BoxHeader::read_at(&buf, 0).unwrap().unwrap();
    assert_eq!(header.kind, BoxType::MoovBox);
    assert_eq!(header.size, 300);
    assert_eq!(header.header_len, 8);
    assert_eq!(pos, 8);
}

#[test]
fn header_size_zero_means_to_end_of_stream() {
    // "free" is not a known tag: the kind comes back as the raw code
    let buf = [0u8, 0, 0, 0, 0x66, 0x72, 0x65, 0x65];
    let (header, _) = BoxHeader::read_at(&buf, 0).unwrap().unwrap();
    assert_eq!(header.kind, BoxType::UnknownBox(0x66726565));
    assert_eq!(header.size, 0);
    assert_eq!(header.header_len, 8);
}

#[test]
fn header_at_end_of_stream_is_none() {
    let buf = [0u8; 8];
    assert_eq!(BoxHeader::read_at(&buf, 8).unwrap(), None);
}

#[test]
fn header_truncated_is_an_error() {
    let buf = [0u8, 0, 0, 9, 0x66];
    assert_eq!(BoxHeader::read_at(&buf, 0), Err(Error::Truncated));
    // an extended header cut off after 8 bytes
    let buf2 = [0u8, 0, 0, 1, 0x6D, 0x64, 0x61, 0x74];
    assert_eq!(BoxHeader::read_at(&buf2, 0), Err(Error::Truncated));
}

#[test]
fn co64_entry_count_guard_rejects_oversized_count() {
    // full-box word, then a count of 100 entries with no entry bytes at all
    let payload = [0u8, 0, 0, 0, 0, 0, 0, 100];
    assert_eq!(
        Co64Box::read_block(&payload),
        Err(Error::InvalidData(
            "co64 entry_count indicates more entries than could fit in the box"
        ))
    );
}

#[test]
fn stco_entry_count_guard_rejects_oversized_count() {
    let payload = [0u8, 0, 0, 0, 0, 0, 0, 3, 0, 0, 0, 1];
    assert_eq!(
        StcoBox::read_block(&payload),
        Err(Error::InvalidData(
            "stco entry_count indicates more entries than could fit in the box"
        ))
    );
}

#[test]
fn stts_entry_count_guard_rejects_oversized_count() {
    let payload = [0u8, 0, 0, 0, 0, 0, 0, 2, 0, 0, 0, 5, 0, 0, 3, 0xE8];
    assert_eq!(
        SttsBox::read_block(&payload),
        Err(Error::InvalidData(
            "stts entry_count indicates more entries than could fit in the box"
        ))
    );
}

#[test]
fn stco_decodes_entries_in_order() {
    let payload = [0u8, 0, 0, 0, 0, 0, 0, 2, 0, 0, 3, 0xE8, 0, 0, 0x13, 0x88];
    let b = StcoBox::read_block(&payload).unwrap();
    assert_eq!(b.entries, vec![1000, 5000]);
}

#[test]
fn fixed_point_values_round_trip() {
    assert_eq!(FixedPointU8::new(1).value(), 1);
    assert_eq!(FixedPointU8::new(1).raw_value(), 256);
    assert_eq!(FixedPointU16::new(512).value(), 512);
    assert_eq!(FixedPointU16::new_raw(512 << 16).value(), 512);
    assert_eq!(TrackFlag::TrackEnabled.value(), 1);
}

#[test]
fn tkhd_setters_change_only_their_field() {
    let mut b = TkhdBox::default();
    b.set_width(512);
    b.set_height(288);
    assert_eq!(b.width.value(), 512);
    assert_eq!(b.height.value(), 288);
    assert_eq!(b.track_id, 0);
    assert_eq!(b.get_size(), 92);
    let v1 = TkhdBox {
        version: 1,
        ..TkhdBox::default()
    };
    assert_eq!(v1.get_size(), 104);
}
