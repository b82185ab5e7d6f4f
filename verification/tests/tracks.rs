use mp4kit::boxtype::BoxType;
use mp4kit::file::{MemoryBuffer, MemoryBufferProvider, MoovBox, Mp4File};
use mp4kit::fragment::{MoofBox, TfhdBox, TrafBox, TrunBox, TrunEntry};
use mp4kit::stbl::{StblBox, StcoBox, StscBox, StscEntry, StssBox, SttsBox, SttsEntry, StszBox};
use mp4kit::tkhd::TkhdBox;
use mp4kit::track::{MdiaBox, MinfBox, Mp4Track, TrakBox};
use mp4kit::Error;

fn trak_with(track_id: u32, stbl: StblBox) -> TrakBox {
    let tkhd = TkhdBox {
        track_id,
        ..TkhdBox::default()
    };
    TrakBox {
        tkhd,
        mdia: MdiaBox {
            minf: MinfBox { stbl },
        },
    }
}

/// Two chunks at 1000 and 5000; the first holds 3 samples, later chunks hold
/// 2; every sample is 100 bytes and lasts 1000 ticks.
fn offset_example_stbl() -> StblBox {
    StblBox {
        stco: Some(StcoBox {
            version: 0,
            flags: 0,
            entries: vec![1000, 5000],
        }),
        co64: None,
        stsz: StszBox {
            version: 0,
            flags: 0,
            sample_size: 100,
            sample_count: 5,
            sample_sizes: Vec::new(),
        },
        stsc: StscBox {
            version: 0,
            flags: 0,
            entries: vec![
                StscEntry {
                    first_chunk: 1,
                    samples_per_chunk: 3,
                    sample_description_index: 1,
                },
                StscEntry {
                    first_chunk: 2,
                    samples_per_chunk: 2,
                    sample_description_index: 1,
                },
            ],
        },
        stts: SttsBox {
            version: 0,
            flags: 0,
            entries: vec![SttsEntry {
                sample_count: 5,
                sample_delta: 1000,
            }],
        },
        stss: None,
        ctts: None,
    }
}

#[test]
fn offset_resolution_follows_chunk_runs() {
    let trak = trak_with(1, offset_example_stbl());
    assert_eq!(trak.sample_offset(1).unwrap(), 1000);
    assert_eq!(trak.sample_offset(2).unwrap(), 1100);
    assert_eq!(trak.sample_offset(3).unwrap(), 1200);
    // sample 4 opens chunk 2; sample 5 sits one 100-byte sample into it
    assert_eq!(trak.sample_offset(4).unwrap(), 5000);
    assert_eq!(trak.sample_offset(5).unwrap(), 5100);
    // no chunk covers a sixth sample
    assert!(matches!(
        trak.sample_offset(6),
        Err(Error::EntryInStblNotFound(1, _, 6))
    ));
}

#[test]
fn time_resolution_follows_delta_runs() {
    let mut stbl = offset_example_stbl();
    stbl.stts = SttsBox {
        version: 0,
        flags: 0,
        entries: vec![
            SttsEntry {
                sample_count: 2,
                sample_delta: 1000,
            },
            SttsEntry {
                sample_count: 3,
                sample_delta: 500,
            },
        ],
    };
    let trak = trak_with(1, stbl);
    assert_eq!(trak.sample_time(1).unwrap(), (0, 1000));
    assert_eq!(trak.sample_time(2).unwrap(), (1000, 1000));
    assert_eq!(trak.sample_time(3).unwrap(), (2000, 500));
    assert_eq!(trak.sample_time(4).unwrap(), (2500, 500));
    assert_eq!(trak.sample_time(5).unwrap(), (3000, 500));
    assert_eq!(
        trak.sample_time(6),
        Err(Error::EntryInStblNotFound(1, BoxType::SttsBox, 6))
    );
}

#[test]
fn sync_defaults_to_true_without_a_table() {
    let trak = trak_with(1, offset_example_stbl());
    for id in 1..=5 {
        assert!(trak.sample_is_sync(id));
    }
    let mut stbl = offset_example_stbl();
    stbl.stss = Some(StssBox {
        version: 0,
        flags: 0,
        entries: vec![1, 4],
    });
    let trak = trak_with(1, stbl);
    assert!(trak.sample_is_sync(1));
    assert!(!trak.sample_is_sync(2));
    assert!(!trak.sample_is_sync(3));
    assert!(trak.sample_is_sync(4));
    assert!(!trak.sample_is_sync(5));
}

#[test]
fn rendering_offset_defaults_to_zero() {
    let trak = trak_with(1, offset_example_stbl());
    assert_eq!(trak.sample_rendering_offset(1), 0);
    let mut stbl = offset_example_stbl();
    stbl.ctts = Some(mp4kit::stbl::CttsBox {
        version: 0,
        flags: 0,
        entries: vec![
            mp4kit::stbl::CttsEntry {
                sample_count: 1,
                sample_offset: -200,
            },
            mp4kit::stbl::CttsEntry {
                sample_count: 2,
                sample_offset: 300,
            },
        ],
    });
    let trak = trak_with(1, stbl);
    assert_eq!(trak.sample_rendering_offset(1), -200);
    assert_eq!(trak.sample_rendering_offset(2), 300);
    assert_eq!(trak.sample_rendering_offset(3), 300);
    // beyond the declared runs the offset falls back to zero
    assert_eq!(trak.sample_rendering_offset(4), 0);
}

#[test]
fn track_resolves_all_samples_in_order() {
    let track = Mp4Track::new(&trak_with(7, offset_example_stbl())).unwrap();
    assert_eq!(track.track_id, 7);
    assert_eq!(track.samples.len(), 5);
    let offsets: Vec<u64> = track.samples.iter().map(|s| s.offset).collect();
    assert_eq!(offsets, vec![1000, 1100, 1200, 5000, 5100]);
    let starts: Vec<u64> = track.samples.iter().map(|s| s.start_time).collect();
    assert_eq!(starts, vec![0, 1000, 2000, 3000, 4000]);
    assert!(track.samples.iter().all(|s| s.size == 100 && s.is_sync));
}

#[test]
fn track_skips_samples_outside_the_chunk_runs() {
    // the chunk runs only cover 5 samples but 6 are declared: the sixth is
    // skipped, not fatal
    let mut stbl = offset_example_stbl();
    stbl.stsz.sample_count = 6;
    stbl.stts.entries = vec![SttsEntry {
        sample_count: 6,
        sample_delta: 1000,
    }];
    let track = Mp4Track::new(&trak_with(1, stbl)).unwrap();
    assert_eq!(track.samples.len(), 5);
}

#[test]
fn track_fails_when_a_time_run_is_missing() {
    // offsets cover 5 samples but the time table covers only 4: hard error
    let mut stbl = offset_example_stbl();
    stbl.stts.entries = vec![SttsEntry {
        sample_count: 4,
        sample_delta: 1000,
    }];
    assert_eq!(
        Mp4Track::new(&trak_with(1, stbl)),
        Err(Error::EntryInStblNotFound(1, BoxType::SttsBox, 5))
    );
}

#[test]
fn fragment_appends_samples_to_the_declared_track() {
    let mut file = Mp4File::new();
    file.set_moov(&MoovBox {
        traks: vec![trak_with(1, offset_example_stbl())],
    })
    .unwrap();
    assert_eq!(file.get_track(1).unwrap().samples.len(), 5);

    let traf = TrafBox {
        tfhd: TfhdBox {
            track_id: 1,
            base_data_offset: None,
            sample_description_index: None,
            default_sample_duration: Some(500),
            default_sample_size: Some(200),
            default_sample_flags: None,
        },
        truns: vec![TrunBox {
            data_offset: Some(16),
            entries: vec![
                TrunEntry {
                    duration: None,
                    size: None,
                    rendering_offset: None,
                    is_sync: true,
                },
                TrunEntry {
                    duration: Some(700),
                    size: Some(300),
                    rendering_offset: Some(-5),
                    is_sync: false,
                },
                TrunEntry {
                    duration: None,
                    size: None,
                    rendering_offset: None,
                    is_sync: false,
                },
            ],
        }],
    };
    file.add_moof(9000, &MoofBox { trafs: vec![traf] }).unwrap();

    let track = file.get_track(1).unwrap();
    assert_eq!(track.samples.len(), 8);
    // the run starts at the movie fragment's offset plus its data offset
    assert_eq!(track.samples[5].offset, 9016);
    assert_eq!(track.samples[5].size, 200);
    assert_eq!(track.samples[5].duration, 500);
    // time continues from the last movie-header sample (start 4000 + 1000)
    assert_eq!(track.samples[5].start_time, 5000);
    assert!(track.samples[5].is_sync);
    assert_eq!(track.samples[6].offset, 9216);
    assert_eq!(track.samples[6].size, 300);
    assert_eq!(track.samples[6].duration, 700);
    assert_eq!(track.samples[6].start_time, 5500);
    assert_eq!(track.samples[6].rendering_offset, -5);
    assert!(!track.samples[6].is_sync);
    assert_eq!(track.samples[7].offset, 9516);
    assert_eq!(track.samples[7].start_time, 6200);
}

#[test]
fn fragment_for_unknown_track_is_an_error_and_mutates_nothing() {
    let mut file = Mp4File::new();
    file.set_moov(&MoovBox {
        traks: vec![trak_with(1, offset_example_stbl())],
    })
    .unwrap();

    let traf = TrafBox {
        tfhd: TfhdBox {
            track_id: 2,
            base_data_offset: None,
            sample_description_index: None,
            default_sample_duration: Some(500),
            default_sample_size: Some(200),
            default_sample_flags: None,
        },
        truns: vec![TrunBox {
            data_offset: None,
            entries: vec![TrunEntry {
                duration: None,
                size: None,
                rendering_offset: None,
                is_sync: true,
            }],
        }],
    };
    assert_eq!(
        file.add_moof(9000, &MoofBox { trafs: vec![traf] }),
        Err(Error::TrakNotFound(2))
    );
    assert_eq!(file.get_track(1).unwrap().samples.len(), 5);
    assert!(file.get_track(2).is_none());
}

#[test]
fn moov_replaces_a_track_that_reuses_an_id() {
    let mut file = Mp4File::new();
    file.set_moov(&MoovBox {
        traks: vec![trak_with(1, offset_example_stbl())],
    })
    .unwrap();
    let mut small = offset_example_stbl();
    small.stsz.sample_count = 2;
    file.set_moov(&MoovBox {
        traks: vec![trak_with(1, small)],
    })
    .unwrap();
    assert_eq!(file.get_track(1).unwrap().samples.len(), 2);
}

#[test]
fn memory_buffer_reads_back_what_was_written() {
    let mut provider = MemoryBufferProvider::default();
    let buffer = provider.create_buffer(4).unwrap();
    assert_eq!(buffer.read_bytes(0, 4).unwrap(), &[0, 0, 0, 0]);
    let mut buffer = MemoryBuffer::default();
    buffer.write_bytes(&[1, 2, 3, 4, 5]).unwrap();
    assert_eq!(buffer.read_bytes(1, 3).unwrap(), &[2, 3, 4]);
}

#[test]
fn query_surface_lists_tracks_and_samples() {
    let mut file = Mp4File::new();
    file.set_moov(&MoovBox {
        traks: vec![trak_with(1, offset_example_stbl())],
    })
    .unwrap();
    assert_eq!(file.track_ids(), vec![1]);
    let track = file.get_track(1).unwrap();
    assert_eq!(track.sample_count(), 5);
    let s = track.sample(4).unwrap();
    assert_eq!(s.offset, 5000);
    assert_eq!(s.size, 100);
    assert!(track.sample(0).is_none());
    assert!(track.sample(6).is_none());
}

#[test]
fn moov_fold_propagates_the_failing_tracks_own_error() {
    // the first track folds; the second track's time table is short, and its
    // own lookup error comes back while the first track stays folded
    let mut bad = offset_example_stbl();
    bad.stts.entries = vec![SttsEntry {
        sample_count: 4,
        sample_delta: 1000,
    }];
    let mut file = Mp4File::new();
    assert_eq!(
        file.set_moov(&MoovBox {
            traks: vec![trak_with(1, offset_example_stbl()), trak_with(2, bad)],
        }),
        Err(Error::EntryInStblNotFound(2, BoxType::SttsBox, 5))
    );
    assert_eq!(file.get_track(1).unwrap().samples.len(), 5);
    assert!(file.get_track(2).is_none());
}
