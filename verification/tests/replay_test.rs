use mavfleet::crc::x25_crc;
use mavfleet::listing::FileEntry;
use mavfleet::replay::{
    decode_header, decode_record, hex_lower, list_replay_files, read_replay_meta,
    read_replay_topic, replay_path, sanitize_filename, topic_by_name, FileContent, ReplayError,
    TickTime, HEADER_LEN, MAGIC, RECORD_LEN, TOPICS, VERSION,
};

fn fake_replay(rate_hz: f64, seed: u64, n_records: usize) -> Vec<u8> {
    let mut buf = Vec::with_capacity(HEADER_LEN + n_records * RECORD_LEN);
    buf.extend_from_slice(&MAGIC);
    buf.extend_from_slice(&VERSION.to_le_bytes());
    buf.extend_from_slice(&(HEADER_LEN as u16).to_le_bytes());
    let millihz = (rate_hz * 1000.0).round() as u32;
    buf.extend_from_slice(&millihz.to_le_bytes());
    buf.extend_from_slice(&seed.to_le_bytes());
    buf.extend_from_slice(&0u64.to_le_bytes());
    let mut hash = [0u8; 32];
    for (i, b) in hash.iter_mut().enumerate() {
        *b = (i as u8).wrapping_mul(7);
    }
    buf.extend_from_slice(&hash);
    assert_eq!(buf.len(), HEADER_LEN);
    for tick in 0..n_records as u64 {
        let mut rec = [0u8; RECORD_LEN];
        let t_us = tick * 5_000;
        rec[0..8].copy_from_slice(&t_us.to_le_bytes());
        for i in 0..16 {
            rec[8 + i] = (tick as u8).wrapping_add(i as u8);
        }
        let mut state = [0f32; 17];
        for i in 0..3 {
            state[i] = (tick as f32) * 0.1 + i as f32;
        }
        for i in 3..6 {
            state[i] = (tick as f32) * 0.05 + (i - 3) as f32;
        }
        state[6] = 1.0;
        for i in 10..17 {
            state[i] = (tick as f32) * 0.01 + (i - 10) as f32;
        }
        for (i, &v) in state.iter().enumerate() {
            rec[24 + 4 * i..28 + 4 * i].copy_from_slice(&v.to_le_bytes());
        }
        rec[92..94].copy_from_slice(&0u16.to_le_bytes());
        let crc = x25_crc(&rec[..94]);
        rec[94..96].copy_from_slice(&crc.to_le_bytes());
        buf.extend_from_slice(&rec);
    }
    buf
}

fn file(name: &str, size: usize) -> FileEntry {
    FileEntry {
        name: Some(name.to_string()),
        is_file: true,
        size_bytes: size as u64,
        mtime: 0,
    }
}

#[test]
fn list_replay_files_skips_non_replay() {
    let a = fake_replay(200.0, 1, 5);
    let b = fake_replay(200.0, 2, 3);
    let list = list_replay_files(&vec![
        file("b.replay", b.len()),
        file("d.json", 2),
        file("a.replay", a.len()),
        file("c.txt", 12),
    ]);
    let names: Vec<String> = list.iter().map(|s| s.filename.clone()).collect();
    assert_eq!(names, vec!["a.replay", "b.replay"]);
    assert_eq!(list[0].size_bytes, (HEADER_LEN + 5 * RECORD_LEN) as u64);
    assert_eq!(list[1].size_bytes, (HEADER_LEN + 3 * RECORD_LEN) as u64);
}

#[test]
fn read_meta_returns_correct_counts() {
    let bytes = fake_replay(200.0, 42, 100);
    let meta = read_replay_meta("test.replay", &FileContent::Read(bytes.clone())).unwrap();
    assert_eq!(meta.records, 100);
    let rate_hz = meta.rate_millihz as f64 / 1000.0;
    assert!((rate_hz - 200.0).abs() < 0.001);
    let duration_s = meta.records as f64 / rate_hz;
    assert!((duration_s - 0.5).abs() < 0.001, "got {}", duration_s);
    assert_eq!(meta.seed, 42);
    assert_eq!(meta.scenario_sha256.len(), 64);
    assert!(meta.scenario_sha256.starts_with("00070e15"));
}

#[test]
fn read_meta_rejects_bad_magic() {
    let mut bad = vec![0u8; HEADER_LEN];
    bad[0..8].copy_from_slice(b"BADMAGIC");
    let err = read_replay_meta("bad.replay", &FileContent::Read(bad.clone())).unwrap_err();
    match err {
        ReplayError::BadHeader(m) => assert!(m.contains("magic")),
        other => panic!("expected BadHeader, got {other:?}"),
    }
}

#[test]
fn read_topic_returns_expected_count() {
    let bytes = fake_replay(200.0, 42, 100);
    let data = read_replay_topic("test.replay", &FileContent::Read(bytes.clone()), "pos_ned_m", 0, 50).unwrap();
    assert_eq!(data.topic, "pos_ned_m");
    assert_eq!(data.points.len(), 51);
    assert_eq!(data.points[0].tick, 0);
    assert_eq!(data.points[50].tick, 50);
    assert_eq!(data.points[0].values.len(), 3);
    let x = |i: usize| f32::from_bits(data.points[i].values[0]);
    assert!((x(0) - 0.0).abs() < 0.001);
    assert!((x(1) - 0.1).abs() < 0.001);
    assert!((x(50) - 5.0).abs() < 0.001);
    let t_s = |i: usize| match data.points[i].time {
        TickTime::Micros(us) => us as f64 / 1_000_000.0,
        TickTime::NoRate => panic!("the recording has a rate"),
    };
    assert!((t_s(0) - 0.0).abs() < 0.001);
    assert!((t_s(1) - 0.005).abs() < 0.001);
    assert!((t_s(50) - 0.25).abs() < 0.001);
}

#[test]
fn read_topic_unknown_returns_topic_not_found() {
    let bytes = fake_replay(200.0, 42, 10);
    let err = read_replay_topic("test.replay", &FileContent::Read(bytes.clone()), "not_a_topic", 0, 5).unwrap_err();
    match err {
        ReplayError::TopicNotFound(t) => assert_eq!(t, "not_a_topic"),
        other => panic!("expected TopicNotFound, got {other:?}"),
    }
}

#[test]
fn read_topic_out_of_bounds_returns_range_error() {
    let bytes = fake_replay(200.0, 42, 10);
    let err = read_replay_topic("test.replay", &FileContent::Read(bytes.clone()), "pos_ned_m", 0, 10).unwrap_err();
    match err {
        ReplayError::RangeOutOfBounds { to, records, .. } => {
            assert_eq!(to, 10);
            assert_eq!(records, 10);
        }
        other => panic!("expected RangeOutOfBounds, got {other:?}"),
    }
}

#[test]
fn sanitize_filename_rejects_path_traversal() {
    assert!(sanitize_filename("../etc/passwd").is_err());
    assert!(sanitize_filename(".hidden").is_err());
    assert!(sanitize_filename("a/b").is_err());
    assert!(sanitize_filename("a\\b").is_err());
    assert!(sanitize_filename("").is_err());
    assert!(sanitize_filename("test.replay").is_ok());
}

#[test]
fn topic_catalog_covers_state_vector() {
    let total: usize = TOPICS.iter().map(|t| t.spec().end - t.spec().start).sum();
    assert_eq!(total, 17);
    assert!(topic_by_name("pos_ned_m").is_some());
    assert!(topic_by_name("vel_ned_ms").is_some());
    assert!(topic_by_name("q_wxyz").is_some());
    assert!(topic_by_name("omega_rads").is_some());
    assert!(topic_by_name("rotors").is_some());
    assert!(topic_by_name("battery_v").is_none());
}

#[test]
fn altered_records_are_refused() {
    let mut bytes = fake_replay(200.0, 42, 3);
    bytes[HEADER_LEN + RECORD_LEN + 30] ^= 1;
    match read_replay_topic("test.replay", &FileContent::Read(bytes.clone()), "pos_ned_m", 0, 2).unwrap_err() {
        ReplayError::BadRecord(_) => {}
        other => panic!("expected BadRecord, got {other:?}"),
    }
    assert!(read_replay_topic("test.replay", &FileContent::Read(bytes.clone()), "pos_ned_m", 2, 2).is_ok());
}

#[test]
fn a_missing_recording_is_not_found() {
    match read_replay_meta("gone.replay", &FileContent::Missing).unwrap_err() {
        ReplayError::NotFound(n) => assert_eq!(n, "gone.replay"),
        other => panic!("expected NotFound, got {other:?}"),
    }
    assert_eq!(replay_path("/runs", "a.replay", true).unwrap(), "/runs/a.replay");
    assert_eq!(replay_path("/runs/", "a.replay", true).unwrap(), "/runs/a.replay");
    assert_eq!(replay_path("", "a.replay", true).unwrap(), "a.replay");
    assert_eq!(
        replay_path("/runs", "a.replay", false),
        Err(ReplayError::NotFound("a.replay".into()))
    );
    assert_eq!(
        replay_path("/runs", "../a.replay", true),
        Err(ReplayError::NotFound("../a.replay".into()))
    );
}

#[test]
fn headers_and_records_decode() {
    let bytes = fake_replay(250.0, 7, 2);
    let h = decode_header(&bytes[..HEADER_LEN]).unwrap();
    assert_eq!(h.rate_millihz, 250_000);
    assert_eq!(h.seed, 7);
    let r = decode_record(&bytes[HEADER_LEN + RECORD_LEN..HEADER_LEN + 2 * RECORD_LEN]).unwrap();
    assert_eq!(r.t_us, 5_000);
    assert_eq!(r.motors[0], 1);
    assert_eq!(r.state.len(), 17);
    assert!(decode_header(&bytes[..10]).is_err());
    assert!(decode_record(&bytes[..10]).is_err());
    assert_eq!(hex_lower(&[0x0a, 0xff]), "0aff");
}

#[test]
fn only_files_are_listed() {
    let mut dir = file("a.replay", 64);
    dir.is_file = false;
    let list = list_replay_files(&vec![dir, file("b.replay", 64)]);
    assert_eq!(list.len(), 1);
    assert_eq!(list[0].filename, "b.replay");
}

#[test]
fn an_unreadable_recording_says_why() {
    let denied = FileContent::Unreadable("permission denied".into());
    assert_eq!(
        read_replay_meta("a.replay", &denied).unwrap_err(),
        ReplayError::Io("permission denied".into())
    );
    assert_eq!(
        read_replay_topic("a.replay", &denied, "pos_ned_m", 0, 1).unwrap_err(),
        ReplayError::Io("permission denied".into())
    );
    assert_eq!(
        read_replay_meta("../a.replay", &denied).unwrap_err(),
        ReplayError::NotFound("../a.replay".into())
    );
    assert_eq!(ReplayError::Io("permission denied".into()).text(), "io: permission denied");
}
