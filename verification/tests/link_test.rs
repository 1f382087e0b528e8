use mavfleet::crc::{x25_crc, X25Crc};
use mavfleet::frame::{crc_extra, Decoder, Frame};
use mavfleet::link::{
    command_outcome, Action, CmdAck, Link, LinkCommand, LinkConfig, MissionDownloadResult,
    MissionUploadResult, Reply, SetpointGoal, SetpointSlot,
};
use mavfleet::messages::{
    CmdParams, MissionAck, MissionCount, MissionItemInt, MissionRequest, Vec3,
};
use mavfleet::params::{ParamDownloadState, ParamStore, ParamVal};

fn encode(msgid: u32, payload: &[u8], seq: u8) -> Vec<u8> {
    Frame { seq, sysid: 255, compid: 190, msgid, payload: payload.to_vec(), crc_ok: true }
        .encode_v2(seq, crc_extra(msgid).unwrap())
}

#[test]
fn roundtrip_simple_frame() {
    let bytes = encode(0, &[0, 0, 0, 0, 6, 8, 0, 4, 3], 7);
    let mut d = Decoder::new();
    d.push(&bytes);
    let f = d.next_frame().unwrap();
    assert_eq!(f.msgid, 0);
    assert_eq!(f.seq, 7);
    assert_eq!(f.sysid, 255);
    assert_eq!(f.payload, vec![0, 0, 0, 0, 6, 8, 0, 4, 3]);
    assert!(f.crc_ok);
    assert!(d.next_frame().is_none());
}

#[test]
fn two_frames_one_datagram() {
    let mut bytes = encode(0, &[9], 0);
    bytes.extend(encode(30, &[0; 28], 1));
    let mut d = Decoder::new();
    d.push(&bytes);
    assert_eq!(d.next_frame().unwrap().seq, 0);
    assert_eq!(d.next_frame().unwrap().seq, 1);
    assert!(d.next_frame().is_none());
}

#[test]
fn datagram_bounds_do_not_matter() {
    let mut bytes = vec![0xfd, 0x00];
    bytes.extend(encode(0, &[9], 0));
    bytes.extend(encode(30, &[0; 28], 1));
    bytes.extend(&encode(0, &[9], 2)[..6]);
    let drain = |d: &mut Decoder| {
        let mut seqs = Vec::new();
        while let Some(f) = d.next_frame() {
            seqs.push(f.seq);
        }
        seqs
    };
    let mut whole = Decoder::new();
    whole.push(&bytes);
    let expected = drain(&mut whole);
    for cut in 0..bytes.len() {
        let mut d = Decoder::new();
        d.push(&bytes[..cut]);
        let mut seqs = drain(&mut d);
        d.push(&bytes[cut..]);
        seqs.extend(drain(&mut d));
        assert_eq!(seqs, expected, "cut at {cut}");
        assert_eq!(d.buffered(), whole.buffered(), "cut at {cut}");
    }
}

#[test]
fn resync_on_garbage_prefix() {
    let mut bytes = vec![0x00, 0x13, 0x37, 0xaa];
    bytes.extend(encode(0, &[9], 0));
    let mut d = Decoder::new();
    d.push(&bytes);
    let f = d.next_frame().unwrap();
    assert_eq!(f.msgid, 0);
}

#[test]
fn bogus_fd_in_garbage_does_not_stall_forever() {
    let mut d = Decoder::new();
    d.push(&[0x00, 0x13, 0x37, 0xfd]);
    assert!(d.next_frame().is_none(), "stuck waiting for the bogus partial frame");
    for _ in 0..200 {
        d.push(&encode(0, &[9], 0));
    }
    let mut decoded = 0;
    while d.next_frame().is_some() {
        decoded += 1;
    }
    assert!(decoded >= 1, "decoder never resynced");
}

#[test]
fn bad_crc_dropped() {
    let mut bytes = encode(0, &[9], 0);
    let n = bytes.len();
    bytes[n - 1] ^= 0xff;
    let mut d = Decoder::new();
    d.push(&bytes);
    assert!(d.next_frame().is_none());
}

#[test]
fn unknown_msgid_structurally_emitted() {
    let mut f = Frame { seq: 0, sysid: 1, compid: 1, msgid: 42, payload: vec![1, 2, 3], crc_ok: true };
    let bytes = f.encode_v2(0, 99);
    f.crc_ok = false;
    let mut d = Decoder::new();
    d.push(&bytes);
    assert_eq!(d.next_frame(), Some(f));
}

#[test]
fn partial_frame_waits_for_more() {
    let bytes = encode(0, &[9], 0);
    let mut d = Decoder::new();
    d.push(&bytes[..5]);
    assert!(d.next_frame().is_none());
    d.push(&bytes[5..]);
    assert!(d.next_frame().is_some());
}

#[test]
fn x25_crc_reference_vectors() {
    assert_eq!(x25_crc(b""), 0xFFFF);
    assert_eq!(x25_crc(b"123456789"), 0x6F91);
    assert_eq!(x25_crc(b"\x00"), 0x0F87);
}

#[test]
fn the_checksum_can_be_accumulated_in_parts() {
    let mut c = X25Crc::new();
    c.accumulate_slice(b"12345");
    c.accumulate(b'6');
    c.accumulate_slice(b"789");
    assert_eq!(c.value(), 0x6F91);
}

#[test]
fn link_config_ports_per_spec() {
    let c = LinkConfig::for_instance(0);
    assert_eq!(c.bind_addr, "127.0.0.1:14540");
    assert_eq!(c.remote_addr, "127.0.0.1:14580");
    assert_eq!(c.manager_sysid, 255);
    assert_eq!(c.manager_compid, 190);
    let c1 = LinkConfig::for_instance(1);
    assert_eq!(c1.bind_addr, "127.0.0.1:14541");
    assert_eq!(c1.remote_addr, "127.0.0.1:14581");
}

#[test]
fn param_store_ingest_tracks_download() {
    let mut s = ParamStore::default();
    assert_eq!(s.state, ParamDownloadState::Idle);
    s.mark_requested(10);
    assert_eq!(s.state, ParamDownloadState::Downloading);
    s.ingest("SYS_AUTOSTART", 4001.0f32.to_bits(), 9, 3, 0, 12);
    s.ingest("BAT_N_CELLS", 4.0f32.to_bits(), 9, 3, 1, 13);
    assert_eq!(s.total, 3);
    assert_eq!(s.received_unique, 2);
    assert_eq!(s.state, ParamDownloadState::Downloading);
    s.ingest("BAT_N_CELLS", 4.0f32.to_bits(), 9, 3, 1, 20);
    assert_eq!(s.received_unique, 2);
    assert_eq!(s.params.len(), 2);
    s.ingest("NAV_DLL_ACT", 0.0f32.to_bits(), 9, 3, 2, 21);
    assert_eq!(s.state, ParamDownloadState::Complete);
    assert_eq!(s.get("BAT_N_CELLS"), Some(4.0f32.to_bits()));
    assert_eq!(s.get("NOPE"), None);
}

#[test]
fn param_store_staleness_flips_to_stalled() {
    let mut s = ParamStore::default();
    s.mark_requested(0);
    s.ingest("A", 1.0f32.to_bits(), 9, 100, 0, 100);
    s.refresh_staleness(1_000);
    assert_eq!(s.state, ParamDownloadState::Downloading);
    s.refresh_staleness(4_500);
    assert_eq!(s.state, ParamDownloadState::Stalled);
    s.ingest("B", 2.0f32.to_bits(), 9, 100, 1, 4_600);
    assert_eq!(s.state, ParamDownloadState::Stalled);
    s.mark_requested(4_700);
    assert_eq!(s.state, ParamDownloadState::Downloading);
}

#[test]
fn param_store_ignores_empty_ids() {
    let mut s = ParamStore::default();
    s.mark_requested(0);
    s.ingest("", 0.0f32.to_bits(), 9, 5, 0, 10);
    assert_eq!(s.params.len(), 0);
    assert_eq!(s.received_unique, 0);
    assert_eq!(s.total, 5);
    assert_eq!(s.last_value_ms, Some(10));
}

// The link's machine.

fn vehicle_frame(msgid: u32, payload: Vec<u8>) -> Vec<u8> {
    Frame { seq: 0, sysid: 1, compid: 1, msgid, payload, crc_ok: true }
        .encode_v2(0, crc_extra(msgid).unwrap())
}

fn new_link() -> Link {
    Link::new(LinkConfig::for_instance(0))
}

fn replies(link: &mut Link) -> Vec<(u64, Reply)> {
    link.machine()
        .take_actions()
        .into_iter()
        .filter_map(|a| match a {
            Action::Reply(t, r) => Some((t, r)),
            _ => None,
        })
        .collect()
}

fn ack(command: u16, result: u8) -> Vec<u8> {
    let mut p = command.to_le_bytes().to_vec();
    p.push(result);
    p.extend([0, 0, 0, 0, 0, 255, 190]);
    vehicle_frame(77, p)
}

const NO_PARAMS: CmdParams = CmdParams { p1: 0, p2: 0, p3: 0, p4: 0, p5: 0, p6: 0, p7: 0 };

#[test]
fn hold_at_anchors_slot() {
    let mut link = new_link();
    let here = Vec3 { x: 1.0f32.to_bits(), y: 2.0f32.to_bits(), z: (-3.0f32).to_bits() };
    link.machine().hold_at(here, 0.5f32.to_bits());
    let s = link.machine().slot_snapshot();
    assert!(s.active);
    assert_eq!(s.current, here);
    assert_eq!(s.goal.unwrap().position, here);
    link.machine().stop_stream();
    assert!(!link.machine().slot_snapshot().active);
}

#[test]
fn a_velocity_is_streamed_as_it_is() {
    let mut link = new_link();
    let v = Vec3 { x: 1.0f32.to_bits(), y: 0, z: (-0.5f32).to_bits() };
    link.machine().set_velocity(v, 0.25f32.to_bits());
    assert!(!link.machine().slot_snapshot().active, "a velocity alone starts no stream");
    link.machine().hold_at(Vec3 { x: 0, y: 0, z: 0 }, 0);
    link.machine().set_velocity(v, 0.25f32.to_bits());
    let s = link.machine().slot_snapshot();
    assert!(s.active && s.velocity_mode);
    assert_eq!((s.velocity, s.yaw_rate), (v, 0.25f32.to_bits()));
    assert!(link.machine().pump_goal().is_none());
    link.machine().pump_setpoint(0, v);
    assert_eq!(link.machine().counts().setpoints_sent, 1);
    assert_eq!(link.machine().slot_snapshot().current, s.current);
}

#[test]
fn setpoint_slot_velocity_cap() {
    let mut slot = SetpointSlot { active: true, ..Default::default() };
    assert_eq!(f32::from_bits(slot.cruise_ms), 4.0);
    let goal = [100.0f32, 0.0, -10.0];
    slot.goal = Some(SetpointGoal {
        position: Vec3 { x: goal[0].to_bits(), y: goal[1].to_bits(), z: goal[2].to_bits() },
        yaw: 0,
    });
    let max_step = f32::from_bits(slot.cruise_ms) * (50.0 / 1000.0);
    let step = |from: u32, to: u32| {
        let d = f32::from_bits(to) - f32::from_bits(from);
        (f32::from_bits(from) + d.clamp(-max_step, max_step)).to_bits()
    };
    let g = slot.goal.unwrap().position;
    slot.current = Vec3 {
        x: step(slot.current.x, g.x),
        y: step(slot.current.y, g.y),
        z: step(slot.current.z, g.z),
    };
    assert_eq!(f32::from_bits(slot.current.x), 0.2);
    assert_eq!(f32::from_bits(slot.current.y), 0.0);
    assert_eq!(f32::from_bits(slot.current.z), -0.2);
}

#[test]
fn commands_go_out_one_at_a_time() {
    let mut link = new_link();
    for (command, ticket) in [(400u16, 7u64), (176, 8)] {
        link.machine().request(LinkCommand::SendCommand { command, params: NO_PARAMS, ticket }, 0);
    }
    link.machine().service(0);
    assert_eq!(link.machine().counts().commands_sent, 1);
    link.receive(&ack(400, 0), 10);
    link.machine().service(10);
    assert_eq!(replies(&mut link), vec![(7, Reply::Command(CmdAck::Accepted))]);
    assert_eq!(link.machine().counts().commands_sent, 2);
    link.receive(&ack(176, 4), 20);
    assert_eq!(replies(&mut link), vec![(8, Reply::Command(CmdAck::Rejected { result: 4 }))]);
}

#[test]
fn unanswered_commands_are_given_up() {
    let mut link = new_link();
    link.machine().request(
        LinkCommand::SendCommand { command: 400, params: NO_PARAMS, ticket: 7 },
        0,
    );
    for now in [0, 500, 1000, 1500] {
        link.machine().service(now);
    }
    assert_eq!(replies(&mut link), vec![(7, Reply::Command(CmdAck::Timeout { attempts: 3 }))]);
    assert_eq!(link.machine().counts().retries, 2);
    assert_eq!(command_outcome(false, None), CmdAck::Timeout { attempts: 0 });
}

#[test]
fn an_echo_confirms_a_write() {
    let mut link = new_link();
    link.machine().request(
        LinkCommand::SetParam { param_id: "BAT_N_CELLS".into(), value: 4, param_type: 6, ticket: 9 },
        0,
    );
    let mut p = 4u32.to_le_bytes().to_vec();
    p.extend(1u16.to_le_bytes());
    p.extend(0u16.to_le_bytes());
    let mut id = b"BAT_N_CELLS".to_vec();
    id.resize(16, 0);
    p.extend(id);
    p.push(6);
    link.receive(&vehicle_frame(22, p), 50);
    assert_eq!(replies(&mut link), vec![(9, Reply::Param(Some(ParamVal::Int32(4))))]);
    assert_eq!(link.machine().param_store().get_i32("BAT_N_CELLS"), Some(4));
}

fn item(seq: u16) -> MissionItemInt {
    MissionItemInt {
        param1: 0,
        param2: 0,
        param3: 0,
        param4: 0,
        x: 473_977_700,
        y: 85_455_800,
        z: 12.0f32.to_bits(),
        seq,
        command: 16,
        target_system: 1,
        target_component: 1,
        frame: 6,
        current: 0,
        autocontinue: 1,
        mission_type: 0,
    }
}

#[test]
fn a_mission_is_uploaded_item_by_item() {
    let mut link = new_link();
    link.machine().request(
        LinkCommand::MissionUpload { items: vec![item(0), item(1)], mission_type: 0, ticket: 3 },
        0,
    );
    for seq in 0..2u16 {
        let want = MissionRequest { seq, target_system: 255, target_component: 190, mission_type: 0 };
        link.receive(&vehicle_frame(51, want.pack()), 10);
    }
    let done = MissionAck {
        target_system: 255,
        target_component: 190,
        mission_result: 0,
        mission_type: 0,
    };
    link.receive(&vehicle_frame(47, done.pack()), 20);
    match &replies(&mut link)[..] {
        [(3, Reply::Upload(MissionUploadResult::Done { items_sent, .. }))] => {
            assert_eq!(*items_sent, 2)
        }
        other => panic!("{other:?}"),
    }
}

#[test]
fn lost_datagrams_are_counted() {
    let mut link = new_link();
    link.machine().set_link_loss(Some(100));
    link.receive(&ack(400, 0), 50);
    assert_eq!(link.machine().counts().dropped_link_loss, 1);
    assert_eq!(link.machine().counts().recv, 0);
    link.receive(&ack(400, 0), 100);
    assert_eq!(link.machine().counts().recv, 1);
    assert_eq!(link.machine().msg_count(77), 1);
}

#[test]
fn a_new_request_counts_from_the_start() {
    let mut s = ParamStore::default();
    s.mark_requested(0);
    s.ingest("A", 1, 6, 2, 0, 1);
    s.ingest("B", 2, 6, 2, 1, 2);
    assert_eq!(s.received_unique, 2);
    assert_eq!(s.state, ParamDownloadState::Complete);
    s.mark_requested(10);
    assert_eq!(s.received_unique, 0);
    s.ingest("A", 1, 6, 2, 0, 11);
    assert_eq!(s.received_unique, 1);
    assert_eq!(s.state, ParamDownloadState::Downloading);
    s.ingest("B", 2, 6, 2, 1, 12);
    assert_eq!(s.received_unique, 2);
    assert_eq!(s.state, ParamDownloadState::Complete);
    assert_eq!(s.params.len(), 2);
}

#[test]
fn the_silence_is_counted_from_the_request() {
    let mut s = ParamStore::default();
    s.mark_requested(1_000);
    s.refresh_staleness(1_001);
    assert_eq!(s.state, ParamDownloadState::Downloading);
    s.refresh_staleness(4_000);
    assert_eq!(s.state, ParamDownloadState::Downloading);
    s.refresh_staleness(4_001);
    assert_eq!(s.state, ParamDownloadState::Stalled);

    let mut s = ParamStore::default();
    s.mark_requested(0);
    s.ingest("A", 1, 6, 2, 0, 100);
    s.mark_requested(5_000);
    s.refresh_staleness(8_000);
    assert_eq!(s.state, ParamDownloadState::Downloading);
}

#[test]
fn replaced_requests_are_answered() {
    let mut link = new_link();
    for ticket in 1..3u64 {
        link.machine().request(
            LinkCommand::SetParam { param_id: "A".into(), value: 1, param_type: 6, ticket },
            0,
        );
    }
    assert_eq!(replies(&mut link), vec![(1, Reply::Param(None))]);
    for ticket in 3..5u64 {
        link.machine().request(
            LinkCommand::MissionUpload { items: vec![item(0)], mission_type: 0, ticket },
            0,
        );
    }
    match &replies(&mut link)[..] {
        [(3, Reply::Upload(MissionUploadResult::Timeout { .. }))] => {}
        other => panic!("{other:?}"),
    }
    for ticket in 5..7u64 {
        link.machine().request(LinkCommand::MissionDownload { mission_type: 1, ticket }, 0);
    }
    assert_eq!(
        replies(&mut link),
        vec![(5, Reply::Download(MissionDownloadResult::Timeout { mission_type: 1 }))]
    );
}

#[test]
fn an_uploaded_mission_comes_back() {
    for mission_type in 0..3u8 {
        let mut link = new_link();
        let items = vec![item(7), item(0), item(3)];
        link.machine().request(
            LinkCommand::MissionUpload { items: items.clone(), mission_type, ticket: 1 },
            0,
        );
        for seq in 0..3u16 {
            let want = MissionRequest { seq, target_system: 255, target_component: 190, mission_type };
            link.receive(&vehicle_frame(51, want.pack()), 10);
        }
        let mut decoder = Decoder::new();
        for action in link.machine().take_actions() {
            if let Action::Send(bytes) = action {
                decoder.push(&bytes);
            }
        }
        let mut payloads = Vec::new();
        while let Some(f) = decoder.next_frame() {
            if f.msgid == 73 {
                payloads.push(f.payload);
            }
        }
        assert_eq!(payloads.len(), 3);

        link.machine().request(LinkCommand::MissionDownload { mission_type, ticket: 2 }, 20);
        let count = MissionCount { count: 3, target_system: 255, target_component: 190, mission_type };
        link.receive(&vehicle_frame(44, count.pack()), 30);
        for payload in payloads {
            link.receive(&vehicle_frame(73, payload), 40);
        }
        let expected: Vec<MissionItemInt> = items
            .iter()
            .enumerate()
            .map(|(k, i)| MissionItemInt { seq: k as u16, mission_type, ..i.clone() })
            .collect();
        assert_eq!(
            replies(&mut link),
            vec![(2, Reply::Download(MissionDownloadResult::Done { mission_type, items: expected }))]
        );
    }
}

#[test]
fn less_than_a_frame_stays_buffered() {
    let mut d = Decoder::new();
    d.push(&[0xfd, 0xff]);
    d.push(&[7; 264]);
    assert!(d.next_frame().is_none());
    assert_eq!(d.buffered(), 266);
    let mut d = Decoder::new();
    d.push(&[7; 3000]);
    assert!(d.next_frame().is_none());
    assert_eq!(d.buffered(), 0);
    let bytes = encode(0, &[1, 2, 3], 0);
    d.push(&bytes);
    d.push(&bytes);
    let f = d.next_frame().unwrap();
    assert!(bytes.len() >= f.payload.len() + 8);
    assert_eq!(d.buffered(), bytes.len());
}
