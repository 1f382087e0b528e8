//! What the datagrams of a link hold, byte by byte, and what it takes from
//! the bytes it receives.
//!
//! Everything here speaks of raw bytes: positions in a payload, message
//! numbers and little-endian values as plain arithmetic.

use vstd::prelude::*;
#[allow(unused_imports)]
use crate::crc::{crc_byte, crc_of};
#[allow(unused_imports)]
use crate::float::{bytes_are_whole, is_whole, whole_number_has_its_pattern, whole_pattern_is_zero};
#[allow(unused_imports)]
use crate::frame::{
    crc_extra_of, encoded_frame_is_read_back, first_frame, guarded, trimmed, v2_bytes, FrameModel,
};
#[allow(unused_imports)]
use crate::link::{
    addressed, approached, command_ladder, count_at, datagram_lost, download_deadline, first_bytes,
    frame_handled, frames_handled, frames_in, hearing, heartbeat_sent, left_over, loss_cleared,
    mode_change, next_command, opened, own_frame, param_ladder, sending, serviced, setpoint_pumped,
    slot_held, slot_moving, slot_sent_to, slot_stopped, taken_up, told_of_command,
    told_of_download, told_of_upload, upload_deadline, ActionModel, CmdAck, Download,
    DownloadOutcome, LinkCommand, LinkConfig, LinkModel, ParamWrite, Pending, Queued, ReplyModel,
    SetpointGoal, SetpointSlot, Upload, UploadOutcome,
};
#[allow(unused_imports)]
use crate::link_laws::{items_asked_for, upload_hands_out_its_items};
#[allow(unused_imports)]
use crate::messages::{
    byte_of, event_of, field_text, le16, le32, text_char, trimming_keeps_bytes, u16_of, u32_of,
    u64_of, CmdParams, EventModel, Heartbeat, MissionAck, MissionCount, MissionItemInt,
    MissionRequest, MissionRequestList, ParamRequestList, Ping, SetPositionTarget, Vec3,
};
#[allow(unused_imports)]
use crate::params::ParamVal;
#[allow(unused_imports)]
use crate::text::decimal;
#[allow(unused_imports)]
use crate::vehicle::{observed, reports_are_read_back, VehicleModel};

verus! {

// Reading bytes.

/// Byte `i` of a payload; the zeros a sender leaves off at the end count.
pub open spec fn b8(p: Seq<u8>, i: int) -> int {
    if 0 <= i < p.len() {
        p[i] as int
    } else {
        0
    }
}

/// The two bytes from `i` on, lowest first.
pub open spec fn b16(p: Seq<u8>, i: int) -> int {
    b8(p, i) + 0x100 * b8(p, i + 1)
}

/// The four bytes from `i` on, lowest first.
pub open spec fn b32(p: Seq<u8>, i: int) -> int {
    b8(p, i) + 0x100 * b8(p, i + 1) + 0x1_0000 * b8(p, i + 2) + 0x100_0000 * b8(p, i + 3)
}

/// The eight bytes from `i` on, lowest first.
pub open spec fn b64(p: Seq<u8>, i: int) -> int {
    b32(p, i) + 0x1_0000_0000 * b32(p, i + 4)
}

/// A value of `size` possible ones, the upper half of them negative.
pub open spec fn signed(v: int, size: int) -> int {
    if 2 * v < size {
        v
    } else {
        v - size
    }
}

/// What a datagram of one v2 frame carries.
pub open spec fn payload_in(d: Seq<u8>) -> Seq<u8> {
    d.subrange(10, 10 + d[1])
}

/// The datagram is one v2 frame of message `msgid`, sent by the manager under
/// sequence number `seq`, and a receiver decodes it as that.
pub open spec fn one_frame(d: Seq<u8>, cfg: LinkConfig, seq: u8, msgid: int) -> bool {
    &&& d.len() >= 12
    &&& d.len() == 12 + d[1]
    &&& d[0] == 0xFD
    &&& d[2] == 0
    &&& d[3] == 0
    &&& d[4] == seq
    &&& d[5] == cfg.manager_sysid
    &&& d[6] == cfg.manager_compid
    &&& d[7] + 0x100 * d[8] + 0x1_0000 * d[9] == msgid
    &&& first_frame(d).0 matches Some(f) && f.crc_ok && f.seq == seq && f.sysid
        == cfg.manager_sysid && f.compid == cfg.manager_compid && f.msgid == msgid && f.payload
        == payload_in(d)
    &&& first_frame(d).1.len() == 0
}

/// The action is to send one such frame.
pub open spec fn sends(a: ActionModel, cfg: LinkConfig, seq: u8, msgid: int) -> bool {
    a matches ActionModel::Send(d) && one_frame(d, cfg, seq, msgid)
}

/// The payload of the frame an action sends.
pub open spec fn sent_payload(a: ActionModel) -> Seq<u8> {
    match a {
        ActionModel::Send(d) => payload_in(d),
        _ => Seq::empty(),
    }
}

/// Two bytes of a payload name the autopilot of the link's vehicle: its
/// system number is one above its index, its component number is one.
pub open spec fn for_vehicle(cfg: LinkConfig, system: int, component: int) -> bool {
    &&& cfg.instance < 255 ==> system == cfg.instance + 1
    &&& component == 1
}

// Groundwork.

proof fn low_bytes16(v: u16)
    ensures
        (v & 0xff) as u8 as int == v as int % 0x100,
        (v >> 8) as u8 as int == v as int / 0x100,
{
    assert(v & 0xff == v % 0x100 && v >> 8 == v / 0x100) by (bit_vector);
}

proof fn low_bytes32(v: u32)
    ensures
        (v & 0xff) as u8 as int == v as int % 0x100,
        ((v >> 8) & 0xff) as u8 as int == (v as int / 0x100) % 0x100,
        ((v >> 16) & 0xff) as u8 as int == (v as int / 0x1_0000) % 0x100,
        (v >> 24) as u8 as int == v as int / 0x100_0000,
{
    assert(v & 0xff == v % 0x100 && (v >> 8) & 0xff == (v / 0x100) % 0x100 && (v >> 16) & 0xff == (
    v / 0x1_0000) % 0x100 && v >> 24 == v / 0x100_0000) by (bit_vector);
}

proof fn holds16(p: Seq<u8>, i: int, v: u16)
    requires
        b8(p, i) == le16(v)[0],
        b8(p, i + 1) == le16(v)[1],
    ensures
        b16(p, i) == v,
{
    low_bytes16(v);
}

proof fn holds32(p: Seq<u8>, i: int, v: u32)
    requires
        b8(p, i) == le32(v)[0],
        b8(p, i + 1) == le32(v)[1],
        b8(p, i + 2) == le32(v)[2],
        b8(p, i + 3) == le32(v)[3],
    ensures
        b32(p, i) == v,
{
    low_bytes32(v);
}

/// Two bytes joined are their sum by place value.
pub proof fn joins16(p: Seq<u8>, i: int)
    ensures
        b16(p, i) == u16_of(p, i),
        b8(p, i) == byte_of(p, i),
{
    let x = byte_of(p, i);
    let y = byte_of(p, i + 1);
    assert((x as u16) | ((y as u16) << 8) == (x as u16) + 0x100 * (y as u16)) by (bit_vector);
}

/// Four bytes joined are their sum by place value.
pub proof fn joins32(p: Seq<u8>, i: int)
    ensures
        b32(p, i) == u32_of(p, i),
{
    let w = byte_of(p, i);
    let x = byte_of(p, i + 1);
    let y = byte_of(p, i + 2);
    let z = byte_of(p, i + 3);
    assert((w as u32) | ((x as u32) << 8) | ((y as u32) << 16) | ((z as u32) << 24) == (w as u32)
        + 0x100 * (x as u32) + 0x1_0000 * (y as u32) + 0x100_0000 * (z as u32)) by (bit_vector);
}

/// Eight bytes joined are their sum by place value.
pub proof fn joins64(p: Seq<u8>, i: int)
    ensures
        b64(p, i) == u64_of(p, i),
{
    joins32(p, i);
    joins32(p, i + 4);
    let lo = u32_of(p, i);
    let hi = u32_of(p, i + 4);
    assert((lo as u64) | ((hi as u64) << 32) == (lo as u64) + 0x1_0000_0000 * (hi as u64))
        by (bit_vector);
}

proof fn trimming_shortens(p: Seq<u8>)
    ensures
        trimmed(p).len() <= p.len(),
    decreases p.len(),
{
    if p.len() > 0 && p.last() == 0 {
        trimming_shortens(p.drop_last());
    }
}

#[verifier::rlimit(40)]
proof fn sent_on_the_wire(m: LinkModel, msgid: u32, payload: Seq<u8>)
    requires
        msgid < 0x100_0000,
        payload.len() <= 255,
        crc_extra_of(msgid) is Some,
    ensures
        ({
            let out = sending(m, msgid, payload).outbox;
            &&& out.len() == m.outbox.len() + 1
            &&& out.drop_last() == m.outbox
            &&& out.last() == out[m.outbox.len() as int]
            &&& sends(out.last(), m.cfg, m.seq, msgid as int)
            &&& forall|i: int| #[trigger]
                b8(sent_payload(out.last()), i) == byte_of(payload, i)
        }),
{
    let out = sending(m, msgid, payload).outbox;
    let extra = crc_extra_of(msgid)->0;
    let f = own_frame(m.cfg, msgid, payload);
    let none = Seq::<u8>::empty();
    let d = v2_bytes(f, m.seq, extra);
    let p = trimmed(payload);
    trimming_shortens(payload);
    encoded_frame_is_read_back(f, m.seq, extra, none);
    assert(d + none =~= d);
    reveal(v2_bytes);
    assert(out.last() == ActionModel::Send(d));
    assert(out.drop_last() =~= m.outbox);
    assert(d[1] == p.len());
    assert(payload_in(d) =~= p);
    assert(msgid & 0xff == msgid % 0x100 && (msgid >> 8) & 0xff == (msgid / 0x100) % 0x100 && (msgid
        >> 16) & 0xff == (msgid / 0x1_0000) % 0x100) by (bit_vector);
    assert forall|i: int| #[trigger] b8(sent_payload(out.last()), i) == byte_of(payload, i) by {
        trimming_keeps_bytes(payload, i);
    }
}

// Uploading a mission.

/// A requested upload is announced with exactly the number of its items: one
/// MISSION_COUNT frame goes out, addressed to the vehicle, with that number and
/// the kind of mission, and the items are kept in order to be asked for.
pub proof fn upload_announces_its_items(
    m: LinkModel,
    items: Vec<MissionItemInt>,
    mission_type: u8,
    ticket: u64,
    now: u64,
)
    requires
        items@.len() <= 0xffff,
    ensures
        ({
            let r = taken_up(m, LinkCommand::MissionUpload { items, mission_type, ticket }, now);
            let a = r.outbox[m.outbox.len() as int];
            let p = sent_payload(a);
            &&& r.outbox.len() == m.outbox.len() + 1 + (if m.upload is Some {
                1int
            } else {
                0int
            })
            &&& r.outbox.subrange(0, m.outbox.len() as int) == m.outbox
            &&& sends(a, m.cfg, m.seq, 44)
            &&& b16(p, 0) == items@.len()
            &&& for_vehicle(m.cfg, b8(p, 2), b8(p, 3))
            &&& b8(p, 4) == mission_type
            &&& r.upload matches Some(u) && u.items == items@ && u.mission_type == mission_type
                && u.ticket == ticket && u.items_sent == 0
            &&& r.cfg == m.cfg
        }),
{
    let r = taken_up(m, LinkCommand::MissionUpload { items, mission_type, ticket }, now);
    let c = MissionCount {
        count: items@.len() as u16,
        target_system: crate::link::vehicle_sysid(m.cfg),
        target_component: crate::link::TARGET_COMPONENT,
        mission_type,
    };
    let b = c.bytes();
    sent_on_the_wire(m, 44, b);
    let s = sending(m, 44, b);
    let p = sent_payload(s.outbox.last());
    assert(r.outbox[m.outbox.len() as int] == s.outbox.last());
    assert(r.outbox.subrange(0, m.outbox.len() as int) =~= m.outbox);
    assert(b8(p, 0) == byte_of(b, 0) && b8(p, 1) == byte_of(b, 1) && b8(p, 2) == byte_of(b, 2)
        && b8(p, 3) == byte_of(b, 3) && b8(p, 4) == byte_of(b, 4));
    holds16(p, 0, c.count);
}

/// A payload holds a mission item: its parameters, coordinates, command, frame
/// and flags each in their place, under its number and kind of mission.
pub open spec fn holds_item(
    p: Seq<u8>,
    cfg: LinkConfig,
    item: MissionItemInt,
    seq: int,
    mission_type: u8,
) -> bool {
    &&& b32(p, 0) == item.param1
    &&& b32(p, 4) == item.param2
    &&& b32(p, 8) == item.param3
    &&& b32(p, 12) == item.param4
    &&& signed(b32(p, 16), 0x1_0000_0000) == item.x
    &&& signed(b32(p, 20), 0x1_0000_0000) == item.y
    &&& b32(p, 24) == item.z
    &&& b16(p, 28) == seq
    &&& b16(p, 30) == item.command
    &&& for_vehicle(cfg, b8(p, 32), b8(p, 33))
    &&& b8(p, 34) == item.frame
    &&& b8(p, 35) == item.current
    &&& b8(p, 36) == item.autocontinue
    &&& b8(p, 37) == mission_type
}

proof fn signed_rejoins(x: i32)
    ensures
        signed((x as u32) as int, 0x1_0000_0000) == x,
{
    assert(x < 0i32 ==> (x as u32) as i64 == (x as i64) + 0x1_0000_0000i64) by (bit_vector);
}

proof fn same_bytes(p: Seq<u8>, b: Seq<u8>)
    requires
        forall|i: int| #[trigger] b8(p, i) == byte_of(b, i),
    ensures
        forall|i: int| 0 <= i < b.len() ==> b8(p, i) == #[trigger] b[i],
{
    assert forall|i: int| 0 <= i < b.len() implies b8(p, i) == #[trigger] b[i] by {
        assert(b8(p, i) == byte_of(b, i));
    }
}

#[verifier::spinoff_prover]
#[verifier::rlimit(80)]
proof fn item_fields(p: Seq<u8>, item: MissionItemInt)
    requires
        forall|i: int| #[trigger] b8(p, i) == byte_of(item.bytes(), i),
    ensures
        b32(p, 0) == item.param1,
        b32(p, 4) == item.param2,
        b32(p, 8) == item.param3,
        b32(p, 12) == item.param4,
        b32(p, 16) == item.x as u32,
        b32(p, 20) == item.y as u32,
        b32(p, 24) == item.z,
        b16(p, 28) == item.seq,
        b16(p, 30) == item.command,
        b8(p, 32) == item.target_system,
        b8(p, 33) == item.target_component,
        b8(p, 34) == item.frame,
        b8(p, 35) == item.current,
        b8(p, 36) == item.autocontinue,
        b8(p, 37) == item.mission_type,
{
    let b = item.bytes();
    assert(b.len() == 38);
    same_bytes(p, b);
    holds32(p, 0, item.param1);
    holds32(p, 4, item.param2);
    holds32(p, 8, item.param3);
    holds32(p, 12, item.param4);
    holds32(p, 16, item.x as u32);
    holds32(p, 20, item.y as u32);
    holds32(p, 24, item.z);
    holds16(p, 28, item.seq);
    holds16(p, 30, item.command);
}

/// A vehicle that asks an upload for an item by its number, in either form of
/// the request, is sent exactly that item; a request for another kind of
/// mission, or past the last item, gets nothing.
#[verifier::rlimit(40)]
pub proof fn requested_item_is_sent(m: LinkModel, f: FrameModel, now: u64)
    requires
        f.msgid == 40 || f.msgid == 51,
    ensures
        ({
            let r = frame_handled(m, f, now);
            let seq = b16(f.payload, 0);
            let a = r.outbox[m.outbox.len() as int];
            if m.upload is Some && b8(f.payload, 4) == m.upload->0.mission_type && seq
                < m.upload->0.items.len() {
                let u = m.upload->0;
                &&& r.outbox.len() == m.outbox.len() + 2
                &&& sends(a, m.cfg, m.seq, 73)
                &&& holds_item(sent_payload(a), m.cfg, u.items[seq], seq, u.mission_type)
                &&& r.upload matches Some(v) && v.items == u.items && v.mission_type
                    == u.mission_type && v.ticket == u.ticket && v.items_sent >= u.items_sent
                &&& seq < 0xffff ==> r.upload->0.items_sent > seq
                &&& now + 30_000 <= u64::MAX ==> r.upload->0.deadline == now + 30_000
            } else {
                r.upload == m.upload && r.outbox.len() == m.outbox.len() + 1
            }
        }),
{
    reveal(frame_handled);
    joins16(f.payload, 0);
    if m.upload is Some {
        let u = m.upload->0;
        let q = MissionRequest::of(f.payload);
        if q.mission_type == u.mission_type && q.seq < u.items.len() {
            let item = addressed(m.cfg, u.items[q.seq as int], q.seq, u.mission_type);
            let s = crate::link::contacted(crate::link::frame_counted(m, f, now), f);
            sent_on_the_wire(s, 73, item.bytes());
            let a = sending(s, 73, item.bytes()).outbox.last();
            item_fields(sent_payload(a), item);
            signed_rejoins(item.x);
            signed_rejoins(item.y);
        }
    }
}

/// A vehicle that asks, one by one, for as many items as an upload announced
/// gets all of them, each in its place.
#[verifier::rlimit(40)]
pub proof fn announced_items_all_arrive(
    m: LinkModel,
    items: Vec<MissionItemInt>,
    mission_type: u8,
    ticket: u64,
    now: u64,
)
    requires
        items@.len() <= 0xffff,
    ensures
        ({
            let r = taken_up(m, LinkCommand::MissionUpload { items, mission_type, ticket }, now);
            let announced = b16(sent_payload(r.outbox[m.outbox.len() as int]), 0) as nat;
            let t = items_asked_for(r, mission_type, announced, now);
            &&& t.outbox.len() == r.outbox.len() + items@.len()
            &&& forall|i: int|
                0 <= i < items@.len() ==> {
                    let a = #[trigger] t.outbox[r.outbox.len() + i];
                    sends(a, m.cfg, ((r.seq + i) % 256) as u8, 73) && holds_item(
                        sent_payload(a),
                        m.cfg,
                        items@[i],
                        i,
                        mission_type,
                    )
                }
        }),
{
    let r = taken_up(m, LinkCommand::MissionUpload { items, mission_type, ticket }, now);
    upload_announces_its_items(m, items, mission_type, ticket, now);
    let u = r.upload->0;
    let n = items@.len();
    upload_hands_out_its_items(r, u, n, now);
    let t = items_asked_for(r, mission_type, n, now);
    assert forall|i: int| 0 <= i < n implies {
        let a = #[trigger] t.outbox[r.outbox.len() + i];
        sends(a, m.cfg, ((r.seq + i) % 256) as u8, 73) && holds_item(
            sent_payload(a),
            m.cfg,
            items@[i],
            i,
            mission_type,
        )
    } by {
        let item = addressed(r.cfg, u.items[i], i as u16, mission_type);
        let s = LinkModel { seq: ((r.seq + i) % 256) as u8, ..r };
        sent_on_the_wire(s, 73, item.bytes());
        let a = sending(s, 73, item.bytes()).outbox.last();
        assert(t.outbox[r.outbox.len() + i] == a);
        item_fields(sent_payload(a), item);
        signed_rejoins(item.x);
        signed_rejoins(item.y);
    }
}

// Commands.

/// A payload holds a command: its seven parameters in order, its number, the
/// vehicle it is for, and no confirmation count.
pub open spec fn holds_command(
    p: Seq<u8>,
    cfg: LinkConfig,
    command: u16,
    params: CmdParams,
) -> bool {
    &&& b32(p, 0) == params.p1
    &&& b32(p, 4) == params.p2
    &&& b32(p, 8) == params.p3
    &&& b32(p, 12) == params.p4
    &&& b32(p, 16) == params.p5
    &&& b32(p, 20) == params.p6
    &&& b32(p, 24) == params.p7
    &&& b16(p, 28) == command
    &&& for_vehicle(cfg, b8(p, 30), b8(p, 31))
    &&& b8(p, 32) == 0
}

#[verifier::spinoff_prover]
#[verifier::rlimit(80)]
proof fn command_on_the_wire(m: LinkModel, command: u16, params: CmdParams)
    ensures
        ({
            let out = crate::link::sending_command(m, command, params).outbox;
            &&& out.len() == m.outbox.len() + 1
            &&& out.drop_last() == m.outbox
            &&& sends(out.last(), m.cfg, m.seq, 76)
            &&& holds_command(sent_payload(out.last()), m.cfg, command, params)
        }),
{
    let b = crate::link::command_payload(m.cfg, command, params);
    assert(b.len() == 33);
    sent_on_the_wire(m, 76, b);
    let p = sent_payload(sending(m, 76, b).outbox.last());
    same_bytes(p, b);
    holds32(p, 0, params.p1);
    holds32(p, 4, params.p2);
    holds32(p, 8, params.p3);
    holds32(p, 12, params.p4);
    holds32(p, 16, params.p5);
    holds32(p, 20, params.p6);
    holds32(p, 24, params.p7);
    holds16(p, 28, command);
}

/// The number a frame carried that went out just before the link stood at
/// `seq`.
pub open spec fn one_before(seq: u8) -> u8 {
    ((seq + 255) % 256) as u8
}

/// A time `ms` later, or the end of time where there is none.
pub open spec fn after(now: u64, ms: u64) -> int {
    if now + ms <= u64::MAX {
        now + ms
    } else {
        u64::MAX as int
    }
}

/// With no command in flight, the oldest one in the queue goes out at the next
/// turn: one COMMAND_LONG frame to the vehicle with the number and the seven
/// parameters that were asked for, in order. It then waits for its answer as
/// the first attempt.
#[verifier::rlimit(40)]
pub proof fn queued_command_is_sent(m: LinkModel, now: u64)
    requires
        m.pending is None,
        m.queue.len() > 0,
    ensures
        ({
            let r = serviced(m, now);
            let q = m.queue[0];
            &&& r.outbox.len() > m.outbox.len()
            &&& sends(r.outbox.last(), m.cfg, one_before(r.seq), 76)
            &&& holds_command(sent_payload(r.outbox.last()), m.cfg, q.command, q.params)
            &&& r.queue == m.queue.subrange(1, m.queue.len() as int)
            &&& r.pending matches Some(p) && p.command == q.command && p.params == q.params
                && p.ticket == q.ticket && p.attempts == 1 && p.deadline == after(
                now,
                m.cfg.cmd_timeout_ms,
            )
        }),
{
    let s = download_deadline(
        upload_deadline(param_ladder(command_ladder(m, now), now), now),
        now,
    );
    command_on_the_wire(s, m.queue[0].command, m.queue[0].params);
    assert(m.queue.drop_first() =~= m.queue.subrange(1, m.queue.len() as int));
}

/// A command whose time is up is repeated, unchanged, while it has attempts
/// left; once it has none it is given up and its asker is told how often it
/// was sent. Before its time is up nothing happens to it.
pub proof fn overdue_command_is_repeated(m: LinkModel, p: Pending, now: u64)
    requires
        m.pending == Some(p),
    ensures
        ({
            let r = command_ladder(m, now);
            let a = r.outbox[m.outbox.len() as int];
            if now < p.deadline {
                r == m
            } else if p.attempts < m.cfg.cmd_attempts {
                &&& r.outbox.len() == m.outbox.len() + 1
                &&& r.outbox.drop_last() == m.outbox
                &&& sends(a, m.cfg, m.seq, 76)
                &&& holds_command(sent_payload(a), m.cfg, p.command, p.params)
                &&& r.pending matches Some(q) && q.command == p.command && q.params == p.params
                    && q.ticket == p.ticket && q.attempts == p.attempts + 1 && q.deadline == after(
                    now,
                    m.cfg.cmd_timeout_ms,
                )
                &&& r.queue == m.queue
            } else {
                &&& r.pending is None
                &&& r.queue == m.queue
                &&& p.ticket is None ==> r.outbox == m.outbox
                &&& p.ticket matches Some(t) ==> r.outbox == m.outbox.push(
                    ActionModel::Reply(
                        t,
                        ReplyModel::Command(CmdAck::Timeout { attempts: p.attempts }),
                    ),
                )
            }
        }),
{
    command_on_the_wire(m, p.command, p.params);
}

/// One turn looks after everything that waits: an overdue command is sent
/// again or given up, an overdue parameter write likewise, an overdue upload or
/// download is given up, and what is not overdue goes on waiting. Nothing that
/// was to be done before is lost.
#[verifier::rlimit(60)]
pub proof fn one_turn_looks_after_everything(m: LinkModel, now: u64)
    ensures
        ({
            let r = serviced(m, now);
            let n = m.outbox.len() as int;
            &&& r.outbox.len() >= n
            &&& r.outbox.subrange(0, n) == m.outbox
            &&& m.pending matches Some(p) ==> {
                &&& now < p.deadline ==> r.pending == m.pending && r.queue == m.queue
                &&& now >= p.deadline && p.attempts < m.cfg.cmd_attempts ==> sends(
                    r.outbox[n],
                    m.cfg,
                    m.seq,
                    76,
                ) && holds_command(sent_payload(r.outbox[n]), m.cfg, p.command, p.params) && (
                r.pending matches Some(q) && q.command == p.command && q.params == p.params
                    && q.ticket == p.ticket && q.attempts == p.attempts + 1)
                &&& now >= p.deadline && p.attempts >= m.cfg.cmd_attempts ==> (p.ticket matches Some(
                    t,
                ) ==> r.outbox[n] == ActionModel::Reply(
                    t,
                    ReplyModel::Command(CmdAck::Timeout { attempts: p.attempts }),
                )) && (m.queue.len() == 0 ==> r.pending is None)
            }
            &&& m.param matches Some(w) ==> {
                &&& now < w.deadline ==> r.param == m.param
                &&& now >= w.deadline && w.attempts < m.cfg.cmd_attempts ==> (r.param matches Some(v)
                    && v.attempts == w.attempts + 1 && v.param_id == w.param_id && v.value
                    == w.value)
                &&& now >= w.deadline && w.attempts >= m.cfg.cmd_attempts ==> r.param is None
            }
            &&& m.upload matches Some(u) ==> (now < u.deadline ==> r.upload == m.upload) && (now
                >= u.deadline ==> r.upload is None)
            &&& m.download matches Some(d) ==> (now < d.deadline ==> r.download == m.download) && (
            now >= d.deadline ==> r.download is None)
            &&& m.param is None ==> r.param is None
            &&& m.upload is None ==> r.upload is None
            &&& m.download is None ==> r.download is None
            &&& r.slot == m.slot
            &&& r.cfg == m.cfg
        }),
{
    let a = command_ladder(m, now);
    let b = param_ladder(a, now);
    let c = upload_deadline(b, now);
    let d = download_deadline(c, now);
    let r = next_command(d, now);
    if m.pending is Some {
        command_on_the_wire(m, m.pending->0.command, m.pending->0.params);
    }
    assert(grows(m.outbox, a.outbox));
    assert(grows(a.outbox, b.outbox));
    assert(grows(b.outbox, c.outbox));
    assert(grows(c.outbox, d.outbox));
    assert(grows(d.outbox, r.outbox));
    assert(r == serviced(m, now));
    let n = m.outbox.len() as int;
    assert(r.outbox.subrange(0, n) =~= m.outbox);
    if a.outbox.len() > n {
        assert(r.outbox[n] == a.outbox[n]);
    }
}

/// One list of actions is another with more behind it.
pub open spec fn grows(a: Seq<ActionModel>, b: Seq<ActionModel>) -> bool {
    a.len() <= b.len() && forall|i: int| 0 <= i < a.len() ==> #[trigger] b[i] == a[i]
}

/// A command asked for is put behind those that wait, as it was given.
pub proof fn requested_command_waits_its_turn(
    m: LinkModel,
    command: u16,
    params: CmdParams,
    ticket: u64,
    now: u64,
)
    ensures
        ({
            let r = taken_up(m, LinkCommand::SendCommand { command, params, ticket }, now);
            &&& r.queue.len() == m.queue.len() + 1
            &&& r.queue.subrange(0, m.queue.len() as int) == m.queue
            &&& r.queue.last().command == command
            &&& r.queue.last().params == params
            &&& r.queue.last().ticket == Some(ticket)
            &&& r.outbox == m.outbox
            &&& r.pending == m.pending
        }),
{
    let r = taken_up(m, LinkCommand::SendCommand { command, params, ticket }, now);
    assert(r.queue.subrange(0, m.queue.len() as int) =~= m.queue);
}

/// The vehicle's answer settles the command in flight where it names that
/// command and is for this manager or for everybody: its asker is told that it
/// was accepted where the result is zero, else refused with that result. Any
/// other answer settles nothing.
pub proof fn answer_settles_its_command(m: LinkModel, f: FrameModel, now: u64)
    requires
        f.msgid == 77,
    ensures
        ({
            let r = frame_handled(m, f, now);
            let result = b8(f.payload, 2);
            let target = b8(f.payload, 8);
            if m.pending is Some && m.pending->0.command == b16(f.payload, 0) && (target == 0
                || target == m.cfg.manager_sysid) {
                &&& r.pending is None
                &&& m.pending->0.ticket is None ==> r.outbox.len() == m.outbox.len() + 1
                &&& m.pending->0.ticket matches Some(t) ==> {
                    &&& r.outbox.len() == m.outbox.len() + 2
                    &&& r.outbox[m.outbox.len() as int] == ActionModel::Reply(
                        t,
                        ReplyModel::Command(
                            if result == 0 {
                                CmdAck::Accepted
                            } else {
                                CmdAck::Rejected { result: result as u8 }
                            },
                        ),
                    )
                }
            } else {
                r.pending == m.pending && r.outbox.len() == m.outbox.len() + 1
            }
        }),
{
    reveal(frame_handled);
    joins16(f.payload, 0);
}

// The setpoint stream.

#[verifier::spinoff_prover]
#[verifier::rlimit(80)]
proof fn setpoint_fields(p: Seq<u8>, t: SetPositionTarget)
    requires
        forall|i: int| #[trigger] b8(p, i) == byte_of(t.bytes(), i),
    ensures
        b32(p, 0) == t.time_boot_ms,
        b32(p, 4) == t.position.x,
        b32(p, 8) == t.position.y,
        b32(p, 12) == t.position.z,
        b32(p, 16) == t.velocity.x,
        b32(p, 20) == t.velocity.y,
        b32(p, 24) == t.velocity.z,
        b32(p, 28) == 0,
        b32(p, 32) == 0,
        b32(p, 36) == 0,
        b32(p, 40) == t.yaw,
        b32(p, 44) == t.yaw_rate,
        b16(p, 48) == t.type_mask,
        b8(p, 50) == t.target_system,
        b8(p, 51) == t.target_component,
        b8(p, 52) == t.coordinate_frame,
{
    let b = t.bytes();
    assert(b.len() == 53);
    same_bytes(p, b);
    holds32(p, 0, t.time_boot_ms);
    holds32(p, 4, t.position.x);
    holds32(p, 8, t.position.y);
    holds32(p, 12, t.position.z);
    holds32(p, 16, t.velocity.x);
    holds32(p, 20, t.velocity.y);
    holds32(p, 24, t.velocity.z);
    holds32(p, 28, 0);
    holds32(p, 32, 0);
    holds32(p, 36, 0);
    holds32(p, 40, t.yaw);
    holds32(p, 44, t.yaw_rate);
    holds16(p, 48, t.type_mask);
}

/// The three values from byte `i` on.
pub open spec fn holds_vec3(p: Seq<u8>, i: int, v: Vec3) -> bool {
    b32(p, i) == v.x && b32(p, i + 4) == v.y && b32(p, i + 8) == v.z
}

pub open spec fn all_zero(p: Seq<u8>, from: int, to: int) -> bool {
    forall|i: int| from <= i < to ==> #[trigger] b8(p, i) == 0
}

/// A period of an active stream sends one SET_POSITION_TARGET_LOCAL_NED frame
/// to the vehicle, stamped with the link's time. In position mode it holds the
/// slot's new position and yaw: the stepped position and the goal's yaw where
/// there is a goal, else those the slot had. In velocity mode it holds the
/// slot's velocity and yaw rate. All other fields are zero, and the mask says
/// which are to be used. A stream that is not active sends nothing.
#[verifier::spinoff_prover]
#[verifier::rlimit(40)]
pub proof fn setpoint_is_streamed(m: LinkModel, now: u64, stepped: Vec3)
    ensures
        ({
            let r = setpoint_pumped(m, now, stepped);
            let a = r.outbox[m.outbox.len() as int];
            let p = sent_payload(a);
            if !m.slot.active {
                r == m
            } else {
                &&& r.outbox.len() == m.outbox.len() + 1
                &&& r.outbox.drop_last() == m.outbox
                &&& sends(a, m.cfg, m.seq, 84)
                &&& b32(p, 0) == now as int % 0x1_0000_0000
                &&& all_zero(p, 28, 40)
                &&& for_vehicle(m.cfg, b8(p, 50), b8(p, 51))
                &&& b8(p, 52) == 1
                &&& if m.slot.velocity_mode {
                    &&& r.slot == m.slot
                    &&& all_zero(p, 4, 16)
                    &&& holds_vec3(p, 16, m.slot.velocity)
                    &&& all_zero(p, 40, 44)
                    &&& b32(p, 44) == m.slot.yaw_rate
                    &&& b16(p, 48) == 0x05C7
                } else {
                    &&& m.slot.goal is None ==> r.slot == m.slot
                    &&& m.slot.goal matches Some(g) ==> r.slot.current == stepped && r.slot.yaw
                        == g.yaw && r.slot.goal == Some(g) && r.slot.active
                        && !r.slot.velocity_mode
                    &&& holds_vec3(p, 4, r.slot.current)
                    &&& all_zero(p, 16, 28)
                    &&& b32(p, 40) == r.slot.yaw
                    &&& all_zero(p, 44, 48)
                    &&& b16(p, 48) == 0x09F8
                }
            }
        }),
{
    if m.slot.active {
        let slot = crate::link::slot_stepped(m.slot, stepped);
        let base = SetPositionTarget {
            time_boot_ms: now as u32,
            position: crate::link::zero_vec3(),
            velocity: crate::link::zero_vec3(),
            yaw: 0,
            yaw_rate: 0,
            type_mask: crate::modes::POSITION_ONLY,
            target_system: crate::link::vehicle_sysid(m.cfg),
            target_component: crate::link::TARGET_COMPONENT,
            coordinate_frame: 1,
        };
        let t = if slot.velocity_mode {
            SetPositionTarget {
                velocity: slot.velocity,
                yaw_rate: slot.yaw_rate,
                type_mask: crate::modes::VELOCITY_YAWRATE,
                ..base
            }
        } else {
            SetPositionTarget { position: slot.current, yaw: slot.yaw, ..base }
        };
        let b = t.bytes();
        assert(b == crate::link::setpoint_payload(m.cfg, slot, now));
        assert(b.len() == 53);
        let n = LinkModel { slot, ..m };
        sent_on_the_wire(n, 84, b);
        let p = sent_payload(sending(n, 84, b).outbox.last());
        setpoint_fields(p, t);
        same_bytes(p, b);
        assert((now as u32) as u64 == now % 0x1_0000_0000) by (bit_vector);
        zeros_apart(p, 4);
        zeros_apart(p, 8);
        zeros_apart(p, 12);
        zeros_apart(p, 16);
        zeros_apart(p, 20);
        zeros_apart(p, 24);
        zeros_apart(p, 28);
        zeros_apart(p, 32);
        zeros_apart(p, 36);
        zeros_apart(p, 40);
        zeros_apart(p, 44);
    }
}

proof fn zeros_apart(p: Seq<u8>, i: int)
    ensures
        b32(p, i) == 0 ==> b8(p, i) == 0 && b8(p, i + 1) == 0 && b8(p, i + 2) == 0 && b8(p, i + 3)
            == 0,
        forall|k: int| 0 <= #[trigger] b8(p, k) < 256,
{
}

/// A vehicle held at a point is streamed that point and that yaw, whatever the
/// stream did before, and stays there for as long as its profile steps end
/// where they began.
pub proof fn held_point_is_streamed(m: LinkModel, position: Vec3, yaw: u32, now: u64)
    ensures
        ({
            let h = LinkModel { slot: slot_held(m.slot, position, yaw), ..m };
            let r = setpoint_pumped(h, now, position);
            let p = sent_payload(r.outbox[m.outbox.len() as int]);
            &&& sends(r.outbox[m.outbox.len() as int], m.cfg, m.seq, 84)
            &&& holds_vec3(p, 4, position)
            &&& b32(p, 40) == yaw
            &&& b16(p, 48) == 0x09F8
            &&& r.slot == h.slot
            &&& h.slot.cruise_ms == m.slot.cruise_ms
        }),
{
    let h = LinkModel { slot: slot_held(m.slot, position, yaw), ..m };
    setpoint_is_streamed(h, now, position);
}

/// A stream sent to a goal leaves velocity mode and steps from where it
/// stands: the next period streams the stepped position with the goal's yaw.
/// A stream that was not active stays so.
pub proof fn goal_is_streamed(m: LinkModel, goal: SetpointGoal, stepped: Vec3, now: u64)
    ensures
        ({
            let g = LinkModel { slot: slot_sent_to(m.slot, goal), ..m };
            let r = setpoint_pumped(g, now, stepped);
            let p = sent_payload(r.outbox[m.outbox.len() as int]);
            &&& g.slot.current == m.slot.current
            &&& g.slot.active == m.slot.active
            &&& g.slot.cruise_ms == m.slot.cruise_ms
            &&& g.slot.goal == Some(goal)
            &&& m.slot.active ==> holds_vec3(p, 4, stepped) && b32(p, 40) == goal.yaw && b16(p, 48)
                == 0x09F8 && r.slot.goal == Some(goal)
            &&& !m.slot.active ==> r.outbox == m.outbox
        }),
{
    let g = LinkModel { slot: slot_sent_to(m.slot, goal), ..m };
    setpoint_is_streamed(g, now, stepped);
}

/// A stream given a velocity streams that velocity and yaw rate, and a stopped
/// one sends nothing more.
pub proof fn velocity_is_streamed(
    m: LinkModel,
    velocity: Vec3,
    yaw_rate: u32,
    stepped: Vec3,
    now: u64,
)
    ensures
        ({
            let v = LinkModel { slot: slot_moving(m.slot, velocity, yaw_rate), ..m };
            let r = setpoint_pumped(v, now, stepped);
            let p = sent_payload(r.outbox[m.outbox.len() as int]);
            let stopped = LinkModel { slot: slot_stopped(v.slot), ..v };
            &&& v.slot.active == m.slot.active
            &&& v.slot.goal == m.slot.goal
            &&& v.slot.current == m.slot.current
            &&& m.slot.active ==> holds_vec3(p, 16, velocity) && b32(p, 44) == yaw_rate && b16(
                p,
                48,
            ) == 0x05C7
            &&& setpoint_pumped(stopped, now, stepped).outbox == m.outbox
            &&& stopped.slot.velocity == velocity
            &&& stopped.slot.goal == m.slot.goal
        }),
{
    let v = LinkModel { slot: slot_moving(m.slot, velocity, yaw_rate), ..m };
    setpoint_is_streamed(v, now, stepped);
}

// Parameters.

/// A payload holds a parameter write: the value's bits, the vehicle, sixteen
/// bytes of name and the type of the value.
pub open spec fn holds_write(
    p: Seq<u8>,
    cfg: LinkConfig,
    id: Seq<u8>,
    value: u32,
    param_type: u8,
) -> bool {
    &&& b32(p, 0) == value
    &&& for_vehicle(cfg, b8(p, 4), b8(p, 5))
    &&& forall|i: int| 0 <= i < 16 ==> #[trigger] b8(p, 6 + i) == b8(id, i)
    &&& b8(p, 22) == param_type
}

proof fn write_on_the_wire(m: LinkModel, id: Seq<u8>, value: u32, param_type: u8)
    ensures
        ({
            let b = crate::link::param_payload(m.cfg, id, value, param_type);
            let out = sending(m, 23, b).outbox;
            &&& out.len() == m.outbox.len() + 1
            &&& out.drop_last() == m.outbox
            &&& sends(out.last(), m.cfg, m.seq, 23)
            &&& holds_write(sent_payload(out.last()), m.cfg, id, value, param_type)
        }),
{
    let b = crate::link::param_payload(m.cfg, id, value, param_type);
    assert(b.len() == 23);
    sent_on_the_wire(m, 23, b);
    let p = sent_payload(sending(m, 23, b).outbox.last());
    same_bytes(p, b);
    holds32(p, 0, value);
    assert forall|i: int| 0 <= i < 16 implies #[trigger] b8(p, 6 + i) == b8(id, i) by {
        assert(b[6 + i] == byte_of(id, i));
    }
}

/// A parameter write goes out at once: one PARAM_SET frame to the vehicle with
/// the value, its type and at most fifteen bytes of the name. It then waits for
/// the echo as the first attempt.
pub proof fn parameter_write_is_sent(
    m: LinkModel,
    param_id: String,
    value: u32,
    param_type: u8,
    ticket: u64,
    now: u64,
)
    ensures
        ({
            let r = taken_up(m, LinkCommand::SetParam { param_id, value, param_type, ticket }, now);
            let a = r.outbox[m.outbox.len() as int];
            let id = vstd::utf8::encode_utf8(param_id@);
            &&& sends(a, m.cfg, m.seq, 23)
            &&& r.param matches Some(w) && {
                &&& w.value == value
                &&& w.param_type == param_type
                &&& w.ticket == ticket
                &&& w.attempts == 1
                &&& w.deadline == after(now, 600)
                &&& w.param_id.len() == (if id.len() < 15 {
                    id.len()
                } else {
                    15
                })
                &&& forall|i: int| 0 <= i < w.param_id.len() ==> w.param_id[i] == id[i]
                &&& holds_write(sent_payload(a), m.cfg, w.param_id, value, param_type)
            }
        }),
{
    let id = first_bytes(vstd::utf8::encode_utf8(param_id@), 15);
    write_on_the_wire(m, id, value, param_type);
}

/// A write whose echo is overdue is repeated, unchanged, while it has attempts
/// left; once it has none its asker is told that no echo came.
pub proof fn overdue_write_is_repeated(m: LinkModel, w: ParamWrite, now: u64)
    requires
        m.param == Some(w),
    ensures
        ({
            let r = param_ladder(m, now);
            let a = r.outbox[m.outbox.len() as int];
            if now < w.deadline {
                r == m
            } else if w.attempts < m.cfg.cmd_attempts {
                &&& r.outbox.len() == m.outbox.len() + 1
                &&& sends(a, m.cfg, m.seq, 23)
                &&& holds_write(sent_payload(a), m.cfg, w.param_id, w.value, w.param_type)
                &&& r.param matches Some(v) && v.param_id == w.param_id && v.value == w.value
                    && v.param_type == w.param_type && v.ticket == w.ticket && v.attempts
                    == w.attempts + 1 && v.deadline == after(now, 600)
            } else {
                &&& r.param is None
                &&& r.outbox == m.outbox.push(
                    ActionModel::Reply(w.ticket, ReplyModel::Param(None)),
                )
            }
        }),
{
    write_on_the_wire(m, w.param_id, w.value, w.param_type);
}

/// A request for all parameters is one PARAM_REQUEST_LIST frame to the
/// vehicle, and its asker is told at once that it was sent.
pub proof fn parameter_list_is_requested(m: LinkModel, ticket: u64, now: u64)
    ensures
        ({
            let r = taken_up(m, LinkCommand::RequestParamList { ticket }, now);
            let a = r.outbox[m.outbox.len() as int];
            &&& r.outbox.len() == m.outbox.len() + 2
            &&& sends(a, m.cfg, m.seq, 21)
            &&& for_vehicle(m.cfg, b8(sent_payload(a), 0), b8(sent_payload(a), 1))
            &&& r.outbox.last() == ActionModel::Reply(ticket, ReplyModel::ParamList(true))
        }),
{
    let b = ParamRequestList {
        target_system: crate::link::vehicle_sysid(m.cfg),
        target_component: crate::link::TARGET_COMPONENT,
    }.bytes();
    sent_on_the_wire(m, 21, b);
    let p = sent_payload(sending(m, 21, b).outbox.last());
    same_bytes(p, b);
    assert(b8(p, 0) == b[0] && b8(p, 1) == b[1]);
}

// Downloading a mission.

#[verifier::rlimit(40)]
proof fn request_on_the_wire(m: LinkModel, seq: u16, mission_type: u8)
    ensures
        ({
            let b = crate::link::request_payload(m.cfg, seq, mission_type);
            let out = sending(m, 40, b).outbox;
            let p = sent_payload(out.last());
            &&& out.len() == m.outbox.len() + 1
            &&& out.drop_last() == m.outbox
            &&& sends(out.last(), m.cfg, m.seq, 40)
            &&& b16(p, 0) == seq
            &&& for_vehicle(m.cfg, b8(p, 2), b8(p, 3))
            &&& b8(p, 4) == mission_type
        }),
{
    let b = crate::link::request_payload(m.cfg, seq, mission_type);
    assert(b.len() == 5);
    sent_on_the_wire(m, 40, b);
    let p = sent_payload(sending(m, 40, b).outbox.last());
    same_bytes(p, b);
    assert(b8(p, 0) == b[0] && b8(p, 1) == b[1] && b8(p, 2) == b[2] && b8(p, 3) == b[3] && b8(p, 4)
        == b[4]);
    holds16(p, 0, seq);
}

/// A download begins with one MISSION_REQUEST_LIST frame to the vehicle for
/// the kind of mission asked for, and with no items.
pub proof fn download_asks_for_the_list(m: LinkModel, mission_type: u8, ticket: u64, now: u64)
    ensures
        ({
            let r = taken_up(m, LinkCommand::MissionDownload { mission_type, ticket }, now);
            let a = r.outbox[m.outbox.len() as int];
            let p = sent_payload(a);
            &&& sends(a, m.cfg, m.seq, 43)
            &&& for_vehicle(m.cfg, b8(p, 0), b8(p, 1))
            &&& b8(p, 2) == mission_type
            &&& r.download matches Some(d) && d.mission_type == mission_type && d.ticket == ticket
                && d.items.len() == 0 && d.deadline == after(now, 30_000)
        }),
{
    let b = MissionRequestList {
        target_system: crate::link::vehicle_sysid(m.cfg),
        target_component: crate::link::TARGET_COMPONENT,
        mission_type,
    }.bytes();
    sent_on_the_wire(m, 43, b);
    let p = sent_payload(sending(m, 43, b).outbox.last());
    same_bytes(p, b);
    assert(b8(p, 0) == b[0] && b8(p, 1) == b[1] && b8(p, 2) == b[2]);
}

/// The vehicle's count starts a download over: the first item is asked for,
/// and as many are expected as the vehicle said. A count of another kind of
/// mission changes nothing.
#[verifier::rlimit(40)]
pub proof fn count_starts_the_download(m: LinkModel, f: FrameModel, now: u64)
    requires
        f.msgid == 44,
    ensures
        ({
            let r = frame_handled(m, f, now);
            let a = r.outbox[m.outbox.len() as int];
            let p = sent_payload(a);
            if m.download is Some && m.download->0.mission_type == b8(f.payload, 4) {
                let d = m.download->0;
                &&& r.outbox.len() == m.outbox.len() + 2
                &&& sends(a, m.cfg, m.seq, 40)
                &&& b16(p, 0) == 0
                &&& for_vehicle(m.cfg, b8(p, 2), b8(p, 3))
                &&& b8(p, 4) == d.mission_type
                &&& r.download matches Some(e) && e.mission_type == d.mission_type && e.ticket
                    == d.ticket && e.items.len() == 0 && e.expected_count == b16(f.payload, 0)
                    && e.deadline == after(now, 30_000)
            } else {
                r.download == m.download && r.outbox.len() == m.outbox.len() + 1
            }
        }),
{
    reveal(frame_handled);
    joins16(f.payload, 0);
    if m.download is Some {
        let s = crate::link::contacted(crate::link::frame_counted(m, f, now), f);
        request_on_the_wire(s, 0, m.download->0.mission_type);
    }
}

/// The item a payload carries.
pub open spec fn is_item(item: MissionItemInt, p: Seq<u8>) -> bool {
    &&& item.param1 == b32(p, 0)
    &&& item.param2 == b32(p, 4)
    &&& item.param3 == b32(p, 8)
    &&& item.param4 == b32(p, 12)
    &&& item.x == signed(b32(p, 16), 0x1_0000_0000)
    &&& item.y == signed(b32(p, 20), 0x1_0000_0000)
    &&& item.z == b32(p, 24)
    &&& item.seq == b16(p, 28)
    &&& item.command == b16(p, 30)
    &&& item.target_system == b8(p, 32)
    &&& item.target_component == b8(p, 33)
    &&& item.frame == b8(p, 34)
    &&& item.current == b8(p, 35)
    &&& item.autocontinue == b8(p, 36)
    &&& item.mission_type == b8(p, 37)
}

/// An item of a running download is kept as the vehicle sent it, and the one
/// after it is asked for; after the last one the vehicle is told that the
/// mission was received, and the asker gets all items in the order in which
/// they came. An item of another kind of mission changes nothing.
#[verifier::rlimit(40)]
pub proof fn item_advances_the_download(m: LinkModel, f: FrameModel, now: u64)
    requires
        f.msgid == 73,
        b16(f.payload, 28) < 0xffff,
    ensures
        ({
            let r = frame_handled(m, f, now);
            let a = r.outbox[m.outbox.len() as int];
            let p = sent_payload(a);
            let next = b16(f.payload, 28) + 1;
            if m.download is Some && m.download->0.mission_type == b8(f.payload, 37) {
                let d = m.download->0;
                if next < d.expected_count {
                    &&& r.outbox.len() == m.outbox.len() + 2
                    &&& sends(a, m.cfg, m.seq, 40)
                    &&& b16(p, 0) == next
                    &&& for_vehicle(m.cfg, b8(p, 2), b8(p, 3))
                    &&& b8(p, 4) == d.mission_type
                    &&& r.download matches Some(e) && e.items.len() == d.items.len() + 1
                        && e.items.drop_last() == d.items && is_item(e.items.last(), f.payload)
                        && e.mission_type == d.mission_type && e.ticket == d.ticket
                        && e.expected_count == d.expected_count && e.deadline == after(now, 30_000)
                } else {
                    &&& r.outbox.len() == m.outbox.len() + 3
                    &&& sends(a, m.cfg, m.seq, 47)
                    &&& for_vehicle(m.cfg, b8(p, 0), b8(p, 1))
                    &&& b8(p, 2) == 0
                    &&& b8(p, 3) == d.mission_type
                    &&& r.download is None
                    &&& r.outbox[m.outbox.len() as int + 1] matches ActionModel::Reply(t, reply) && t
                        == d.ticket && (reply matches ReplyModel::Download(
                        DownloadOutcome::Done { mission_type, items },
                    ) && mission_type == d.mission_type && items.len() == d.items.len() + 1
                        && items.drop_last() == d.items && is_item(items.last(), f.payload))
                }
            } else {
                r.download == m.download && r.outbox.len() == m.outbox.len() + 1
            }
        }),
{
    reveal(frame_handled);
    let item = MissionItemInt::of(f.payload);
    item_is_read(f.payload);
    if m.download is Some && m.download->0.mission_type == item.mission_type {
        let d = m.download->0;
        let s = crate::link::contacted(crate::link::frame_counted(m, f, now), f);
        request_on_the_wire(s, (item.seq + 1) as u16, d.mission_type);
        let b = MissionAck {
            target_system: crate::link::vehicle_sysid(m.cfg),
            target_component: crate::link::TARGET_COMPONENT,
            mission_result: 0,
            mission_type: d.mission_type,
        }.bytes();
        sent_on_the_wire(s, 47, b);
        let p = sent_payload(sending(s, 47, b).outbox.last());
        same_bytes(p, b);
        assert(b8(p, 0) == b[0] && b8(p, 1) == b[1] && b8(p, 2) == b[2] && b8(p, 3) == b[3]);
        assert(d.items.push(item).drop_last() =~= d.items);
    }
}

proof fn signed_reads(v: u32)
    ensures
        (v as i32) as int == signed(v as int, 0x1_0000_0000),
{
    assert(v >= 0x8000_0000u32 ==> (v as i32) as i64 == (v as i64) - 0x1_0000_0000i64)
        by (bit_vector);
    assert(v < 0x8000_0000u32 ==> (v as i32) as i64 == v as i64) by (bit_vector);
}

proof fn item_is_read(p: Seq<u8>)
    ensures
        is_item(MissionItemInt::of(p), p),
{
    joins32(p, 0);
    joins32(p, 4);
    joins32(p, 8);
    joins32(p, 12);
    joins32(p, 16);
    joins32(p, 20);
    joins32(p, 24);
    joins16(p, 28);
    joins16(p, 30);
    signed_reads(u32_of(p, 16));
    signed_reads(u32_of(p, 20));
}

/// The vehicle's verdict on an upload of its kind ends it: accepted where the
/// result is zero, else refused. Either way the asker is told how many items
/// went out. A verdict on another kind of mission changes nothing.
pub proof fn verdict_ends_the_upload(m: LinkModel, f: FrameModel, now: u64)
    requires
        f.msgid == 47,
    ensures
        ({
            let r = frame_handled(m, f, now);
            let result = b8(f.payload, 2);
            if m.upload is Some && m.upload->0.mission_type == b8(f.payload, 3) {
                let u = m.upload->0;
                &&& r.upload is None
                &&& r.outbox.len() == m.outbox.len() + 2
                &&& r.outbox[m.outbox.len() as int] matches ActionModel::Reply(t, reply) && t
                    == u.ticket && if result == 0 {
                    reply matches ReplyModel::Upload(
                        UploadOutcome::Done { mission_type, items_sent, items_acked },
                    ) && mission_type == u.mission_type && items_sent == u.items_sent
                        && items_acked == u.items_sent
                } else {
                    reply matches ReplyModel::Upload(
                        UploadOutcome::Failed { mission_type, reason, items_sent, items_acked },
                    ) && mission_type == u.mission_type && items_sent == u.items_sent
                        && items_acked == u.items_sent && reason == "PX4 rejected mission (result="@
                        + decimal(result as nat) + ")"@
                }
            } else {
                r.upload == m.upload && r.outbox.len() == m.outbox.len() + 1
            }
        }),
{
    reveal(frame_handled);
}

/// An upload or a download that nothing has moved on until its deadline is
/// given up there and then, and its asker is told; before, nothing happens.
pub proof fn silent_transfers_are_given_up(m: LinkModel, now: u64)
    ensures
        ({
            let r = upload_deadline(m, now);
            match m.upload {
                Some(u) => if now < u.deadline {
                    r == m
                } else {
                    &&& r.upload is None
                    &&& r.outbox == m.outbox.push(
                        ActionModel::Reply(
                            u.ticket,
                            ReplyModel::Upload(
                                UploadOutcome::Timeout {
                                    mission_type: u.mission_type,
                                    items_sent: u.items_sent,
                                    items_acked: 0,
                                },
                            ),
                        ),
                    )
                },
                None => r == m,
            }
        }),
        ({
            let r = download_deadline(m, now);
            match m.download {
                Some(d) => if now < d.deadline {
                    r == m
                } else {
                    &&& r.download is None
                    &&& r.outbox == m.outbox.push(
                        ActionModel::Reply(
                            d.ticket,
                            ReplyModel::Download(
                                DownloadOutcome::Timeout { mission_type: d.mission_type },
                            ),
                        ),
                    )
                },
                None => r == m,
            }
        }),
{
}

// Heartbeats and pings.

/// The manager's heartbeat is that of a ground station, with no autopilot, an
/// active state and protocol version three.
pub proof fn heartbeat_presents_the_manager(m: LinkModel)
    ensures
        ({
            let r = heartbeat_sent(m);
            let a = r.outbox.last();
            let p = sent_payload(a);
            &&& r.outbox.len() == m.outbox.len() + 1
            &&& r.outbox.drop_last() == m.outbox
            &&& sends(a, m.cfg, m.seq, 0)
            &&& b32(p, 0) == 0
            &&& b8(p, 4) == 6
            &&& b8(p, 5) == 8
            &&& b8(p, 6) == 1
            &&& b8(p, 7) == 4
            &&& b8(p, 8) == 3
            &&& r.pending == m.pending
            &&& r.queue == m.queue
            &&& r.slot == m.slot
        }),
{
    let b = crate::link::heartbeat_payload();
    assert(b.len() == 9);
    sent_on_the_wire(m, 0, b);
    let p = sent_payload(sending(m, 0, b).outbox.last());
    same_bytes(p, b);
    holds32(p, 0, 0);
    assert(b8(p, 4) == b[4] && b8(p, 5) == b[5] && b8(p, 6) == b[6] && b8(p, 7) == b[7] && b8(p, 8)
        == b[8]);
}

/// A ping is answered with its own time and number, addressed to the system
/// and component it came from.
#[verifier::rlimit(40)]
pub proof fn ping_is_answered(m: LinkModel, f: FrameModel, now: u64)
    requires
        f.msgid == 4,
    ensures
        ({
            let r = frame_handled(m, f, now);
            let a = r.outbox[m.outbox.len() as int];
            let p = sent_payload(a);
            &&& r.outbox.len() == m.outbox.len() + 2
            &&& sends(a, m.cfg, m.seq, 4)
            &&& b64(p, 0) == b64(f.payload, 0)
            &&& b32(p, 8) == b32(f.payload, 8)
            &&& b8(p, 12) == f.sysid
            &&& b8(p, 13) == f.compid
        }),
{
    reveal(frame_handled);
    let q = f.payload;
    let time_usec = u64_of(q, 0);
    let seq = u32_of(q, 8);
    let s = crate::link::contacted(crate::link::frame_counted(m, f, now), f);
    let b = Ping { time_usec, seq, target_system: f.sysid, target_component: f.compid }.bytes();
    assert(b.len() == 14);
    sent_on_the_wire(s, 4, b);
    let p = sent_payload(sending(s, 4, b).outbox.last());
    same_bytes(p, b);
    let lo = u32_of(q, 0);
    let hi = u32_of(q, 4);
    assert((((lo as u64) | ((hi as u64) << 32)) & 0xffff_ffff) as u32 == lo && (((lo as u64) | ((
    hi as u64) << 32)) >> 32) as u32 == hi) by (bit_vector);
    holds32(p, 0, lo);
    holds32(p, 4, hi);
    holds32(p, 8, seq);
    joins32(q, 0);
    joins32(q, 4);
    joins32(q, 8);
}

// Telemetry.

/// The text is what a field of at most `n` bytes from `from` on spells: its
/// bytes up to the first zero, one outside ASCII as a replacement character.
pub open spec fn spells(text: Seq<char>, p: Seq<u8>, from: int, n: int) -> bool {
    &&& text.len() <= n
    &&& text.len() < n ==> b8(p, from + text.len()) == 0
    &&& forall|i: int| 0 <= i < text.len() ==> stands_for(#[trigger] text[i], b8(p, from + i))
}

/// The character a byte stands for.
pub open spec fn stands_for(c: char, b: int) -> bool {
    &&& b != 0
    &&& b < 128 ==> c as int == b
    &&& b >= 128 ==> c == '\u{FFFD}'
}

proof fn field_is_spelled(p: Seq<u8>, from: int, n: nat)
    ensures
        spells(field_text(p, from, n), p, from, n as int),
    decreases n,
{
    let t = field_text(p, from, n);
    if n > 0 && byte_of(p, from) != 0 {
        let rest = field_text(p, from + 1, (n - 1) as nat);
        field_is_spelled(p, from + 1, (n - 1) as nat);
        assert(t == seq![text_char(byte_of(p, from))] + rest);
        assert forall|i: int| 0 <= i < t.len() implies stands_for(
            #[trigger] t[i],
            b8(p, from + i),
        ) by {
            if i > 0 {
                assert(t[i] == rest[i - 1]);
                assert(b8(p, (from + 1) + (i - 1)) == b8(p, from + i));
            }
        }
        assert(b8(p, from + 1 + rest.len()) == b8(p, from + t.len()));
    }
}

proof fn signed_byte_reads(v: u8)
    ensures
        (v as i8) as int == signed(v as int, 0x100),
{
    assert(v >= 0x80u8 ==> (v as i8) as i16 == (v as i16) - 0x100i16) by (bit_vector);
    assert(v < 0x80u8 ==> (v as i8) as i16 == v as i16) by (bit_vector);
}

/// The three values from byte `i` on, as a vector.
pub open spec fn is_vec3(v: Vec3, p: Seq<u8>, i: int) -> bool {
    v.x == b32(p, i) && v.y == b32(p, i + 4) && v.z == b32(p, i + 8)
}

/// What each message reports, each value from its own bytes.
pub open spec fn reports(e: EventModel, f: FrameModel) -> bool {
    let p = f.payload;
    if f.msgid == 0 {
        e matches EventModel::Heartbeat { sysid, compid, base_mode, custom_mode } && sysid
            == f.sysid && compid == f.compid && base_mode == b8(p, 6) && custom_mode == b32(p, 0)
    } else if f.msgid == 1 {
        e matches EventModel::SysStatus { voltage_battery_mv, battery_remaining_pct }
            && voltage_battery_mv == b16(p, 14) && battery_remaining_pct == signed(b8(p, 30), 0x100)
    } else if f.msgid == 4 {
        e matches EventModel::Ping { time_usec, seq } && time_usec == b64(p, 0) && seq == b32(p, 8)
    } else if f.msgid == 22 {
        e matches EventModel::ParamValue { param_id, value, param_type, param_count, param_index }
            && value == b32(p, 0) && param_count == b16(p, 4) && param_index == b16(p, 6) && spells(
            param_id,
            p,
            8,
            16,
        ) && param_type == b8(p, 24)
    } else if f.msgid == 30 {
        e matches EventModel::Attitude { roll, pitch, yaw } && roll == b32(p, 4) && pitch == b32(
            p,
            8,
        ) && yaw == b32(p, 12)
    } else if f.msgid == 32 {
        e matches EventModel::LocalPositionNed { position, velocity } && is_vec3(position, p, 4)
            && is_vec3(velocity, p, 16)
    } else if f.msgid == 33 {
        e matches EventModel::GlobalPositionInt { lat, lon, alt, relative_alt } && lat == signed(
            b32(p, 4),
            0x1_0000_0000,
        ) && lon == signed(b32(p, 8), 0x1_0000_0000) && alt == signed(b32(p, 12), 0x1_0000_0000)
            && relative_alt == signed(b32(p, 16), 0x1_0000_0000)
    } else if f.msgid == 77 {
        e matches EventModel::CommandAck { command, result, target_system, target_component }
            && command == b16(p, 0) && result == b8(p, 2) && target_system == b8(p, 8)
            && target_component == b8(p, 9)
    } else if f.msgid == 147 {
        e matches EventModel::BatteryStatus { voltage_mv, battery_remaining_pct } && voltage_mv
            == b16(p, 10) && battery_remaining_pct == signed(b8(p, 35), 0x100)
    } else if f.msgid == 242 {
        e matches EventModel::HomePosition { position } && is_vec3(position, p, 12)
    } else if f.msgid == 253 {
        e matches EventModel::StatusText { severity, text } && severity == b8(p, 0) && spells(
            text,
            p,
            1,
            50,
        )
    } else {
        e matches EventModel::Unknown { msgid, len } && msgid == f.msgid && len == p.len()
    }
}

/// Every received frame is decoded into what its message reports.
pub proof fn telemetry_is_decoded(f: FrameModel)
    ensures
        reports(event_of(f), f),
{
    let p = f.payload;
    joins32(p, 0);
    joins32(p, 4);
    joins32(p, 8);
    joins32(p, 12);
    joins32(p, 16);
    joins32(p, 20);
    joins32(p, 24);
    joins16(p, 0);
    joins16(p, 4);
    joins16(p, 6);
    joins16(p, 10);
    joins16(p, 14);
    signed_reads(u32_of(p, 4));
    signed_reads(u32_of(p, 8));
    signed_reads(u32_of(p, 12));
    signed_reads(u32_of(p, 16));
    signed_byte_reads(byte_of(p, 30));
    signed_byte_reads(byte_of(p, 35));
    field_is_spelled(p, 8, 16);
    field_is_spelled(p, 1, 50);
    joins64(p, 0);
}

/// What a received frame reports is handed on, once, after everything else the
/// frame gave rise to.
pub proof fn received_frame_is_published(m: LinkModel, f: FrameModel, now: u64)
    ensures
        ({
            let r = frame_handled(m, f, now);
            &&& r.outbox.len() > m.outbox.len()
            &&& r.outbox.subrange(0, m.outbox.len() as int) == m.outbox
            &&& r.outbox.last() matches ActionModel::Publish(e) && reports(e, f)
            &&& r.last_recv_ms == Some(now)
            &&& f.msgid == 0 ==> r.last_heartbeat_ms == Some(now)
            &&& f.msgid != 0 ==> r.last_heartbeat_ms == m.last_heartbeat_ms
            &&& count_at(r.stats.msg_counts, f.msgid) == count_at(
                m.stats.msg_counts,
                f.msgid,
            ).wrapping_add(1)
            &&& r.slot == m.slot
        }),
{
    reveal(frame_handled);
    telemetry_is_decoded(f);
    assert(frame_handled(m, f, now).outbox.subrange(0, m.outbox.len() as int) =~= m.outbox);
}

/// What the vehicle reports is what is known of it: after a received frame is
/// observed, position, attitude, velocity, battery, home, mode and armed state
/// are the values of the frame's own bytes.
pub proof fn received_state_is_tracked(v: VehicleModel, f: FrameModel, now: u64)
    ensures
        ({
            let w = observed(v, event_of(f), now);
            let p = f.payload;
            &&& f.msgid == 33 ==> w.lat_deg_e7 == signed(b32(p, 4), 0x1_0000_0000) && w.lon_deg_e7
                == signed(b32(p, 8), 0x1_0000_0000) && w.alt_mm == signed(b32(p, 12), 0x1_0000_0000)
                && w.relative_alt_mm == signed(b32(p, 16), 0x1_0000_0000)
            &&& f.msgid == 32 ==> is_vec3(w.position_ned_m, p, 4) && is_vec3(
                w.velocity_ned_ms,
                p,
                16,
            )
            &&& f.msgid == 30 ==> is_vec3(w.attitude_rpy, p, 4)
            &&& f.msgid == 1 ==> w.voltage_mv == Some(b16(p, 14) as u16) && w.battery_pct == signed(
                b8(p, 30),
                0x100,
            )
            &&& f.msgid == 147 ==> w.voltage_mv == Some(b16(p, 10) as u16) && w.battery_pct
                == signed(b8(p, 35), 0x100)
            &&& f.msgid == 242 ==> is_vec3(w.home_ned_m, p, 12) && w.home_set
            &&& f.msgid == 0 && f.sysid == v.index + 1 ==> w.mode_word == b32(p, 0) && w.armed == (
            b8(p, 6) >= 128) && w.sysid == f.sysid && w.compid == f.compid
            &&& w.last_msg_ms == now
        }),
{
    telemetry_is_decoded(f);
    reports_are_read_back(v, event_of(f), now);
}

// Modes and subscriptions.

/// A mode change carries a one, the main mode and the sub mode as numbers: the
/// third and the fourth byte of the packed word.
pub proof fn mode_change_takes_the_word_apart(word: u32)
    ensures
        ({
            let c = mode_change(word);
            &&& c.p1 == 0x3F80_0000
            &&& is_whole(c.p2, ((word as int / 0x1_0000) % 0x100) as nat)
            &&& is_whole(c.p3, (word as int / 0x100_0000) as nat)
            &&& c.p4 == 0
            &&& c.p5 == 0
            &&& c.p6 == 0
            &&& c.p7 == 0
        }),
{
    assert((word >> 16) & 0xFF == (word / 0x1_0000) % 0x100 && (word >> 24) & 0xFF == word
        / 0x100_0000) by (bit_vector);
    bytes_are_whole(((word as int / 0x1_0000) % 0x100) as nat);
    bytes_are_whole((word as int / 0x100_0000) as nat);
    vstd::arithmetic::power2::lemma2_to64();
    whole_number_has_its_pattern(1, 0);
}

/// A command that asks for message `id` every `interval` microseconds, both as
/// patterns of whole numbers.
pub open spec fn asks_for(q: Queued, id: u32, interval: u32) -> bool {
    &&& q.command == 511
    &&& q.ticket is None
    &&& q.params == (CmdParams { p1: id, p2: interval, p3: 0, p4: 0, p5: 0, p6: 0, p7: 0 })
}

/// The first frame of the vehicle itself has seven messages subscribed to, in
/// order: attitude and local position every 50 milliseconds, then system
/// status, global position, battery, home and status text at the vehicle's own
/// rate. They wait behind what is queued already. A frame of another system,
/// or any later one, asks for nothing.
#[verifier::rlimit(40)]
pub proof fn first_contact_subscribes(m: LinkModel, f: FrameModel, now: u64)
    requires
        m.cfg.instance < 255,
    ensures
        ({
            let r = frame_handled(m, f, now);
            let n = m.queue.len() as int;
            if !m.subscribed && f.sysid == m.cfg.instance + 1 {
                &&& r.subscribed
                &&& r.queue.len() == n + 7
                &&& r.queue.subrange(0, n) == m.queue
                &&& asks_for(r.queue[n], 0x41F0_0000, 0x4743_5000)
                &&& asks_for(r.queue[n + 1], 0x4200_0000, 0x4743_5000)
                &&& asks_for(r.queue[n + 2], 0x3F80_0000, 0)
                &&& asks_for(r.queue[n + 3], 0x4204_0000, 0)
                &&& asks_for(r.queue[n + 4], 0x4313_0000, 0)
                &&& asks_for(r.queue[n + 5], 0x4372_0000, 0)
                &&& asks_for(r.queue[n + 6], 0x437D_0000, 0)
            } else {
                r.subscribed == m.subscribed && r.queue == m.queue
            }
        }),
{
    reveal(frame_handled);
    vstd::arithmetic::power2::lemma2_to64();
    bytes_are_whole(0);
    whole_pattern_is_zero();
    whole_number_has_its_pattern(1, 0);
    whole_number_has_its_pattern(30, 4);
    whole_number_has_its_pattern(32, 5);
    whole_number_has_its_pattern(33, 5);
    whole_number_has_its_pattern(147, 7);
    whole_number_has_its_pattern(242, 7);
    whole_number_has_its_pattern(253, 7);
    whole_number_has_its_pattern(50_000, 15);
    let r = frame_handled(m, f, now);
    assert(r.queue.len() == m.queue.len() || r.queue =~= m.queue + crate::link::subscriptions());
    assert(r.queue.subrange(0, m.queue.len() as int) =~= m.queue);
}

// Parameters reported.

/// A reported parameter settles the write that waits under the same name: its
/// asker gets the value in its own type, a signed integer for type six, a
/// floating-point number for type nine. A report of another parameter leaves
/// the write waiting.
pub proof fn reported_parameter_settles_the_write(m: LinkModel, f: FrameModel, now: u64)
    requires
        f.msgid == 22,
    ensures
        ({
            let r = frame_handled(m, f, now);
            let name = field_text(f.payload, 8, 16);
            let value = b32(f.payload, 0);
            let kind = b8(f.payload, 24);
            if m.param is Some && field_text(m.param->0.param_id, 0, 16) == name {
                &&& r.param is None
                &&& r.outbox.len() == m.outbox.len() + 2
                &&& r.outbox[m.outbox.len() as int] matches ActionModel::Reply(t, reply) && t
                    == m.param->0.ticket && (reply matches ReplyModel::Param(Some(v)) && match v {
                    ParamVal::Int32(i) => kind == 6 && i == signed(value, 0x1_0000_0000),
                    ParamVal::Real32(b) => kind == 9 && b == value,
                    ParamVal::Other(b) => kind != 6 && kind != 9 && b == value,
                })
            } else {
                r.param == m.param && r.outbox.len() == m.outbox.len() + 1
            }
        }),
{
    reveal(frame_handled);
    joins32(f.payload, 0);
    signed_reads(u32_of(f.payload, 0));
}

/// A reported parameter is in the cache from then on, with its value, type and
/// index, and the others stay as they were; one without a name is not kept.
pub proof fn reported_parameter_is_cached(m: LinkModel, f: FrameModel, now: u64, other: Seq<char>)
    requires
        f.msgid == 22,
    ensures
        ({
            let r = frame_handled(m, f, now);
            let name = field_text(f.payload, 8, 16);
            &&& spells(name, f.payload, 8, 16)
            &&& name.len() > 0 ==> {
                &&& r.params.params.contains_key(name)
                &&& r.params.params[name].value == b32(f.payload, 0)
                &&& r.params.params[name].param_index == b16(f.payload, 6)
                &&& r.params.params[name].param_type == b8(f.payload, 24)
                &&& r.params.params[name].last_seen_ms == now
            }
            &&& other != name || name.len() == 0 ==> {
                &&& r.params.params.contains_key(other) == m.params.params.contains_key(other)
                &&& m.params.params.contains_key(other) ==> r.params.params[other]
                    == m.params.params[other]
            }
            &&& b16(f.payload, 4) > 0 ==> r.params.total == b16(f.payload, 4)
            &&& b16(f.payload, 4) == 0 ==> r.params.total == m.params.total
            &&& r.params.last_value_ms == Some(now)
        }),
{
    reveal(frame_handled);
    joins32(f.payload, 0);
    joins16(f.payload, 4);
    joins16(f.payload, 6);
    field_is_spelled(f.payload, 8, 16);
}

// Frames off the wire.

/// A frame at the head of a buffer is decoded by its raw layout, in either
/// version of the protocol, where its message is known and its checksum holds,
/// or its message is not known; what follows it stays buffered.
pub proof fn raw_frame_is_decoded(buf: Seq<u8>)
    requires
        buf.len() >= 8,
        buf[0] == 0xFD || buf[0] == 0xFE,
        buf.len() >= (if buf[0] == 0xFD {
            12int
        } else {
            8int
        }) + buf[1],
    ensures
        ({
            let n = buf[1] as int;
            let two = buf[0] == 0xFD;
            let head = if two {
                10int
            } else {
                6int
            };
            let msgid = if two {
                buf[7] + 0x100 * buf[8] + 0x1_0000 * buf[9]
            } else {
                buf[5] as int
            };
            let sum = crc_byte(crc_of(buf.subrange(1, head + n)), crc_extra_of(msgid as u32)->0);
            let holds = buf[head + n] + 0x100 * buf[head + n + 1] == sum;
            crc_extra_of(msgid as u32) is None || holds ==> {
                &&& first_frame(buf).0 matches Some(f) && f.msgid == msgid && f.seq == (if two {
                    buf[4]
                } else {
                    buf[2]
                }) && f.sysid == (if two {
                    buf[5]
                } else {
                    buf[3]
                }) && f.compid == (if two {
                    buf[6]
                } else {
                    buf[4]
                }) && f.payload == buf.subrange(head, head + n) && f.crc_ok == (crc_extra_of(
                    msgid as u32,
                ) is Some)
                &&& first_frame(buf).1 == buf.subrange(head + n + 2, buf.len() as int)
            }
        }),
{
    let n = buf[1] as int;
    let head = if buf[0] == 0xFD {
        10int
    } else {
        6int
    };
    let w = buf[7];
    let x = buf[8];
    let y = buf[9];
    assert((w as u32) | ((x as u32) << 8) | ((y as u32) << 16) == (w as u32) + 0x100 * (x as u32)
        + 0x1_0000 * (y as u32)) by (bit_vector);
    let lo = buf[head + n];
    let hi = buf[head + n + 1];
    assert((lo as u16) | ((hi as u16) << 8) == (lo as u16) + 0x100 * (hi as u16)) by (bit_vector);
}

/// Twenty-two messages are known, each by its own number and the byte that
/// its checksum is closed with.
pub proof fn known_messages_have_their_extra_byte(msgid: u32)
    ensures
        crc_extra_of(msgid) is Some <==> set![
            0u32, 1, 4, 20, 21, 22, 23, 30, 32, 33, 40, 43, 44, 47, 51, 73, 76, 77, 84, 147, 242,
            253,
        ].contains(msgid),
        crc_extra_of(0) == Some(50u8) && crc_extra_of(1) == Some(124u8) && crc_extra_of(4) == Some(
            237u8,
        ) && crc_extra_of(20) == Some(214u8) && crc_extra_of(21) == Some(159u8) && crc_extra_of(22)
            == Some(220u8) && crc_extra_of(23) == Some(168u8) && crc_extra_of(30) == Some(39u8)
            && crc_extra_of(32) == Some(185u8) && crc_extra_of(33) == Some(104u8) && crc_extra_of(40)
            == Some(228u8) && crc_extra_of(43) == Some(132u8) && crc_extra_of(44) == Some(221u8)
            && crc_extra_of(47) == Some(153u8) && crc_extra_of(51) == Some(226u8) && crc_extra_of(
            73,
        ) == Some(38u8) && crc_extra_of(76) == Some(152u8) && crc_extra_of(77) == Some(143u8)
            && crc_extra_of(84) == Some(143u8) && crc_extra_of(147) == Some(154u8) && crc_extra_of(
            242,
        ) == Some(104u8) && crc_extra_of(253) == Some(83u8),
{
}

// Datagrams received.

/// During a loss of link a datagram changes nothing but the count of those
/// lost; the loss ends at its time, and without one everything is heard.
pub proof fn lost_datagram_only_counts(m: LinkModel, now: u64)
    ensures
        hearing(m, now) <==> (m.link_loss_until matches Some(until) ==> now >= until),
        ({
            let r = datagram_lost(m);
            &&& r.outbox == m.outbox
            &&& r.pending == m.pending
            &&& r.queue == m.queue
            &&& r.slot == m.slot
            &&& r.link_loss_until == m.link_loss_until
            &&& r.last_recv_ms == m.last_recv_ms
            &&& r.stats.counts.recv == m.stats.counts.recv
            &&& r.stats.counts.dropped_link_loss == m.stats.counts.dropped_link_loss.wrapping_add(1)
        }),
        loss_cleared(m).link_loss_until is None,
        loss_cleared(m).outbox == m.outbox,
{
}

/// A datagram of one frame is handled as that frame, and nothing of it stays
/// behind.
pub proof fn one_frame_datagram_is_handled(m: LinkModel, d: Seq<u8>, f: FrameModel, now: u64)
    requires
        0 < d.len() <= 280,
        first_frame(d).0 == Some(f),
        first_frame(d).1.len() == 0,
    ensures
        frames_in(d).len() == 1,
        frames_in(d)[0] == f,
        left_over(d).len() == 0,
        frames_handled(m, frames_in(d), now) == frame_handled(m, f, now),
{
    let none = Seq::<u8>::empty();
    assert(first_frame(d).1 =~= none);
    assert(frames_in(none) =~= Seq::empty());
    assert(left_over(none) =~= none);
    assert(frames_in(d) =~= seq![f]);
    assert(frames_in(d).drop_first() =~= Seq::empty());
    reveal_with_fuel(frames_handled, 2);
}

/// Frames that arrive together are handled in the order in which they stand.
pub proof fn frames_are_handled_in_order(m: LinkModel, f: FrameModel, more: Seq<FrameModel>, now: u64)
    ensures
        frames_handled(m, seq![f] + more, now) == frames_handled(
            frame_handled(m, f, now),
            more,
            now,
        ),
        frames_handled(m, Seq::empty(), now) == m,
{
    let all = seq![f] + more;
    assert(all.drop_first() =~= more);
    assert(all[0] == f);
}

// Counting.

/// Every frame that goes out takes the next sequence number, which starts over
/// after 255, and is counted; nothing else of the link changes.
pub proof fn frames_out_are_numbered(m: LinkModel, msgid: u32, payload: Seq<u8>)
    ensures
        ({
            let r = sending(m, msgid, payload);
            &&& r.seq == (m.seq + 1) % 256
            &&& r.stats.counts.sent == m.stats.counts.sent.wrapping_add(1)
            &&& r.stats.counts.recv == m.stats.counts.recv
            &&& r.stats.msg_counts == m.stats.msg_counts
            &&& r.pending == m.pending
            &&& r.queue == m.queue
            &&& r.param == m.param
            &&& r.upload == m.upload
            &&& r.download == m.download
            &&& r.slot == m.slot
            &&& r.cfg == m.cfg
        }),
{
}

/// Commands, retries, failures, setpoints and heartbeats are each counted as
/// they happen.
pub proof fn events_out_are_counted(m: LinkModel, now: u64, stepped: Vec3)
    ensures
        ({
            let r = next_command(m, now).stats.counts;
            let c = m.stats.counts;
            m.pending is None && m.queue.len() > 0 ==> r.commands_sent == c.commands_sent.wrapping_add(
                1,
            ) && r.sent == c.sent.wrapping_add(1) && r.retries == c.retries
        }),
        ({
            let r = command_ladder(m, now).stats.counts;
            let c = m.stats.counts;
            m.pending is Some && now >= m.pending->0.deadline ==> if m.pending->0.attempts
                < m.cfg.cmd_attempts {
                r.retries == c.retries.wrapping_add(1) && r.commands_sent
                    == c.commands_sent.wrapping_add(1) && r.cmd_failures == c.cmd_failures
            } else {
                r.cmd_failures == c.cmd_failures.wrapping_add(1) && r.retries == c.retries && r.sent
                    == c.sent
            }
        }),
        m.slot.active ==> setpoint_pumped(m, now, stepped).stats.counts.setpoints_sent
            == m.stats.counts.setpoints_sent.wrapping_add(1),
        heartbeat_sent(m).stats.counts.heartbeats_sent
            == m.stats.counts.heartbeats_sent.wrapping_add(1),
{
}

/// Every frame that comes in is counted, one with no valid checksum also among
/// those dropped, and a reported parameter among the parameters.
pub proof fn frames_in_are_counted(m: LinkModel, f: FrameModel, now: u64)
    ensures
        ({
            let r = frame_handled(m, f, now).stats.counts;
            let c = m.stats.counts;
            &&& r.recv == c.recv.wrapping_add(1)
            &&& f.crc_ok ==> r.crc_or_unknown_dropped == c.crc_or_unknown_dropped
            &&& !f.crc_ok ==> r.crc_or_unknown_dropped == c.crc_or_unknown_dropped.wrapping_add(1)
            &&& f.msgid == 22 ==> r.param_values_recv == c.param_values_recv.wrapping_add(1)
            &&& f.msgid != 22 ==> r.param_values_recv == c.param_values_recv
            &&& !m.subscribed && f.sysid == crate::link::vehicle_sysid(m.cfg)
                ==> r.subscribe_requests_sent == c.subscribe_requests_sent.wrapping_add(7)
        }),
{
    reveal(frame_handled);
}

/// A link that has just been opened has sent nothing, waits for nothing and
/// streams nothing; its setpoint, once streamed, moves at four metres a
/// second.
pub proof fn opened_link_is_idle(cfg: LinkConfig)
    ensures
        ({
            let m = opened(cfg);
            &&& m.cfg == cfg
            &&& m.seq == 0
            &&& m.pending is None
            &&& m.queue.len() == 0
            &&& m.param is None
            &&& m.upload is None
            &&& m.download is None
            &&& !m.subscribed
            &&& !m.slot.active
            &&& !m.slot.velocity_mode
            &&& m.slot.goal is None
            &&& m.slot.cruise_ms == 0x4080_0000
            &&& m.link_loss_until is None
            &&& m.last_recv_ms is None
            &&& m.last_heartbeat_ms is None
            &&& m.outbox.len() == 0
            &&& m.stats.counts.sent == 0
            &&& m.stats.counts.recv == 0
            &&& m.stats.counts.retries == 0
            &&& m.stats.counts.cmd_failures == 0
            &&& m.stats.counts.commands_sent == 0
            &&& m.params.count == 0
            &&& m.params.total == 0
            &&& m.params.state is Idle
        }),
{
}

// What askers are told.

/// An answer is handed on as it came. A request that could not even be queued
/// is told as such, and one that was never answered as timed out: a command
/// after three attempts, a transfer with nothing sent.
pub proof fn askers_are_told(
    ack: CmdAck,
    up: UploadOutcome,
    down: DownloadOutcome,
    mission_type: u8,
)
    ensures
        told_of_command(true, Some(ack)) == ack,
        told_of_command(true, None) == (CmdAck::Timeout { attempts: 3 }),
        told_of_command(false, Some(ack)) == (CmdAck::Timeout { attempts: 0 }),
        told_of_command(false, None) == (CmdAck::Timeout { attempts: 0 }),
        told_of_upload(true, Some(up), mission_type) == up,
        told_of_upload(true, None, mission_type) == (UploadOutcome::Timeout {
            mission_type,
            items_sent: 0,
            items_acked: 0,
        }),
        told_of_upload(false, Some(up), mission_type) is Failed,
        told_of_download(true, Some(down), mission_type) == down,
        told_of_download(true, None, mission_type) == (DownloadOutcome::Timeout { mission_type }),
        told_of_download(false, Some(down), mission_type) is Failed,
{
}

/// The goal a period approaches is the slot's, while it is active and streams
/// positions.
pub proof fn active_stream_approaches_its_goal(slot: SetpointSlot)
    ensures
        slot.active && !slot.velocity_mode ==> approached(slot) == slot.goal,
        !slot.active || slot.velocity_mode ==> approached(slot) is None,
{
}

// What is left alone.

/// Each message touches only what it is about: a command's answer the command
/// in flight, a parameter the write and the cache, a request for an item or a
/// verdict the upload, a count or an item the download. Any other message is
/// reported and changes none of them; no message touches the setpoint stream.
pub proof fn messages_touch_their_own(m: LinkModel, f: FrameModel, now: u64)
    ensures
        ({
            let r = frame_handled(m, f, now);
            &&& f.msgid != 77 ==> r.pending == m.pending
            &&& f.msgid != 22 ==> r.param == m.param && r.params == m.params
            &&& f.msgid != 40 && f.msgid != 51 && f.msgid != 47 ==> r.upload == m.upload
            &&& f.msgid != 44 && f.msgid != 73 ==> r.download == m.download
            &&& !set![4u32, 22, 40, 44, 47, 51, 73, 77].contains(f.msgid) ==> r.outbox.len()
                == m.outbox.len() + 1 && r.seq == m.seq
            &&& r.slot == m.slot
            &&& r.cfg == m.cfg
            &&& r.link_loss_until == m.link_loss_until
        }),
{
    reveal(frame_handled);
}

/// Each request touches only what it is about: a command the queue, a
/// parameter write the write that waits, a parameter list the cache, an upload
/// the upload and a download the download. None touches the command in flight
/// or the setpoint stream.
pub proof fn requests_touch_their_own(m: LinkModel, cmd: LinkCommand, now: u64)
    ensures
        ({
            let r = taken_up(m, cmd, now);
            &&& !(cmd is SendCommand) ==> r.queue == m.queue
            &&& !(cmd is SetParam) ==> r.param == m.param
            &&& !(cmd is RequestParamList) ==> r.params == m.params
            &&& !(cmd is MissionUpload) ==> r.upload == m.upload
            &&& !(cmd is MissionDownload) ==> r.download == m.download
            &&& cmd is SendCommand ==> r.seq == m.seq
            &&& !(cmd is SendCommand) ==> r.seq == (m.seq + 1) % 256
            &&& r.pending == m.pending
            &&& r.slot == m.slot
            &&& r.cfg == m.cfg
            &&& r.subscribed == m.subscribed
            &&& r.last_recv_ms == m.last_recv_ms
        }),
{
}

/// Streaming a setpoint or sending a heartbeat touches nothing that waits.
pub proof fn streaming_touches_nothing_else(m: LinkModel, now: u64, stepped: Vec3)
    ensures
        ({
            let r = setpoint_pumped(m, now, stepped);
            let h = heartbeat_sent(m);
            &&& r.pending == m.pending && h.pending == m.pending
            &&& r.queue == m.queue && h.queue == m.queue
            &&& r.param == m.param && h.param == m.param
            &&& r.upload == m.upload && h.upload == m.upload
            &&& r.download == m.download && h.download == m.download
            &&& r.params == m.params && h.params == m.params
            &&& h.slot == m.slot
            &&& r.slot.cruise_ms == m.slot.cruise_ms
            &&& r.slot.velocity == m.slot.velocity
            &&& r.slot.yaw_rate == m.slot.yaw_rate
        }),
{
}

/// More than 4096 bytes that hold no frame are thrown away; fewer are kept
/// for what follows.
pub proof fn overrun_is_thrown_away(buf: Seq<u8>)
    ensures
        buf.len() > 4096 ==> guarded(buf).len() == 0,
        buf.len() <= 4096 ==> guarded(buf) == buf,
{
}

} // verus!
