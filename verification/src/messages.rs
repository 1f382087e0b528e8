//! The MAVLink messages the fleet exchanges with a vehicle: numbering, wire
//! layout and decoding into telemetry events.
//!
//! Payload fields are little-endian and ordered by size, widest first. A
//! payload that arrives short is read as if padded with zero bytes, because
//! senders leave trailing zeros out. Floating-point fields are held as their
//! IEEE bit patterns.

use vstd::prelude::*;
use crate::frame::Frame;
#[allow(unused_imports)]
use crate::frame::{trimmed, FrameModel};
use crate::text::push_decimal;
#[allow(unused_imports)]
use crate::text::decimal;

verus! {

// Message ids.
pub const HEARTBEAT: u32 = 0;

pub const SYS_STATUS: u32 = 1;

pub const PING: u32 = 4;

pub const PARAM_REQUEST_LIST: u32 = 21;

pub const PARAM_VALUE: u32 = 22;

pub const PARAM_SET: u32 = 23;

pub const ATTITUDE: u32 = 30;

pub const LOCAL_POSITION_NED: u32 = 32;

pub const GLOBAL_POSITION_INT: u32 = 33;

pub const MISSION_REQUEST: u32 = 40;

pub const MISSION_REQUEST_LIST: u32 = 43;

pub const MISSION_COUNT: u32 = 44;

pub const MISSION_ACK: u32 = 47;

pub const MISSION_REQUEST_INT: u32 = 51;

pub const MISSION_ITEM_INT: u32 = 73;

pub const COMMAND_LONG: u32 = 76;

pub const COMMAND_ACK: u32 = 77;

pub const SET_POSITION_TARGET_LOCAL_NED: u32 = 84;

pub const BATTERY_STATUS: u32 = 147;

pub const HOME_POSITION: u32 = 242;

pub const STATUSTEXT: u32 = 253;

/// The name a message has in the protocol; a number stands for one without.
pub open spec fn name_of(id: u32) -> Seq<char> {
    match id {
        HEARTBEAT => "HEARTBEAT"@,
        SYS_STATUS => "SYS_STATUS"@,
        PING => "PING"@,
        PARAM_REQUEST_LIST => "PARAM_REQUEST_LIST"@,
        PARAM_VALUE => "PARAM_VALUE"@,
        PARAM_SET => "PARAM_SET"@,
        ATTITUDE => "ATTITUDE"@,
        LOCAL_POSITION_NED => "LOCAL_POSITION_NED"@,
        GLOBAL_POSITION_INT => "GLOBAL_POSITION_INT"@,
        MISSION_REQUEST => "MISSION_REQUEST"@,
        MISSION_REQUEST_LIST => "MISSION_REQUEST_LIST"@,
        MISSION_COUNT => "MISSION_COUNT"@,
        MISSION_ACK => "MISSION_ACK"@,
        MISSION_REQUEST_INT => "MISSION_REQUEST_INT"@,
        MISSION_ITEM_INT => "MISSION_ITEM_INT"@,
        COMMAND_LONG => "COMMAND_LONG"@,
        COMMAND_ACK => "COMMAND_ACK"@,
        SET_POSITION_TARGET_LOCAL_NED => "SET_POSITION_TARGET_LOCAL_NED"@,
        BATTERY_STATUS => "BATTERY_STATUS"@,
        HOME_POSITION => "HOME_POSITION"@,
        STATUSTEXT => "STATUSTEXT"@,
        _ => "MSG_"@ + decimal(id as nat),
    }
}

/// Name a message.
pub fn message_name(id: u32) -> (r: String)
    ensures
        r@ == name_of(id),
{
    let name = match id {
        HEARTBEAT => "HEARTBEAT",
        SYS_STATUS => "SYS_STATUS",
        PING => "PING",
        PARAM_REQUEST_LIST => "PARAM_REQUEST_LIST",
        PARAM_VALUE => "PARAM_VALUE",
        PARAM_SET => "PARAM_SET",
        ATTITUDE => "ATTITUDE",
        LOCAL_POSITION_NED => "LOCAL_POSITION_NED",
        GLOBAL_POSITION_INT => "GLOBAL_POSITION_INT",
        MISSION_REQUEST => "MISSION_REQUEST",
        MISSION_REQUEST_LIST => "MISSION_REQUEST_LIST",
        MISSION_COUNT => "MISSION_COUNT",
        MISSION_ACK => "MISSION_ACK",
        MISSION_REQUEST_INT => "MISSION_REQUEST_INT",
        MISSION_ITEM_INT => "MISSION_ITEM_INT",
        COMMAND_LONG => "COMMAND_LONG",
        COMMAND_ACK => "COMMAND_ACK",
        SET_POSITION_TARGET_LOCAL_NED => "SET_POSITION_TARGET_LOCAL_NED",
        BATTERY_STATUS => "BATTERY_STATUS",
        HOME_POSITION => "HOME_POSITION",
        STATUSTEXT => "STATUSTEXT",
        _ => {
            let mut s = String::from_str("MSG_");
            push_decimal(&mut s, id as u64);
            return s;
        },
    };
    String::from_str(name)
}

// Commands.
pub const NAV_TAKEOFF: u16 = 22;

pub const DO_SET_MODE: u16 = 176;

pub const PREFLIGHT_CALIBRATION: u16 = 241;

pub const COMPONENT_ARM_DISARM: u16 = 400;

pub const SET_MESSAGE_INTERVAL: u16 = 511;

// Enumerations.
pub const MAV_TYPE_GCS: u8 = 6;

pub const MAV_AUTOPILOT_INVALID: u8 = 8;

pub const MAV_MODE_FLAG_CUSTOM_ENABLED: u8 = 1;

pub const MAV_STATE_ACTIVE: u8 = 4;

pub const MAV_RESULT_ACCEPTED: u8 = 0;

pub const MAV_MISSION_ACCEPTED: u8 = 0;

pub const MAV_FRAME_LOCAL_NED: u8 = 1;

// Little-endian fields.
pub open spec fn le16(v: u16) -> Seq<u8> {
    seq![(v & 0xff) as u8, (v >> 8) as u8]
}

pub open spec fn le32(v: u32) -> Seq<u8> {
    seq![
        (v & 0xff) as u8,
        ((v >> 8) & 0xff) as u8,
        ((v >> 16) & 0xff) as u8,
        (v >> 24) as u8,
    ]
}

/// Byte `i` of a payload, zero past its end.
pub open spec fn byte_of(p: Seq<u8>, i: int) -> u8 {
    if 0 <= i < p.len() {
        p[i]
    } else {
        0
    }
}

pub open spec fn u16_of(p: Seq<u8>, i: int) -> u16 {
    (byte_of(p, i) as u16) | ((byte_of(p, i + 1) as u16) << 8)
}

pub open spec fn u32_of(p: Seq<u8>, i: int) -> u32 {
    (byte_of(p, i) as u32) | ((byte_of(p, i + 1) as u32) << 8) | ((byte_of(p, i + 2) as u32) << 16)
        | ((byte_of(p, i + 3) as u32) << 24)
}

pub open spec fn u64_of(p: Seq<u8>, i: int) -> u64 {
    (u32_of(p, i) as u64) | ((u32_of(p, i + 4) as u64) << 32)
}

fn byte_at(p: &Vec<u8>, i: usize) -> (r: u8)
    ensures
        r == byte_of(p@, i as int),
{
    if i < p.len() {
        p[i]
    } else {
        0
    }
}

fn u16_at(p: &Vec<u8>, i: usize) -> (r: u16)
    requires
        i < 1000,
    ensures
        r == u16_of(p@, i as int),
{
    (byte_at(p, i) as u16) | ((byte_at(p, i + 1) as u16) << 8)
}

fn u32_at(p: &Vec<u8>, i: usize) -> (r: u32)
    requires
        i < 1000,
    ensures
        r == u32_of(p@, i as int),
{
    (byte_at(p, i) as u32) | ((byte_at(p, i + 1) as u32) << 8) | ((byte_at(p, i + 2) as u32) << 16)
        | ((byte_at(p, i + 3) as u32) << 24)
}

fn u64_at(p: &Vec<u8>, i: usize) -> (r: u64)
    requires
        i < 900,
    ensures
        r == u64_of(p@, i as int),
{
    (u32_at(p, i) as u64) | ((u32_at(p, i + 4) as u64) << 32)
}

fn put16(out: &mut Vec<u8>, v: u16)
    ensures
        final(out)@ == old(out)@ + le16(v),
{
    out.push((v & 0xff) as u8);
    out.push((v >> 8) as u8);
    assert(out@ =~= old(out)@ + le16(v));
}

fn put32(out: &mut Vec<u8>, v: u32)
    ensures
        final(out)@ == old(out)@ + le32(v),
{
    out.push((v & 0xff) as u8);
    out.push(((v >> 8) & 0xff) as u8);
    out.push(((v >> 16) & 0xff) as u8);
    out.push((v >> 24) as u8);
    assert(out@ =~= old(out)@ + le32(v));
}

/// HEARTBEAT.
#[derive(Debug, Clone, Copy, PartialEq, Eq)]
pub struct Heartbeat {
    pub custom_mode: u32,
    pub mavtype: u8,
    pub autopilot: u8,
    pub base_mode: u8,
    pub system_status: u8,
    pub mavlink_version: u8,
}

impl Heartbeat {
    pub open spec fn bytes(self) -> Seq<u8> {
        le32(self.custom_mode) + seq![
            self.mavtype,
            self.autopilot,
            self.base_mode,
            self.system_status,
            self.mavlink_version,
        ]
    }

    pub fn pack(self) -> (out: Vec<u8>)
        ensures
            out@ == self.bytes(),
    {
        let mut out: Vec<u8> = Vec::new();
        put32(&mut out, self.custom_mode);
        out.push(self.mavtype);
        out.push(self.autopilot);
        out.push(self.base_mode);
        out.push(self.system_status);
        out.push(self.mavlink_version);
        assert(out@ =~= self.bytes());
        out
    }
}

/// The seven parameters of a command, as bit patterns.
#[derive(Debug, Clone, Copy, PartialEq, Eq, Structural)]
pub struct CmdParams {
    pub p1: u32,
    pub p2: u32,
    pub p3: u32,
    pub p4: u32,
    pub p5: u32,
    pub p6: u32,
    pub p7: u32,
}

/// COMMAND_LONG.
#[derive(Debug, Clone, Copy, PartialEq, Eq)]
pub struct CommandLong {
    pub target_system: u8,
    pub target_component: u8,
    pub command: u16,
    pub confirmation: u8,
    pub params: CmdParams,
}

impl CommandLong {
    pub open spec fn bytes(self) -> Seq<u8> {
        le32(self.params.p1) + le32(self.params.p2) + le32(self.params.p3) + le32(self.params.p4)
            + le32(self.params.p5) + le32(self.params.p6) + le32(self.params.p7) + le16(
            self.command,
        ) + seq![self.target_system, self.target_component, self.confirmation]
    }

    pub fn pack(self) -> (out: Vec<u8>)
        ensures
            out@ == self.bytes(),
    {
        let mut out: Vec<u8> = Vec::new();
        put32(&mut out, self.params.p1);
        assert(out@ =~= le32(self.params.p1));
        put32(&mut out, self.params.p2);
        put32(&mut out, self.params.p3);
        put32(&mut out, self.params.p4);
        put32(&mut out, self.params.p5);
        put32(&mut out, self.params.p6);
        put32(&mut out, self.params.p7);
        put16(&mut out, self.command);
        out.push(self.target_system);
        out.push(self.target_component);
        out.push(self.confirmation);
        assert(out@ =~= self.bytes());
        out
    }
}

/// PING.
#[derive(Debug, Clone, Copy, PartialEq, Eq)]
pub struct Ping {
    pub time_usec: u64,
    pub seq: u32,
    pub target_system: u8,
    pub target_component: u8,
}

impl Ping {
    pub open spec fn bytes(self) -> Seq<u8> {
        le32((self.time_usec & 0xffff_ffff) as u32) + le32((self.time_usec >> 32) as u32) + le32(
            self.seq,
        ) + seq![self.target_system, self.target_component]
    }

    pub fn pack(self) -> (out: Vec<u8>)
        ensures
            out@ == self.bytes(),
    {
        let mut out: Vec<u8> = Vec::new();
        put32(&mut out, (self.time_usec & 0xffff_ffff) as u32);
        put32(&mut out, (self.time_usec >> 32) as u32);
        put32(&mut out, self.seq);
        out.push(self.target_system);
        out.push(self.target_component);
        assert(out@ =~= self.bytes());
        out
    }
}

/// PARAM_REQUEST_LIST.
#[derive(Debug, Clone, Copy, PartialEq, Eq)]
pub struct ParamRequestList {
    pub target_system: u8,
    pub target_component: u8,
}

impl ParamRequestList {
    pub open spec fn bytes(self) -> Seq<u8> {
        seq![self.target_system, self.target_component]
    }

    pub fn pack(self) -> (out: Vec<u8>)
        ensures
            out@ == self.bytes(),
    {
        let mut out: Vec<u8> = Vec::new();
        out.push(self.target_system);
        out.push(self.target_component);
        assert(out@ =~= self.bytes());
        out
    }
}

/// A parameter id as the wire carries it: sixteen bytes, padded with zeros.
pub open spec fn padded_id(id: Seq<u8>) -> Seq<u8> {
    Seq::new(16, |i: int| byte_of(id, i))
}

/// PARAM_SET.
#[derive(Debug, Clone, PartialEq, Eq)]
pub struct ParamSet {
    pub target_system: u8,
    pub target_component: u8,
    pub param_id: Vec<u8>,
    pub value: u32,
    pub param_type: u8,
}

pub open spec fn param_set_bytes(
    target_system: u8,
    target_component: u8,
    id: Seq<u8>,
    value: u32,
    param_type: u8,
) -> Seq<u8> {
    le32(value) + seq![target_system, target_component] + padded_id(id) + seq![param_type]
}

impl ParamSet {
    pub fn pack(&self) -> (out: Vec<u8>)
        ensures
            out@ == param_set_bytes(
                self.target_system,
                self.target_component,
                self.param_id@,
                self.value,
                self.param_type,
            ),
    {
        let mut out: Vec<u8> = Vec::new();
        put32(&mut out, self.value);
        out.push(self.target_system);
        out.push(self.target_component);
        let ghost head = out@;
        let mut i: usize = 0;
        while i < 16
            invariant
                i <= 16,
                out@ == head + padded_id(self.param_id@).subrange(0, i as int),
            decreases 16 - i,
        {
            out.push(byte_at(&self.param_id, i));
            assert(padded_id(self.param_id@).subrange(0, i + 1) == padded_id(
                self.param_id@,
            ).subrange(0, i as int).push(padded_id(self.param_id@)[i as int]));
            i = i + 1;
        }
        out.push(self.param_type);
        assert(out@ =~= param_set_bytes(
            self.target_system,
            self.target_component,
            self.param_id@,
            self.value,
            self.param_type,
        ));
        out
    }
}

/// MISSION_REQUEST and MISSION_REQUEST_INT, which share one layout.
#[derive(Debug, Clone, Copy, PartialEq, Eq)]
pub struct MissionRequest {
    pub seq: u16,
    pub target_system: u8,
    pub target_component: u8,
    pub mission_type: u8,
}

impl MissionRequest {
    pub open spec fn bytes(self) -> Seq<u8> {
        le16(self.seq) + seq![self.target_system, self.target_component, self.mission_type]
    }

    pub open spec fn of(p: Seq<u8>) -> MissionRequest {
        MissionRequest {
            seq: u16_of(p, 0),
            target_system: byte_of(p, 2),
            target_component: byte_of(p, 3),
            mission_type: byte_of(p, 4),
        }
    }

    pub fn pack(self) -> (out: Vec<u8>)
        ensures
            out@ == self.bytes(),
    {
        let mut out: Vec<u8> = Vec::new();
        put16(&mut out, self.seq);
        out.push(self.target_system);
        out.push(self.target_component);
        out.push(self.mission_type);
        assert(out@ =~= self.bytes());
        out
    }

    pub fn unpack(p: &Vec<u8>) -> (r: MissionRequest)
        ensures
            r == MissionRequest::of(p@),
    {
        MissionRequest {
            seq: u16_at(p, 0),
            target_system: byte_at(p, 2),
            target_component: byte_at(p, 3),
            mission_type: byte_at(p, 4),
        }
    }
}

/// MISSION_COUNT.
#[derive(Debug, Clone, Copy, PartialEq, Eq)]
pub struct MissionCount {
    pub count: u16,
    pub target_system: u8,
    pub target_component: u8,
    pub mission_type: u8,
}

impl MissionCount {
    pub open spec fn bytes(self) -> Seq<u8> {
        le16(self.count) + seq![self.target_system, self.target_component, self.mission_type]
    }

    pub open spec fn of(p: Seq<u8>) -> MissionCount {
        MissionCount {
            count: u16_of(p, 0),
            target_system: byte_of(p, 2),
            target_component: byte_of(p, 3),
            mission_type: byte_of(p, 4),
        }
    }

    pub fn pack(self) -> (out: Vec<u8>)
        ensures
            out@ == self.bytes(),
    {
        let mut out: Vec<u8> = Vec::new();
        put16(&mut out, self.count);
        out.push(self.target_system);
        out.push(self.target_component);
        out.push(self.mission_type);
        assert(out@ =~= self.bytes());
        out
    }

    pub fn unpack(p: &Vec<u8>) -> (r: MissionCount)
        ensures
            r == MissionCount::of(p@),
    {
        MissionCount {
            count: u16_at(p, 0),
            target_system: byte_at(p, 2),
            target_component: byte_at(p, 3),
            mission_type: byte_at(p, 4),
        }
    }
}

/// MISSION_REQUEST_LIST.
#[derive(Debug, Clone, Copy, PartialEq, Eq)]
pub struct MissionRequestList {
    pub target_system: u8,
    pub target_component: u8,
    pub mission_type: u8,
}

impl MissionRequestList {
    pub open spec fn bytes(self) -> Seq<u8> {
        seq![self.target_system, self.target_component, self.mission_type]
    }

    pub fn pack(self) -> (out: Vec<u8>)
        ensures
            out@ == self.bytes(),
    {
        let mut out: Vec<u8> = Vec::new();
        out.push(self.target_system);
        out.push(self.target_component);
        out.push(self.mission_type);
        assert(out@ =~= self.bytes());
        out
    }
}

/// MISSION_ACK.
#[derive(Debug, Clone, Copy, PartialEq, Eq)]
pub struct MissionAck {
    pub target_system: u8,
    pub target_component: u8,
    pub mission_result: u8,
    pub mission_type: u8,
}

impl MissionAck {
    pub open spec fn bytes(self) -> Seq<u8> {
        seq![self.target_system, self.target_component, self.mission_result, self.mission_type]
    }

    pub open spec fn of(p: Seq<u8>) -> MissionAck {
        MissionAck {
            target_system: byte_of(p, 0),
            target_component: byte_of(p, 1),
            mission_result: byte_of(p, 2),
            mission_type: byte_of(p, 3),
        }
    }

    pub fn pack(self) -> (out: Vec<u8>)
        ensures
            out@ == self.bytes(),
    {
        let mut out: Vec<u8> = Vec::new();
        out.push(self.target_system);
        out.push(self.target_component);
        out.push(self.mission_result);
        out.push(self.mission_type);
        assert(out@ =~= self.bytes());
        out
    }

    pub fn unpack(p: &Vec<u8>) -> (r: MissionAck)
        ensures
            r == MissionAck::of(p@),
    {
        MissionAck {
            target_system: byte_at(p, 0),
            target_component: byte_at(p, 1),
            mission_result: byte_at(p, 2),
            mission_type: byte_at(p, 3),
        }
    }
}

/// MISSION_ITEM_INT. The four parameters and the altitude are bit patterns,
/// `x` and `y` degrees scaled by ten million.
#[derive(Debug, Clone, Copy, PartialEq, Eq, Structural)]
pub struct MissionItemInt {
    pub param1: u32,
    pub param2: u32,
    pub param3: u32,
    pub param4: u32,
    pub x: i32,
    pub y: i32,
    pub z: u32,
    pub seq: u16,
    pub command: u16,
    pub target_system: u8,
    pub target_component: u8,
    pub frame: u8,
    pub current: u8,
    pub autocontinue: u8,
    pub mission_type: u8,
}

impl MissionItemInt {
    pub open spec fn bytes(self) -> Seq<u8> {
        le32(self.param1) + le32(self.param2) + le32(self.param3) + le32(self.param4) + le32(
            self.x as u32,
        ) + le32(self.y as u32) + le32(self.z) + le16(self.seq) + le16(self.command) + seq![
            self.target_system,
            self.target_component,
            self.frame,
            self.current,
            self.autocontinue,
            self.mission_type,
        ]
    }

    pub open spec fn of(p: Seq<u8>) -> MissionItemInt {
        MissionItemInt {
            param1: u32_of(p, 0),
            param2: u32_of(p, 4),
            param3: u32_of(p, 8),
            param4: u32_of(p, 12),
            x: u32_of(p, 16) as i32,
            y: u32_of(p, 20) as i32,
            z: u32_of(p, 24),
            seq: u16_of(p, 28),
            command: u16_of(p, 30),
            target_system: byte_of(p, 32),
            target_component: byte_of(p, 33),
            frame: byte_of(p, 34),
            current: byte_of(p, 35),
            autocontinue: byte_of(p, 36),
            mission_type: byte_of(p, 37),
        }
    }

    pub fn pack(self) -> (out: Vec<u8>)
        ensures
            out@ == self.bytes(),
    {
        let mut out: Vec<u8> = Vec::new();
        put32(&mut out, self.param1);
        assert(out@ =~= le32(self.param1));
        put32(&mut out, self.param2);
        put32(&mut out, self.param3);
        put32(&mut out, self.param4);
        put32(&mut out, self.x as u32);
        put32(&mut out, self.y as u32);
        put32(&mut out, self.z);
        put16(&mut out, self.seq);
        put16(&mut out, self.command);
        out.push(self.target_system);
        out.push(self.target_component);
        out.push(self.frame);
        out.push(self.current);
        out.push(self.autocontinue);
        out.push(self.mission_type);
        assert(out@ =~= self.bytes());
        out
    }

    pub fn unpack(p: &Vec<u8>) -> (r: MissionItemInt)
        ensures
            r == MissionItemInt::of(p@),
    {
        MissionItemInt {
            param1: u32_at(p, 0),
            param2: u32_at(p, 4),
            param3: u32_at(p, 8),
            param4: u32_at(p, 12),
            x: u32_at(p, 16) as i32,
            y: u32_at(p, 20) as i32,
            z: u32_at(p, 24),
            seq: u16_at(p, 28),
            command: u16_at(p, 30),
            target_system: byte_at(p, 32),
            target_component: byte_at(p, 33),
            frame: byte_at(p, 34),
            current: byte_at(p, 35),
            autocontinue: byte_at(p, 36),
            mission_type: byte_at(p, 37),
        }
    }
}

/// Three components of a vector, as bit patterns.
#[derive(Debug, Clone, Copy, PartialEq, Eq, Structural)]
pub struct Vec3 {
    pub x: u32,
    pub y: u32,
    pub z: u32,
}

/// SET_POSITION_TARGET_LOCAL_NED; the acceleration fields are always zero.
#[derive(Debug, Clone, Copy, PartialEq, Eq)]
pub struct SetPositionTarget {
    pub time_boot_ms: u32,
    pub position: Vec3,
    pub velocity: Vec3,
    pub yaw: u32,
    pub yaw_rate: u32,
    pub type_mask: u16,
    pub target_system: u8,
    pub target_component: u8,
    pub coordinate_frame: u8,
}

impl SetPositionTarget {
    pub open spec fn bytes(self) -> Seq<u8> {
        le32(self.time_boot_ms) + le32(self.position.x) + le32(self.position.y) + le32(
            self.position.z,
        ) + le32(self.velocity.x) + le32(self.velocity.y) + le32(self.velocity.z) + le32(0) + le32(
            0,
        ) + le32(0) + le32(self.yaw) + le32(self.yaw_rate) + le16(self.type_mask) + seq![
            self.target_system,
            self.target_component,
            self.coordinate_frame,
        ]
    }

    pub fn pack(self) -> (out: Vec<u8>)
        ensures
            out@ == self.bytes(),
    {
        let mut out: Vec<u8> = Vec::new();
        put32(&mut out, self.time_boot_ms);
        assert(out@ =~= le32(self.time_boot_ms));
        put32(&mut out, self.position.x);
        put32(&mut out, self.position.y);
        put32(&mut out, self.position.z);
        put32(&mut out, self.velocity.x);
        put32(&mut out, self.velocity.y);
        put32(&mut out, self.velocity.z);
        put32(&mut out, 0);
        put32(&mut out, 0);
        put32(&mut out, 0);
        put32(&mut out, self.yaw);
        put32(&mut out, self.yaw_rate);
        put16(&mut out, self.type_mask);
        out.push(self.target_system);
        out.push(self.target_component);
        out.push(self.coordinate_frame);
        assert(out@ =~= self.bytes());
        out
    }
}

/// The text of a zero-terminated field of `n` bytes that starts at `from`: its
/// bytes up to the first zero, one outside ASCII as a replacement character.
pub open spec fn field_text(p: Seq<u8>, from: int, n: nat) -> Seq<char>
    decreases n,
{
    if n == 0 || byte_of(p, from) == 0 {
        Seq::empty()
    } else {
        seq![text_char(byte_of(p, from))] + field_text(p, from + 1, (n - 1) as nat)
    }
}

pub open spec fn text_char(b: u8) -> char {
    if b < 128 {
        b as char
    } else {
        '\u{FFFD}'
    }
}

fn text_at(p: &Vec<u8>, from: usize, n: usize) -> (r: String)
    requires
        from + n < 1000,
    ensures
        r@ == field_text(p@, from as int, n as nat),
{
    let mut r = String::new();
    let mut i: usize = 0;
    while i < n && byte_at(p, from + i) != 0
        invariant
            i <= n,
            from + n < 1000,
            r@ + field_text(p@, from + i, (n - i) as nat) == field_text(p@, from as int, n as nat),
        decreases n - i,
    {
        let b: u8 = byte_at(p, from + i);
        let ghost was = r@;
        if b < 128 {
            r.push(b as char);
        } else {
            r.push('\u{FFFD}');
        }
        proof {
            let rest = field_text(p@, from + i + 1, (n - i - 1) as nat);
            assert(was + (seq![text_char(b)] + rest) =~= was.push(text_char(b)) + rest);
        }
        i = i + 1;
    }
    assert(r@ + Seq::<char>::empty() =~= r@);
    r
}

/// The text form of a parameter id held as raw bytes.
pub fn param_id_to_string(id: &Vec<u8>) -> (r: String)
    ensures
        r@ == field_text(id@, 0, 16),
{
    text_at(id, 0, 16)
}

/// What one received frame reports.
#[derive(Debug, Clone, PartialEq, Eq)]
pub enum TelemetryEvent {
    Heartbeat { sysid: u8, compid: u8, base_mode: u8, custom_mode: u32 },
    Attitude { roll: u32, pitch: u32, yaw: u32 },
    LocalPositionNed { position: Vec3, velocity: Vec3 },
    GlobalPositionInt { lat: i32, lon: i32, alt: i32, relative_alt: i32 },
    SysStatus { voltage_battery_mv: u16, battery_remaining_pct: i8 },
    BatteryStatus { voltage_mv: u16, battery_remaining_pct: i8 },
    HomePosition { position: Vec3 },
    StatusText { severity: u8, text: String },
    CommandAck { command: u16, result: u8, target_system: u8, target_component: u8 },
    ParamValue { param_id: String, value: u32, param_type: u8, param_count: u16, param_index: u16 },
    Ping { time_usec: u64, seq: u32 },
    Unknown { msgid: u32, len: usize },
}

/// The model of a telemetry event.
#[verifier::ext_equal]
pub enum EventModel {
    Heartbeat { sysid: u8, compid: u8, base_mode: u8, custom_mode: u32 },
    Attitude { roll: u32, pitch: u32, yaw: u32 },
    LocalPositionNed { position: Vec3, velocity: Vec3 },
    GlobalPositionInt { lat: i32, lon: i32, alt: i32, relative_alt: i32 },
    SysStatus { voltage_battery_mv: u16, battery_remaining_pct: i8 },
    BatteryStatus { voltage_mv: u16, battery_remaining_pct: i8 },
    HomePosition { position: Vec3 },
    StatusText { severity: u8, text: Seq<char> },
    CommandAck { command: u16, result: u8, target_system: u8, target_component: u8 },
    ParamValue {
        param_id: Seq<char>,
        value: u32,
        param_type: u8,
        param_count: u16,
        param_index: u16,
    },
    Ping { time_usec: u64, seq: u32 },
    Unknown { msgid: u32, len: nat },
}

impl View for TelemetryEvent {
    type V = EventModel;

    open spec fn view(&self) -> EventModel {
        match *self {
            TelemetryEvent::Heartbeat { sysid, compid, base_mode, custom_mode } => {
                EventModel::Heartbeat { sysid, compid, base_mode, custom_mode }
            },
            TelemetryEvent::Attitude { roll, pitch, yaw } => EventModel::Attitude {
                roll,
                pitch,
                yaw,
            },
            TelemetryEvent::LocalPositionNed { position, velocity } => {
                EventModel::LocalPositionNed { position, velocity }
            },
            TelemetryEvent::GlobalPositionInt { lat, lon, alt, relative_alt } => {
                EventModel::GlobalPositionInt { lat, lon, alt, relative_alt }
            },
            TelemetryEvent::SysStatus { voltage_battery_mv, battery_remaining_pct } => {
                EventModel::SysStatus { voltage_battery_mv, battery_remaining_pct }
            },
            TelemetryEvent::BatteryStatus { voltage_mv, battery_remaining_pct } => {
                EventModel::BatteryStatus { voltage_mv, battery_remaining_pct }
            },
            TelemetryEvent::HomePosition { position } => EventModel::HomePosition { position },
            TelemetryEvent::StatusText { severity, text } => EventModel::StatusText {
                severity,
                text: text@,
            },
            TelemetryEvent::CommandAck { command, result, target_system, target_component } => {
                EventModel::CommandAck { command, result, target_system, target_component }
            },
            TelemetryEvent::ParamValue {
                param_id,
                value,
                param_type,
                param_count,
                param_index,
            } => EventModel::ParamValue {
                param_id: param_id@,
                value,
                param_type,
                param_count,
                param_index,
            },
            TelemetryEvent::Ping { time_usec, seq } => EventModel::Ping { time_usec, seq },
            TelemetryEvent::Unknown { msgid, len } => EventModel::Unknown { msgid, len: len as nat },
        }
    }
}

pub open spec fn vec3_of(p: Seq<u8>, i: int) -> Vec3 {
    Vec3 { x: u32_of(p, i), y: u32_of(p, i + 4), z: u32_of(p, i + 8) }
}

/// The event a frame of each telemetry message reports; any other frame is
/// reported by its message id and length.
pub open spec fn event_of(f: FrameModel) -> EventModel {
    let p = f.payload;
    if f.msgid == HEARTBEAT {
        EventModel::Heartbeat {
            sysid: f.sysid,
            compid: f.compid,
            base_mode: byte_of(p, 6),
            custom_mode: u32_of(p, 0),
        }
    } else if f.msgid == ATTITUDE {
        EventModel::Attitude { roll: u32_of(p, 4), pitch: u32_of(p, 8), yaw: u32_of(p, 12) }
    } else if f.msgid == LOCAL_POSITION_NED {
        EventModel::LocalPositionNed { position: vec3_of(p, 4), velocity: vec3_of(p, 16) }
    } else if f.msgid == GLOBAL_POSITION_INT {
        EventModel::GlobalPositionInt {
            lat: u32_of(p, 4) as i32,
            lon: u32_of(p, 8) as i32,
            alt: u32_of(p, 12) as i32,
            relative_alt: u32_of(p, 16) as i32,
        }
    } else if f.msgid == SYS_STATUS {
        EventModel::SysStatus {
            voltage_battery_mv: u16_of(p, 14),
            battery_remaining_pct: byte_of(p, 30) as i8,
        }
    } else if f.msgid == BATTERY_STATUS {
        EventModel::BatteryStatus {
            voltage_mv: u16_of(p, 10),
            battery_remaining_pct: byte_of(p, 35) as i8,
        }
    } else if f.msgid == HOME_POSITION {
        EventModel::HomePosition { position: vec3_of(p, 12) }
    } else if f.msgid == STATUSTEXT {
        EventModel::StatusText { severity: byte_of(p, 0), text: field_text(p, 1, 50) }
    } else if f.msgid == COMMAND_ACK {
        EventModel::CommandAck {
            command: u16_of(p, 0),
            result: byte_of(p, 2),
            target_system: byte_of(p, 8),
            target_component: byte_of(p, 9),
        }
    } else if f.msgid == PARAM_VALUE {
        EventModel::ParamValue {
            param_id: field_text(p, 8, 16),
            value: u32_of(p, 0),
            param_type: byte_of(p, 24),
            param_count: u16_of(p, 4),
            param_index: u16_of(p, 6),
        }
    } else if f.msgid == PING {
        EventModel::Ping { time_usec: u64_of(p, 0), seq: u32_of(p, 8) }
    } else {
        EventModel::Unknown { msgid: f.msgid, len: p.len() }
    }
}

fn vec3_at(p: &Vec<u8>, i: usize) -> (r: Vec3)
    requires
        i < 900,
    ensures
        r == vec3_of(p@, i as int),
{
    Vec3 { x: u32_at(p, i), y: u32_at(p, i + 4), z: u32_at(p, i + 8) }
}

/// Decode a received frame.
pub fn decode_event(f: &Frame) -> (r: TelemetryEvent)
    ensures
        r@ == event_of(f@),
{
    let p = &f.payload;
    if f.msgid == HEARTBEAT {
        TelemetryEvent::Heartbeat {
            sysid: f.sysid,
            compid: f.compid,
            base_mode: byte_at(p, 6),
            custom_mode: u32_at(p, 0),
        }
    } else if f.msgid == ATTITUDE {
        TelemetryEvent::Attitude { roll: u32_at(p, 4), pitch: u32_at(p, 8), yaw: u32_at(p, 12) }
    } else if f.msgid == LOCAL_POSITION_NED {
        TelemetryEvent::LocalPositionNed { position: vec3_at(p, 4), velocity: vec3_at(p, 16) }
    } else if f.msgid == GLOBAL_POSITION_INT {
        TelemetryEvent::GlobalPositionInt {
            lat: u32_at(p, 4) as i32,
            lon: u32_at(p, 8) as i32,
            alt: u32_at(p, 12) as i32,
            relative_alt: u32_at(p, 16) as i32,
        }
    } else if f.msgid == SYS_STATUS {
        TelemetryEvent::SysStatus {
            voltage_battery_mv: u16_at(p, 14),
            battery_remaining_pct: byte_at(p, 30) as i8,
        }
    } else if f.msgid == BATTERY_STATUS {
        TelemetryEvent::BatteryStatus {
            voltage_mv: u16_at(p, 10),
            battery_remaining_pct: byte_at(p, 35) as i8,
        }
    } else if f.msgid == HOME_POSITION {
        TelemetryEvent::HomePosition { position: vec3_at(p, 12) }
    } else if f.msgid == STATUSTEXT {
        TelemetryEvent::StatusText { severity: byte_at(p, 0), text: text_at(p, 1, 50) }
    } else if f.msgid == COMMAND_ACK {
        TelemetryEvent::CommandAck {
            command: u16_at(p, 0),
            result: byte_at(p, 2),
            target_system: byte_at(p, 8),
            target_component: byte_at(p, 9),
        }
    } else if f.msgid == PARAM_VALUE {
        TelemetryEvent::ParamValue {
            param_id: text_at(p, 8, 16),
            value: u32_at(p, 0),
            param_type: byte_at(p, 24),
            param_count: u16_at(p, 4),
            param_index: u16_at(p, 6),
        }
    } else if f.msgid == PING {
        TelemetryEvent::Ping { time_usec: u64_at(p, 0), seq: u32_at(p, 8) }
    } else {
        TelemetryEvent::Unknown { msgid: f.msgid, len: p.len() }
    }
}

// Laws.

/// Leaving the trailing zeros of a payload out changes no field of it.
pub proof fn trimming_keeps_bytes(p: Seq<u8>, i: int)
    ensures
        byte_of(trimmed(p), i) == byte_of(p, i),
    decreases p.len(),
{
    if p.len() > 0 && p.last() == 0 {
        trimming_keeps_bytes(p.drop_last(), i);
    }
}

proof fn le16_rejoins(p: Seq<u8>, i: int, v: u16)
    requires
        byte_of(p, i) == le16(v)[0],
        byte_of(p, i + 1) == le16(v)[1],
    ensures
        u16_of(p, i) == v,
{
    assert((((v & 0xff) as u8) as u16) | ((((v >> 8) as u8) as u16) << 8) == v) by (bit_vector);
}

proof fn le32_rejoins(p: Seq<u8>, i: int, v: u32)
    requires
        byte_of(p, i) == le32(v)[0],
        byte_of(p, i + 1) == le32(v)[1],
        byte_of(p, i + 2) == le32(v)[2],
        byte_of(p, i + 3) == le32(v)[3],
    ensures
        u32_of(p, i) == v,
{
    assert((((v & 0xff) as u8) as u32) | (((((v >> 8) & 0xff) as u8) as u32) << 8) | (((((v >> 16)
        & 0xff) as u8) as u32) << 16) | ((((v >> 24) as u8) as u32) << 24) == v) by (bit_vector);
}

/// A mission item that is packed, trimmed for the wire and unpacked is the
/// same item.
pub proof fn mission_item_is_read_back(item: MissionItemInt)
    ensures
        MissionItemInt::of(trimmed(item.bytes())) == item,
{
    let b = item.bytes();
    let t = trimmed(b);
    assert(b.len() == 38);
    assert forall|i: int| #[trigger] byte_of(t, i) == byte_of(b, i) by {
        trimming_keeps_bytes(b, i);
    }
    le32_rejoins(t, 0, item.param1);
    le32_rejoins(t, 4, item.param2);
    le32_rejoins(t, 8, item.param3);
    le32_rejoins(t, 12, item.param4);
    le32_rejoins(t, 16, item.x as u32);
    le32_rejoins(t, 20, item.y as u32);
    le32_rejoins(t, 24, item.z);
    le16_rejoins(t, 28, item.seq);
    le16_rejoins(t, 30, item.command);
    let x = item.x;
    let y = item.y;
    assert((x as u32) as i32 == x) by (bit_vector);
    assert((y as u32) as i32 == y) by (bit_vector);
}

/// Likewise for a mission request.
pub proof fn mission_request_is_read_back(r: MissionRequest)
    ensures
        MissionRequest::of(trimmed(r.bytes())) == r,
{
    let b = r.bytes();
    let t = trimmed(b);
    assert forall|i: int| #[trigger] byte_of(t, i) == byte_of(b, i) by {
        trimming_keeps_bytes(b, i);
    }
    le16_rejoins(t, 0, r.seq);
}

/// Likewise for a mission count.
pub proof fn mission_count_is_read_back(c: MissionCount)
    ensures
        MissionCount::of(trimmed(c.bytes())) == c,
{
    let b = c.bytes();
    let t = trimmed(b);
    assert forall|i: int| #[trigger] byte_of(t, i) == byte_of(b, i) by {
        trimming_keeps_bytes(b, i);
    }
    le16_rejoins(t, 0, c.count);
}

/// Likewise for a mission acknowledgement.
pub proof fn mission_ack_is_read_back(a: MissionAck)
    ensures
        MissionAck::of(trimmed(a.bytes())) == a,
{
    let b = a.bytes();
    let t = trimmed(b);
    assert forall|i: int| #[trigger] byte_of(t, i) == byte_of(b, i) by {
        trimming_keeps_bytes(b, i);
    }
}

} // verus!
