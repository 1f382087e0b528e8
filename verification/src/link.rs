//! One vehicle's MAVLink link, as a state machine.
//!
//! The application owns the socket, the timers and the reply channels. It
//! hands in what happened (a datagram, a request, a timer) with the link time
//! in milliseconds, and performs the actions that pile up in the outbox: send
//! these bytes, answer that request, publish this event. A request is answered
//! under the ticket it came with.
//!
//! Commands are serialised: one is in flight at a time, later ones queue. A
//! command without an acknowledgement is sent again after its timeout, up to
//! the configured number of attempts.

use std::collections::{BTreeMap, VecDeque};
use vstd::prelude::*;
use crate::float::whole_to_f32;
#[allow(unused_imports)]
use crate::float::f32_of_whole;
use crate::frame::{crc_extra, Decoder, Frame};
#[allow(unused_imports)]
use crate::frame::{crc_extra_of, first_frame, guarded, v2_bytes, FrameModel};
use crate::messages::{
    decode_event, param_id_to_string, CmdParams, CommandLong, Heartbeat, MissionAck, MissionCount,
    MissionItemInt, MissionRequest, MissionRequestList, ParamRequestList, ParamSet, Ping,
    SetPositionTarget, TelemetryEvent, Vec3, ATTITUDE, BATTERY_STATUS, COMMAND_ACK, COMMAND_LONG,
    GLOBAL_POSITION_INT, HEARTBEAT, HOME_POSITION, LOCAL_POSITION_NED, MAV_AUTOPILOT_INVALID,
    MAV_FRAME_LOCAL_NED, MAV_MISSION_ACCEPTED, MAV_MODE_FLAG_CUSTOM_ENABLED, MAV_RESULT_ACCEPTED,
    MAV_STATE_ACTIVE, MAV_TYPE_GCS, MISSION_ACK, MISSION_COUNT, MISSION_ITEM_INT, MISSION_REQUEST,
    MISSION_REQUEST_INT, MISSION_REQUEST_LIST, PARAM_REQUEST_LIST, PARAM_SET, PARAM_VALUE, PING,
    SET_MESSAGE_INTERVAL, SET_POSITION_TARGET_LOCAL_NED, STATUSTEXT, SYS_STATUS,
};
#[allow(unused_imports)]
use crate::messages::{
    event_of, field_text, param_set_bytes, EventModel,
};
use crate::modes::{POSITION_ONLY, VELOCITY_YAWRATE};
use crate::params::{ParamEntry, ParamStore, ParamVal};
#[allow(unused_imports)]
use crate::params::{empty_store, ingested, requested, staleness_refreshed, typed_reading, StoreModel};
use crate::text::{decimal_string, joined, push_decimal, same};
#[allow(unused_imports)]
use crate::text::decimal;
#[allow(unused_imports)]
use vstd::std_specs::btree::*;

verus! {

/// First telemetry port; vehicle `i` streams to this plus `i`.
pub const TELEMETRY_BASE: u16 = 14540;

/// First onboard port; vehicle `i` listens on this plus `i`.
pub const ONBOARD_BASE: u16 = 14580;

/// Time a parameter write waits for its echo.
pub const PARAM_TIMEOUT_MS: u64 = 600;

/// Time a mission transaction waits for the vehicle's next message.
pub const MISSION_TIMEOUT_MS: u64 = 30_000;

/// Bytes of a parameter id that fit the wire field with its terminator.
pub const PARAM_ID_BYTES: usize = 15;

/// The vehicle's autopilot component.
pub const TARGET_COMPONENT: u8 = 1;

/// Four metres per second.
pub const CRUISE_MS: u32 = 0x4080_0000;

/// Interval of the estimator streams: twenty per second, in microseconds.
pub const FAST_INTERVAL_US: u32 = 50_000;

#[derive(Debug, Clone, PartialEq, Eq)]
pub struct LinkConfig {
    /// Vehicle index, from zero.
    pub instance: u8,
    /// Local address, where the vehicle streams telemetry to.
    pub bind_addr: String,
    /// The vehicle's onboard address.
    pub remote_addr: String,
    pub manager_sysid: u8,
    pub manager_compid: u8,
    pub heartbeat_ms: u64,
    pub setpoint_ms: u64,
    pub cmd_timeout_ms: u64,
    pub cmd_attempts: u32,
}

impl LinkConfig {
    /// The canonical configuration of vehicle `instance`.
    pub fn for_instance(instance: u8) -> (r: Self)
        ensures
            r.instance == instance,
            r.bind_addr@ == "127.0.0.1:"@ + decimal((TELEMETRY_BASE + instance) as nat),
            r.remote_addr@ == "127.0.0.1:"@ + decimal((ONBOARD_BASE + instance) as nat),
            r.manager_sysid == 255,
            r.manager_compid == 190,
            r.heartbeat_ms == 1000,
            r.setpoint_ms == 50,
            r.cmd_timeout_ms == 500,
            r.cmd_attempts == 3,
    {
        let telemetry = decimal_string(TELEMETRY_BASE as u64 + instance as u64);
        let onboard = decimal_string(ONBOARD_BASE as u64 + instance as u64);
        LinkConfig {
            instance,
            bind_addr: joined("127.0.0.1:", telemetry.as_str()),
            remote_addr: joined("127.0.0.1:", onboard.as_str()),
            manager_sysid: 255,
            manager_compid: 190,
            heartbeat_ms: 1000,
            setpoint_ms: 50,
            cmd_timeout_ms: 500,
            cmd_attempts: 3,
        }
    }
}

/// Link counters; they wrap around.
#[derive(Debug, Clone, Copy, PartialEq, Eq)]
pub struct LinkCounts {
    pub sent: u64,
    pub recv: u64,
    pub dropped_link_loss: u64,
    pub crc_or_unknown_dropped: u64,
    pub retries: u64,
    pub cmd_failures: u64,
    pub commands_sent: u64,
    pub setpoints_sent: u64,
    pub heartbeats_sent: u64,
    pub subscribe_requests_sent: u64,
    pub param_list_requests_sent: u64,
    pub param_values_recv: u64,
}

impl LinkCounts {
    pub open spec fn zero() -> LinkCounts {
        LinkCounts {
            sent: 0,
            recv: 0,
            dropped_link_loss: 0,
            crc_or_unknown_dropped: 0,
            retries: 0,
            cmd_failures: 0,
            commands_sent: 0,
            setpoints_sent: 0,
            heartbeats_sent: 0,
            subscribe_requests_sent: 0,
            param_list_requests_sent: 0,
            param_values_recv: 0,
        }
    }
}

/// Live link statistics.
#[derive(Debug, Clone)]
pub struct LinkStats {
    pub counts: LinkCounts,
    /// Messages by id, as seen before the subscription requests went out.
    pub pre_request_msg_ids: BTreeMap<u32, u64>,
    /// Messages by id.
    pub msg_counts: BTreeMap<u32, u64>,
}

#[verifier::ext_equal]
pub struct StatsModel {
    pub counts: LinkCounts,
    pub pre_request_msg_ids: Map<u32, u64>,
    pub msg_counts: Map<u32, u64>,
}

impl View for LinkStats {
    type V = StatsModel;

    open spec fn view(&self) -> StatsModel {
        StatsModel {
            counts: self.counts,
            pre_request_msg_ids: self.pre_request_msg_ids@,
            msg_counts: self.msg_counts@,
        }
    }
}

#[derive(Debug, Clone, Copy, PartialEq, Eq)]
pub struct SetpointGoal {
    pub position: Vec3,
    pub yaw: u32,
}

/// What the setpoint pump transmits; all numbers as bit patterns.
#[derive(Debug, Clone, Copy, PartialEq, Eq)]
pub struct SetpointSlot {
    pub active: bool,
    pub goal: Option<SetpointGoal>,
    pub current: Vec3,
    pub yaw: u32,
    /// Speed cap of the profile step.
    pub cruise_ms: u32,
    /// Stream velocities instead of positions.
    pub velocity_mode: bool,
    pub velocity: Vec3,
    pub yaw_rate: u32,
}

pub open spec fn zero_vec3() -> Vec3 {
    Vec3 { x: 0, y: 0, z: 0 }
}

impl SetpointSlot {
    pub open spec fn idle() -> SetpointSlot {
        SetpointSlot {
            active: false,
            goal: None,
            current: zero_vec3(),
            yaw: 0,
            cruise_ms: CRUISE_MS,
            velocity_mode: false,
            velocity: zero_vec3(),
            yaw_rate: 0,
        }
    }
}

impl Default for SetpointSlot {
    fn default() -> (r: Self)
        ensures
            r == SetpointSlot::idle(),
    {
        SetpointSlot {
            active: false,
            goal: None,
            current: Vec3 { x: 0, y: 0, z: 0 },
            yaw: 0,
            cruise_ms: CRUISE_MS,
            velocity_mode: false,
            velocity: Vec3 { x: 0, y: 0, z: 0 },
            yaw_rate: 0,
        }
    }
}

/// Result of a command exchange.
#[derive(Debug, Clone, Copy, PartialEq, Eq, Structural)]
pub enum CmdAck {
    Accepted,
    Rejected { result: u8 },
    /// No acknowledgement after the full retry ladder.
    Timeout { attempts: u32 },
}

/// Result of a mission upload.
#[derive(Debug, Clone, PartialEq, Eq)]
pub enum MissionUploadResult {
    Done { mission_type: u8, items_sent: u16, items_acked: u16 },
    Failed { mission_type: u8, reason: String, items_sent: u16, items_acked: u16 },
    Timeout { mission_type: u8, items_sent: u16, items_acked: u16 },
}

#[verifier::ext_equal]
pub enum UploadOutcome {
    Done { mission_type: u8, items_sent: u16, items_acked: u16 },
    Failed { mission_type: u8, reason: Seq<char>, items_sent: u16, items_acked: u16 },
    Timeout { mission_type: u8, items_sent: u16, items_acked: u16 },
}

impl View for MissionUploadResult {
    type V = UploadOutcome;

    open spec fn view(&self) -> UploadOutcome {
        match *self {
            MissionUploadResult::Done { mission_type, items_sent, items_acked } => {
                UploadOutcome::Done { mission_type, items_sent, items_acked }
            },
            MissionUploadResult::Failed { mission_type, reason, items_sent, items_acked } => {
                UploadOutcome::Failed { mission_type, reason: reason@, items_sent, items_acked }
            },
            MissionUploadResult::Timeout { mission_type, items_sent, items_acked } => {
                UploadOutcome::Timeout { mission_type, items_sent, items_acked }
            },
        }
    }
}

/// Result of a mission download.
#[derive(Debug, Clone, PartialEq, Eq)]
pub enum MissionDownloadResult {
    Done { mission_type: u8, items: Vec<MissionItemInt> },
    Failed { mission_type: u8, reason: String },
    Timeout { mission_type: u8 },
}

#[verifier::ext_equal]
pub enum DownloadOutcome {
    Done { mission_type: u8, items: Seq<MissionItemInt> },
    Failed { mission_type: u8, reason: Seq<char> },
    Timeout { mission_type: u8 },
}

impl View for MissionDownloadResult {
    type V = DownloadOutcome;

    open spec fn view(&self) -> DownloadOutcome {
        match *self {
            MissionDownloadResult::Done { mission_type, items } => DownloadOutcome::Done {
                mission_type,
                items: items@,
            },
            MissionDownloadResult::Failed { mission_type, reason } => DownloadOutcome::Failed {
                mission_type,
                reason: reason@,
            },
            MissionDownloadResult::Timeout { mission_type } => DownloadOutcome::Timeout {
                mission_type,
            },
        }
    }
}

/// What a request asks of the link.
#[derive(Debug, Clone)]
pub enum LinkCommand {
    /// A command to be acknowledged; queued, one in flight at a time.
    SendCommand { command: u16, params: CmdParams, ticket: u64 },
    /// A parameter write, confirmed by the vehicle's echo. A later write
    /// replaces one that is still waiting, which is answered with no echo.
    SetParam { param_id: String, value: u32, param_type: u8, ticket: u64 },
    /// A full parameter download.
    RequestParamList { ticket: u64 },
    /// Upload items to the vehicle (mission 0, fence 1, rally 2). A later
    /// upload replaces one that is still running, which is answered as timed
    /// out.
    MissionUpload { items: Vec<MissionItemInt>, mission_type: u8, ticket: u64 },
    /// Download items from the vehicle. A later download replaces one that is
    /// still running, which is answered as timed out.
    MissionDownload { mission_type: u8, ticket: u64 },
}

/// The answer to a request.
#[derive(Debug, Clone, PartialEq, Eq)]
pub enum Reply {
    Command(CmdAck),
    Param(Option<ParamVal>),
    ParamList(bool),
    Upload(MissionUploadResult),
    Download(MissionDownloadResult),
}

#[verifier::ext_equal]
pub enum ReplyModel {
    Command(CmdAck),
    Param(Option<ParamVal>),
    ParamList(bool),
    Upload(UploadOutcome),
    Download(DownloadOutcome),
}

impl View for Reply {
    type V = ReplyModel;

    open spec fn view(&self) -> ReplyModel {
        match *self {
            Reply::Command(a) => ReplyModel::Command(a),
            Reply::Param(v) => ReplyModel::Param(v),
            Reply::ParamList(b) => ReplyModel::ParamList(b),
            Reply::Upload(r) => ReplyModel::Upload(r@),
            Reply::Download(r) => ReplyModel::Download(r@),
        }
    }
}

/// What the application is to do.
#[derive(Debug, Clone, PartialEq, Eq)]
pub enum Action {
    /// Send a datagram to the vehicle.
    Send(Vec<u8>),
    /// Answer the request that came with this ticket.
    Reply(u64, Reply),
    /// Hand a telemetry event on.
    Publish(TelemetryEvent),
}

#[verifier::ext_equal]
pub enum ActionModel {
    Send(Seq<u8>),
    Reply(u64, ReplyModel),
    Publish(EventModel),
}

impl View for Action {
    type V = ActionModel;

    open spec fn view(&self) -> ActionModel {
        match *self {
            Action::Send(b) => ActionModel::Send(b@),
            Action::Reply(t, r) => ActionModel::Reply(t, r@),
            Action::Publish(e) => ActionModel::Publish(e@),
        }
    }
}

pub open spec fn actions_of(s: Seq<Action>) -> Seq<ActionModel> {
    Seq::new(s.len(), |i: int| s[i]@)
}

/// A command in flight; nobody waits for one without a ticket.
#[derive(Debug, Clone, Copy, PartialEq, Eq)]
pub struct Pending {
    pub command: u16,
    pub params: CmdParams,
    pub ticket: Option<u64>,
    pub attempts: u32,
    pub deadline: u64,
}

/// A command waiting for its turn.
#[derive(Debug, Clone, Copy, PartialEq, Eq)]
pub struct Queued {
    pub command: u16,
    pub params: CmdParams,
    pub ticket: Option<u64>,
}

struct PendingParam {
    param_id: Vec<u8>,
    value: u32,
    param_type: u8,
    ticket: u64,
    attempts: u32,
    deadline: u64,
}

#[verifier::ext_equal]
pub struct ParamWrite {
    pub param_id: Seq<u8>,
    pub value: u32,
    pub param_type: u8,
    pub ticket: u64,
    pub attempts: u32,
    pub deadline: u64,
}

struct PendingUpload {
    items: Vec<MissionItemInt>,
    mission_type: u8,
    ticket: u64,
    items_sent: u16,
    deadline: u64,
}

#[verifier::ext_equal]
pub struct Upload {
    pub items: Seq<MissionItemInt>,
    pub mission_type: u8,
    pub ticket: u64,
    /// One more than the highest item handed out.
    pub items_sent: u16,
    pub deadline: u64,
}

struct PendingDownload {
    mission_type: u8,
    ticket: u64,
    expected_count: u16,
    items: Vec<MissionItemInt>,
    deadline: u64,
}

#[verifier::ext_equal]
pub struct Download {
    pub mission_type: u8,
    pub ticket: u64,
    pub expected_count: u16,
    pub items: Seq<MissionItemInt>,
    pub deadline: u64,
}

spec fn param_write_of(p: Option<PendingParam>) -> Option<ParamWrite> {
    match p {
        Some(p) => Some(
            ParamWrite {
                param_id: p.param_id@,
                value: p.value,
                param_type: p.param_type,
                ticket: p.ticket,
                attempts: p.attempts,
                deadline: p.deadline,
            },
        ),
        None => None,
    }
}

spec fn upload_of(p: Option<PendingUpload>) -> Option<Upload> {
    match p {
        Some(p) => Some(
            Upload {
                items: p.items@,
                mission_type: p.mission_type,
                ticket: p.ticket,
                items_sent: p.items_sent,
                deadline: p.deadline,
            },
        ),
        None => None,
    }
}

spec fn download_of(p: Option<PendingDownload>) -> Option<Download> {
    match p {
        Some(p) => Some(
            Download {
                mission_type: p.mission_type,
                ticket: p.ticket,
                expected_count: p.expected_count,
                items: p.items@,
                deadline: p.deadline,
            },
        ),
        None => None,
    }
}

/// Everything of the link but its receive buffer.
pub struct LinkCore {
    cfg: LinkConfig,
    seq: u8,
    pending: Option<Pending>,
    queue: VecDeque<Queued>,
    pending_param: Option<PendingParam>,
    upload: Option<PendingUpload>,
    download: Option<PendingDownload>,
    subscribed: bool,
    stats: LinkStats,
    slot: SetpointSlot,
    params: ParamStore,
    link_loss_until: Option<u64>,
    last_recv_ms: Option<u64>,
    last_heartbeat_ms: Option<u64>,
    outbox: Vec<Action>,
}

/// The state of a link.
#[verifier::ext_equal]
pub struct LinkModel {
    pub cfg: LinkConfig,
    /// Sequence number of the next frame.
    pub seq: u8,
    pub pending: Option<Pending>,
    pub queue: Seq<Queued>,
    pub param: Option<ParamWrite>,
    pub upload: Option<Upload>,
    pub download: Option<Download>,
    pub subscribed: bool,
    pub stats: StatsModel,
    pub slot: SetpointSlot,
    pub params: StoreModel,
    pub link_loss_until: Option<u64>,
    pub last_recv_ms: Option<u64>,
    pub last_heartbeat_ms: Option<u64>,
    /// Actions not yet taken.
    pub outbox: Seq<ActionModel>,
}

impl View for LinkCore {
    type V = LinkModel;

    closed spec fn view(&self) -> LinkModel {
        LinkModel {
            cfg: self.cfg,
            seq: self.seq,
            pending: self.pending,
            queue: self.queue@,
            param: param_write_of(self.pending_param),
            upload: upload_of(self.upload),
            download: download_of(self.download),
            subscribed: self.subscribed,
            stats: self.stats@,
            slot: self.slot,
            params: self.params@,
            link_loss_until: self.link_loss_until,
            last_recv_ms: self.last_recv_ms,
            last_heartbeat_ms: self.last_heartbeat_ms,
            outbox: actions_of(self.outbox@),
        }
    }
}

// Building blocks of the transition functions.

/// A later instant, held at the end of the clock.
pub open spec fn later(now: u64, ms: u64) -> u64 {
    if now + ms > u64::MAX {
        u64::MAX
    } else {
        (now + ms) as u64
    }
}

/// The vehicle's system id.
pub open spec fn vehicle_sysid(cfg: LinkConfig) -> u8 {
    (cfg.instance + 1) as u8
}

pub open spec fn own_frame(cfg: LinkConfig, msgid: u32, payload: Seq<u8>) -> FrameModel {
    FrameModel {
        seq: 0,
        sysid: cfg.manager_sysid,
        compid: cfg.manager_compid,
        msgid,
        payload,
        crc_ok: true,
    }
}

pub open spec fn with_counts(m: LinkModel, counts: LinkCounts) -> LinkModel {
    LinkModel { stats: StatsModel { counts, ..m.stats }, ..m }
}

/// One frame of our own goes out under the next sequence number.
pub open spec fn sending(m: LinkModel, msgid: u32, payload: Seq<u8>) -> LinkModel {
    let extra = match crc_extra_of(msgid) {
        Some(e) => e,
        None => 0,
    };
    LinkModel {
        seq: m.seq.wrapping_add(1),
        outbox: m.outbox.push(
            ActionModel::Send(v2_bytes(own_frame(m.cfg, msgid, payload), m.seq, extra)),
        ),
        stats: StatsModel {
            counts: LinkCounts { sent: m.stats.counts.sent.wrapping_add(1), ..m.stats.counts },
            ..m.stats
        },
        ..m
    }
}

pub open spec fn replying(m: LinkModel, ticket: Option<u64>, reply: ReplyModel) -> LinkModel {
    match ticket {
        Some(t) => LinkModel { outbox: m.outbox.push(ActionModel::Reply(t, reply)), ..m },
        None => m,
    }
}

pub open spec fn command_payload(cfg: LinkConfig, command: u16, params: CmdParams) -> Seq<u8> {
    CommandLong {
        target_system: vehicle_sysid(cfg),
        target_component: TARGET_COMPONENT,
        command,
        confirmation: 0,
        params,
    }.bytes()
}

/// A command goes out, counted as such.
pub open spec fn sending_command(m: LinkModel, command: u16, params: CmdParams) -> LinkModel {
    let s = sending(m, COMMAND_LONG, command_payload(m.cfg, command, params));
    with_counts(
        s,
        LinkCounts {
            commands_sent: s.stats.counts.commands_sent.wrapping_add(1),
            ..s.stats.counts
        },
    )
}

pub open spec fn param_payload(cfg: LinkConfig, id: Seq<u8>, value: u32, param_type: u8) -> Seq<u8> {
    param_set_bytes(vehicle_sysid(cfg), TARGET_COMPONENT, id, value, param_type)
}

// The retry ladder and the timeouts.

/// A command whose acknowledgement is overdue is sent again, or given up and
/// answered once its attempts are used up.
pub open spec fn command_ladder(m: LinkModel, now: u64) -> LinkModel {
    match m.pending {
        Some(p) => if now < p.deadline {
            m
        } else if p.attempts < m.cfg.cmd_attempts {
            let s = sending_command(m, p.command, p.params);
            LinkModel {
                pending: Some(
                    Pending {
                        attempts: (p.attempts + 1) as u32,
                        deadline: later(now, m.cfg.cmd_timeout_ms),
                        ..p
                    },
                ),
                ..with_counts(
                    s,
                    LinkCounts {
                        retries: s.stats.counts.retries.wrapping_add(1),
                        ..s.stats.counts
                    },
                )
            }
        } else {
            let s = LinkModel { pending: None, ..m };
            replying(
                with_counts(
                    s,
                    LinkCounts {
                        cmd_failures: s.stats.counts.cmd_failures.wrapping_add(1),
                        ..s.stats.counts
                    },
                ),
                p.ticket,
                ReplyModel::Command(CmdAck::Timeout { attempts: p.attempts }),
            )
        },
        None => m,
    }
}

/// A parameter write whose echo is overdue is sent again, or given up.
pub open spec fn param_ladder(m: LinkModel, now: u64) -> LinkModel {
    match m.param {
        Some(p) => if now < p.deadline {
            m
        } else if p.attempts < m.cfg.cmd_attempts {
            LinkModel {
                param: Some(
                    ParamWrite {
                        attempts: (p.attempts + 1) as u32,
                        deadline: later(now, PARAM_TIMEOUT_MS),
                        ..p
                    },
                ),
                ..sending(m, PARAM_SET, param_payload(m.cfg, p.param_id, p.value, p.param_type))
            }
        } else {
            replying(LinkModel { param: None, ..m }, Some(p.ticket), ReplyModel::Param(None))
        },
        None => m,
    }
}

pub open spec fn upload_deadline(m: LinkModel, now: u64) -> LinkModel {
    match m.upload {
        Some(u) => if now < u.deadline {
            m
        } else {
            replying(
                LinkModel { upload: None, ..m },
                Some(u.ticket),
                ReplyModel::Upload(
                    UploadOutcome::Timeout {
                        mission_type: u.mission_type,
                        items_sent: u.items_sent,
                        items_acked: 0,
                    },
                ),
            )
        },
        None => m,
    }
}

pub open spec fn download_deadline(m: LinkModel, now: u64) -> LinkModel {
    match m.download {
        Some(d) => if now < d.deadline {
            m
        } else {
            replying(
                LinkModel { download: None, ..m },
                Some(d.ticket),
                ReplyModel::Download(DownloadOutcome::Timeout { mission_type: d.mission_type }),
            )
        },
        None => m,
    }
}

/// The next queued command goes out once no command is in flight.
pub open spec fn next_command(m: LinkModel, now: u64) -> LinkModel {
    if m.pending is None && m.queue.len() > 0 {
        let q = m.queue[0];
        LinkModel {
            pending: Some(
                Pending {
                    command: q.command,
                    params: q.params,
                    ticket: q.ticket,
                    attempts: 1,
                    deadline: later(now, m.cfg.cmd_timeout_ms),
                },
            ),
            queue: m.queue.drop_first(),
            ..sending_command(m, q.command, q.params)
        }
    } else {
        m
    }
}

/// What is due at `now`, in order.
pub open spec fn serviced(m: LinkModel, now: u64) -> LinkModel {
    next_command(
        download_deadline(upload_deadline(param_ladder(command_ladder(m, now), now), now), now),
        now,
    )
}

// Received frames.

pub open spec fn count_at(counts: Map<u32, u64>, msgid: u32) -> u64 {
    if counts.contains_key(msgid) {
        counts[msgid]
    } else {
        0
    }
}

/// A frame is counted, by message and by whether its checksum could be
/// verified, and its arrival noted.
pub open spec fn frame_counted(m: LinkModel, f: FrameModel, now: u64) -> LinkModel {
    let c = m.stats.counts;
    LinkModel {
        stats: StatsModel {
            counts: LinkCounts {
                recv: c.recv.wrapping_add(1),
                crc_or_unknown_dropped: if f.crc_ok {
                    c.crc_or_unknown_dropped
                } else {
                    c.crc_or_unknown_dropped.wrapping_add(1)
                },
                ..c
            },
            msg_counts: m.stats.msg_counts.insert(
                f.msgid,
                count_at(m.stats.msg_counts, f.msgid).wrapping_add(1),
            ),
            ..m.stats
        },
        last_recv_ms: Some(now),
        last_heartbeat_ms: if f.msgid == HEARTBEAT {
            Some(now)
        } else {
            m.last_heartbeat_ms
        },
        ..m
    }
}

/// A request to stream one message at an interval in microseconds, zero for
/// the vehicle's default rate. Nobody waits for its acknowledgement.
pub open spec fn subscription(msgid: u32, interval_us: u32) -> Queued {
    Queued {
        command: SET_MESSAGE_INTERVAL,
        params: CmdParams {
            p1: f32_of_whole(msgid as nat),
            p2: f32_of_whole(interval_us as nat),
            p3: 0,
            p4: 0,
            p5: 0,
            p6: 0,
            p7: 0,
        },
        ticket: None,
    }
}

/// The telemetry the fleet subscribes to.
pub open spec fn subscriptions() -> Seq<Queued> {
    seq![
        subscription(ATTITUDE, FAST_INTERVAL_US),
        subscription(LOCAL_POSITION_NED, FAST_INTERVAL_US),
        subscription(SYS_STATUS, 0),
        subscription(GLOBAL_POSITION_INT, 0),
        subscription(BATTERY_STATUS, 0),
        subscription(HOME_POSITION, 0),
        subscription(STATUSTEXT, 0),
    ]
}

/// The first frame from the vehicle itself queues the subscriptions, once.
pub open spec fn contacted(m: LinkModel, f: FrameModel) -> LinkModel {
    if !m.subscribed && f.sysid == vehicle_sysid(m.cfg) {
        LinkModel {
            subscribed: true,
            queue: m.queue + subscriptions(),
            stats: StatsModel {
                counts: LinkCounts {
                    subscribe_requests_sent: m.stats.counts.subscribe_requests_sent.wrapping_add(7),
                    ..m.stats.counts
                },
                pre_request_msg_ids: m.stats.msg_counts,
                ..m.stats
            },
            ..m
        }
    } else {
        m
    }
}

/// An acknowledgement for us settles the command in flight if it is for that
/// command; any other one leaves it waiting.
pub open spec fn command_acked(m: LinkModel, e: EventModel) -> LinkModel {
    match e {
        EventModel::CommandAck { command, result, target_system, target_component } => {
            let for_us = target_system == 0 || target_system == m.cfg.manager_sysid;
            match m.pending {
                Some(p) => if for_us && p.command == command {
                    replying(
                        LinkModel { pending: None, ..m },
                        p.ticket,
                        ReplyModel::Command(
                            if result == MAV_RESULT_ACCEPTED {
                                CmdAck::Accepted
                            } else {
                                CmdAck::Rejected { result }
                            },
                        ),
                    )
                } else {
                    m
                },
                None => m,
            }
        },
        _ => m,
    }
}

/// A reported parameter enters the cache, and settles the write that waits
/// for it.
pub open spec fn param_reported(m: LinkModel, e: EventModel, now: u64) -> LinkModel {
    match e {
        EventModel::ParamValue { param_id, value, param_type, param_count, param_index } => {
            let s = LinkModel {
                params: ingested(
                    m.params,
                    param_id,
                    value,
                    param_type,
                    param_count,
                    param_index,
                    now,
                ),
                ..with_counts(
                    m,
                    LinkCounts {
                        param_values_recv: m.stats.counts.param_values_recv.wrapping_add(1),
                        ..m.stats.counts
                    },
                )
            };
            match m.param {
                Some(p) => if field_text(p.param_id, 0, 16) == param_id {
                    replying(
                        LinkModel { param: None, ..s },
                        Some(p.ticket),
                        ReplyModel::Param(Some(typed_reading(value, param_type))),
                    )
                } else {
                    s
                },
                None => s,
            }
        },
        _ => m,
    }
}

/// A ping is sent back to where it came from.
pub open spec fn ping_answered(m: LinkModel, f: FrameModel) -> LinkModel {
    match event_of(f) {
        EventModel::Ping { time_usec, seq } => sending(
            m,
            PING,
            Ping { time_usec, seq, target_system: f.sysid, target_component: f.compid }.bytes(),
        ),
        _ => m,
    }
}

/// An item as it is addressed to the vehicle.
pub open spec fn addressed(
    cfg: LinkConfig,
    item: MissionItemInt,
    seq: u16,
    mission_type: u8,
) -> MissionItemInt {
    MissionItemInt {
        target_system: vehicle_sysid(cfg),
        target_component: TARGET_COMPONENT,
        seq,
        mission_type,
        ..item
    }
}

pub open spec fn u16_max(a: u16, b: u16) -> u16 {
    if a < b {
        b
    } else {
        a
    }
}

/// The vehicle asks for one item of the running upload and gets it; that
/// keeps the upload alive.
pub open spec fn item_requested(m: LinkModel, r: MissionRequest, now: u64) -> LinkModel {
    match m.upload {
        Some(u) => if r.mission_type == u.mission_type && r.seq < u.items.len() {
            LinkModel {
                upload: Some(
                    Upload {
                        items_sent: u16_max(u.items_sent, r.seq.wrapping_add(1)),
                        deadline: later(now, MISSION_TIMEOUT_MS),
                        ..u
                    },
                ),
                ..sending(
                    m,
                    MISSION_ITEM_INT,
                    addressed(m.cfg, u.items[r.seq as int], r.seq, u.mission_type).bytes(),
                )
            }
        } else {
            m
        },
        None => m,
    }
}

pub open spec fn request_payload(cfg: LinkConfig, seq: u16, mission_type: u8) -> Seq<u8> {
    MissionRequest {
        seq,
        target_system: vehicle_sysid(cfg),
        target_component: TARGET_COMPONENT,
        mission_type,
    }.bytes()
}

/// The vehicle announces how many items it holds; the download starts over
/// with the first.
pub open spec fn count_announced(m: LinkModel, c: MissionCount, now: u64) -> LinkModel {
    match m.download {
        Some(d) => if c.mission_type == d.mission_type {
            LinkModel {
                download: Some(
                    Download {
                        expected_count: c.count,
                        items: Seq::empty(),
                        deadline: later(now, MISSION_TIMEOUT_MS),
                        ..d
                    },
                ),
                ..sending(m, MISSION_REQUEST, request_payload(m.cfg, 0, d.mission_type))
            }
        } else {
            m
        },
        None => m,
    }
}

/// The vehicle sends one item. The one after it is asked for, or the download
/// is acknowledged and answered when it was the last.
pub open spec fn item_received(m: LinkModel, item: MissionItemInt, now: u64) -> LinkModel {
    match m.download {
        Some(d) => if item.mission_type == d.mission_type {
            let next = item.seq.wrapping_add(1);
            if next < d.expected_count {
                LinkModel {
                    download: Some(
                        Download {
                            items: d.items.push(item),
                            deadline: later(now, MISSION_TIMEOUT_MS),
                            ..d
                        },
                    ),
                    ..sending(m, MISSION_REQUEST, request_payload(m.cfg, next, d.mission_type))
                }
            } else {
                replying(
                    LinkModel {
                        download: None,
                        ..sending(
                            m,
                            MISSION_ACK,
                            MissionAck {
                                target_system: vehicle_sysid(m.cfg),
                                target_component: TARGET_COMPONENT,
                                mission_result: MAV_MISSION_ACCEPTED,
                                mission_type: d.mission_type,
                            }.bytes(),
                        )
                    },
                    Some(d.ticket),
                    ReplyModel::Download(
                        DownloadOutcome::Done {
                            mission_type: d.mission_type,
                            items: d.items.push(item),
                        },
                    ),
                )
            }
        } else {
            m
        },
        None => m,
    }
}

pub open spec fn rejection_text(result: u8) -> Seq<char> {
    "PX4 rejected mission (result="@ + decimal(result as nat) + ")"@
}

/// The vehicle acknowledges the running upload, one way or the other.
pub open spec fn upload_acked(m: LinkModel, a: MissionAck) -> LinkModel {
    match m.upload {
        Some(u) => if a.mission_type == u.mission_type {
            replying(
                LinkModel { upload: None, ..m },
                Some(u.ticket),
                ReplyModel::Upload(
                    if a.mission_result == MAV_MISSION_ACCEPTED {
                        UploadOutcome::Done {
                            mission_type: u.mission_type,
                            items_sent: u.items_sent,
                            items_acked: u.items_sent,
                        }
                    } else {
                        UploadOutcome::Failed {
                            mission_type: u.mission_type,
                            reason: rejection_text(a.mission_result),
                            items_sent: u.items_sent,
                            items_acked: u.items_sent,
                        }
                    },
                ),
            )
        } else {
            m
        },
        None => m,
    }
}

/// What the message itself brings about.
pub open spec fn message_handled(m: LinkModel, f: FrameModel, now: u64) -> LinkModel {
    if f.msgid == COMMAND_ACK {
        command_acked(m, event_of(f))
    } else if f.msgid == PARAM_VALUE {
        param_reported(m, event_of(f), now)
    } else if f.msgid == PING {
        ping_answered(m, f)
    } else if f.msgid == MISSION_REQUEST || f.msgid == MISSION_REQUEST_INT {
        item_requested(m, MissionRequest::of(f.payload), now)
    } else if f.msgid == MISSION_COUNT {
        count_announced(m, MissionCount::of(f.payload), now)
    } else if f.msgid == MISSION_ITEM_INT {
        item_received(m, MissionItemInt::of(f.payload), now)
    } else if f.msgid == MISSION_ACK {
        upload_acked(m, MissionAck::of(f.payload))
    } else {
        m
    }
}

/// The frame's event is handed on.
pub open spec fn published(m: LinkModel, f: FrameModel) -> LinkModel {
    LinkModel { outbox: m.outbox.push(ActionModel::Publish(event_of(f))), ..m }
}

/// The whole effect of one received frame.
#[verifier::opaque]
pub open spec fn frame_handled(m: LinkModel, f: FrameModel, now: u64) -> LinkModel {
    published(message_handled(contacted(frame_counted(m, f, now), f), f, now), f)
}

/// The effect of several frames, in order.
pub open spec fn frames_handled(m: LinkModel, frames: Seq<FrameModel>, now: u64) -> LinkModel
    decreases frames.len(),
{
    if frames.len() == 0 {
        m
    } else {
        frames_handled(frame_handled(m, frames[0], now), frames.drop_first(), now)
    }
}

/// The whole frames in a buffer.
pub open spec fn frames_in(buf: Seq<u8>) -> Seq<FrameModel>
    decreases buf.len(),
{
    let (f, rest) = first_frame(guarded(buf));
    match f {
        Some(f) => if rest.len() < buf.len() {
            seq![f] + frames_in(rest)
        } else {
            seq![f]
        },
        None => Seq::empty(),
    }
}

/// What stays buffered once every whole frame has been taken out.
pub open spec fn left_over(buf: Seq<u8>) -> Seq<u8>
    decreases buf.len(),
{
    let (f, rest) = first_frame(guarded(buf));
    if f is Some && rest.len() < buf.len() {
        left_over(rest)
    } else {
        rest
    }
}

/// An injected link loss is over at `now`, or none is set.
pub open spec fn hearing(m: LinkModel, now: u64) -> bool {
    match m.link_loss_until {
        Some(until) => now >= until,
        None => true,
    }
}

/// A datagram on a link that hears.
pub open spec fn loss_cleared(m: LinkModel) -> LinkModel {
    LinkModel { link_loss_until: None, ..m }
}

/// A datagram during an injected link loss is counted and dropped.
pub open spec fn datagram_lost(m: LinkModel) -> LinkModel {
    with_counts(
        m,
        LinkCounts {
            dropped_link_loss: m.stats.counts.dropped_link_loss.wrapping_add(1),
            ..m.stats.counts
        },
    )
}

// Requests.

pub open spec fn first_bytes(s: Seq<u8>, n: nat) -> Seq<u8> {
    if s.len() <= n {
        s
    } else {
        s.subrange(0, n as int)
    }
}

/// A parameter write that still waits gives way to another one and is told
/// that no echo came.
pub open spec fn write_replaced(m: LinkModel) -> LinkModel {
    match m.param {
        Some(p) => replying(
            LinkModel { param: None, ..m },
            Some(p.ticket),
            ReplyModel::Param(None),
        ),
        None => m,
    }
}

/// An upload that still runs gives way to another one and is told that it
/// timed out.
pub open spec fn upload_replaced(m: LinkModel) -> LinkModel {
    match m.upload {
        Some(u) => replying(
            LinkModel { upload: None, ..m },
            Some(u.ticket),
            ReplyModel::Upload(
                UploadOutcome::Timeout {
                    mission_type: u.mission_type,
                    items_sent: 0,
                    items_acked: 0,
                },
            ),
        ),
        None => m,
    }
}

/// A download that still runs gives way to another one and is told that it
/// timed out.
pub open spec fn download_replaced(m: LinkModel) -> LinkModel {
    match m.download {
        Some(d) => replying(
            LinkModel { download: None, ..m },
            Some(d.ticket),
            ReplyModel::Download(DownloadOutcome::Timeout { mission_type: d.mission_type }),
        ),
        None => m,
    }
}

/// A request of the application is taken up.
pub open spec fn taken_up(m: LinkModel, cmd: LinkCommand, now: u64) -> LinkModel {
    match cmd {
        LinkCommand::SendCommand { command, params, ticket } => LinkModel {
            queue: m.queue.push(Queued { command, params, ticket: Some(ticket) }),
            ..m
        },
        LinkCommand::SetParam { param_id, value, param_type, ticket } => {
            let id = first_bytes(vstd::utf8::encode_utf8(param_id@), PARAM_ID_BYTES as nat);
            LinkModel {
                param: Some(
                    ParamWrite {
                        param_id: id,
                        value,
                        param_type,
                        ticket,
                        attempts: 1,
                        deadline: later(now, PARAM_TIMEOUT_MS),
                    },
                ),
                ..write_replaced(
                    sending(m, PARAM_SET, param_payload(m.cfg, id, value, param_type)),
                )
            }
        },
        LinkCommand::RequestParamList { ticket } => {
            let s = sending(
                m,
                PARAM_REQUEST_LIST,
                ParamRequestList {
                    target_system: vehicle_sysid(m.cfg),
                    target_component: TARGET_COMPONENT,
                }.bytes(),
            );
            replying(
                LinkModel {
                    params: requested(s.params, now),
                    ..with_counts(
                        s,
                        LinkCounts {
                            param_list_requests_sent:
                                s.stats.counts.param_list_requests_sent.wrapping_add(1),
                            ..s.stats.counts
                        },
                    )
                },
                Some(ticket),
                ReplyModel::ParamList(true),
            )
        },
        LinkCommand::MissionUpload { items, mission_type, ticket } => LinkModel {
            upload: Some(
                Upload {
                    items: items@,
                    mission_type,
                    ticket,
                    items_sent: 0,
                    deadline: later(now, MISSION_TIMEOUT_MS),
                },
            ),
            ..upload_replaced(
                sending(
                    m,
                    MISSION_COUNT,
                    MissionCount {
                        count: items@.len() as u16,
                        target_system: vehicle_sysid(m.cfg),
                        target_component: TARGET_COMPONENT,
                        mission_type,
                    }.bytes(),
                ),
            )
        },
        LinkCommand::MissionDownload { mission_type, ticket } => LinkModel {
            download: Some(
                Download {
                    mission_type,
                    ticket,
                    expected_count: 0,
                    items: Seq::empty(),
                    deadline: later(now, MISSION_TIMEOUT_MS),
                },
            ),
            ..download_replaced(
                sending(
                    m,
                    MISSION_REQUEST_LIST,
                    MissionRequestList {
                        target_system: vehicle_sysid(m.cfg),
                        target_component: TARGET_COMPONENT,
                        mission_type,
                    }.bytes(),
                ),
            )
        },
    }
}

// Timers.

pub open spec fn heartbeat_payload() -> Seq<u8> {
    Heartbeat {
        custom_mode: 0,
        mavtype: MAV_TYPE_GCS,
        autopilot: MAV_AUTOPILOT_INVALID,
        base_mode: MAV_MODE_FLAG_CUSTOM_ENABLED,
        system_status: MAV_STATE_ACTIVE,
        mavlink_version: 3,
    }.bytes()
}

pub open spec fn heartbeat_sent(m: LinkModel) -> LinkModel {
    let s = sending(m, HEARTBEAT, heartbeat_payload());
    with_counts(
        s,
        LinkCounts {
            heartbeats_sent: s.stats.counts.heartbeats_sent.wrapping_add(1),
            ..s.stats.counts
        },
    )
}

/// The goal the next period approaches, where it approaches one.
pub open spec fn approached(slot: SetpointSlot) -> Option<SetpointGoal> {
    if stepping(slot) {
        slot.goal
    } else {
        None
    }
}

/// Whether the pump moves the streamed position toward a goal.
pub open spec fn stepping(slot: SetpointSlot) -> bool {
    slot.active && !slot.velocity_mode && slot.goal is Some
}

/// The setpoint slot after one pump period, where `stepped` is the position
/// one profile step nearer the goal.
pub open spec fn slot_stepped(slot: SetpointSlot, stepped: Vec3) -> SetpointSlot {
    if stepping(slot) {
        SetpointSlot { current: stepped, yaw: slot.goal->0.yaw, ..slot }
    } else {
        slot
    }
}

/// The slot once it is held at a point.
pub open spec fn slot_held(slot: SetpointSlot, position: Vec3, yaw: u32) -> SetpointSlot {
    SetpointSlot {
        active: true,
        velocity_mode: false,
        current: position,
        yaw,
        goal: Some(SetpointGoal { position, yaw }),
        ..slot
    }
}

/// The slot once it is given a goal.
pub open spec fn slot_sent_to(slot: SetpointSlot, goal: SetpointGoal) -> SetpointSlot {
    SetpointSlot { velocity_mode: false, goal: Some(goal), ..slot }
}

/// The slot once it is given a velocity.
pub open spec fn slot_moving(slot: SetpointSlot, velocity: Vec3, yaw_rate: u32) -> SetpointSlot {
    SetpointSlot { velocity_mode: true, velocity, yaw_rate, ..slot }
}

/// The slot once its stream is stopped.
pub open spec fn slot_stopped(slot: SetpointSlot) -> SetpointSlot {
    SetpointSlot { active: false, ..slot }
}

pub open spec fn setpoint_payload(cfg: LinkConfig, slot: SetpointSlot, now: u64) -> Seq<u8> {
    let base = SetPositionTarget {
        time_boot_ms: now as u32,
        position: zero_vec3(),
        velocity: zero_vec3(),
        yaw: 0,
        yaw_rate: 0,
        type_mask: POSITION_ONLY,
        target_system: vehicle_sysid(cfg),
        target_component: TARGET_COMPONENT,
        coordinate_frame: MAV_FRAME_LOCAL_NED,
    };
    if slot.velocity_mode {
        SetPositionTarget {
            velocity: slot.velocity,
            yaw_rate: slot.yaw_rate,
            type_mask: VELOCITY_YAWRATE,
            ..base
        }.bytes()
    } else {
        SetPositionTarget { position: slot.current, yaw: slot.yaw, ..base }.bytes()
    }
}

/// One period of the setpoint pump; an inactive slot sends nothing.
pub open spec fn setpoint_pumped(m: LinkModel, now: u64, stepped: Vec3) -> LinkModel {
    if !m.slot.active {
        m
    } else {
        let slot = slot_stepped(m.slot, stepped);
        let s = sending(
            LinkModel { slot, ..m },
            SET_POSITION_TARGET_LOCAL_NED,
            setpoint_payload(m.cfg, slot, now),
        );
        with_counts(
            s,
            LinkCounts {
                setpoints_sent: s.stats.counts.setpoints_sent.wrapping_add(1),
                ..s.stats.counts
            },
        )
    }
}

/// The state of a link that has just been opened.
pub open spec fn opened(cfg: LinkConfig) -> LinkModel {
    LinkModel {
        cfg,
        seq: 0,
        pending: None,
        queue: Seq::empty(),
        param: None,
        upload: None,
        download: None,
        subscribed: false,
        stats: StatsModel {
            counts: LinkCounts::zero(),
            pre_request_msg_ids: Map::empty(),
            msg_counts: Map::empty(),
        },
        slot: SetpointSlot::idle(),
        params: empty_store(),
        link_loss_until: None,
        last_recv_ms: None,
        last_heartbeat_ms: None,
        outbox: Seq::empty(),
    }
}

fn frame_of_own(cfg: &LinkConfig, msgid: u32, payload: Vec<u8>) -> (f: Frame)
    ensures
        f@ == own_frame(*cfg, msgid, payload@),
{
    Frame {
        seq: 0,
        sysid: cfg.manager_sysid,
        compid: cfg.manager_compid,
        msgid,
        payload,
        crc_ok: true,
    }
}

fn subscribe_request(msgid: u32, interval_us: u32) -> (q: Queued)
    requires
        msgid < 0x100_0000,
        interval_us < 0x100_0000,
    ensures
        q == subscription(msgid, interval_us),
{
    Queued {
        command: SET_MESSAGE_INTERVAL,
        params: CmdParams {
            p1: whole_to_f32(msgid),
            p2: whole_to_f32(interval_us),
            p3: 0,
            p4: 0,
            p5: 0,
            p6: 0,
            p7: 0,
        },
        ticket: None,
    }
}

impl LinkCore {
    /// The vehicle has a system id, and the parameter cache is in order.
    pub closed spec fn wf(&self) -> bool {
        self.cfg.instance < 255 && self.params.wf()
    }

    /// A link with nothing sent or received yet.
    pub fn new(cfg: LinkConfig) -> (r: Self)
        requires
            cfg.instance < 255,
        ensures
            r.wf(),
            r@ == opened(cfg),
    {
        let r = LinkCore {
            cfg,
            seq: 0,
            pending: None,
            queue: VecDeque::new(),
            pending_param: None,
            upload: None,
            download: None,
            subscribed: false,
            stats: LinkStats {
                counts: LinkCounts {
                    sent: 0,
                    recv: 0,
                    dropped_link_loss: 0,
                    crc_or_unknown_dropped: 0,
                    retries: 0,
                    cmd_failures: 0,
                    commands_sent: 0,
                    setpoints_sent: 0,
                    heartbeats_sent: 0,
                    subscribe_requests_sent: 0,
                    param_list_requests_sent: 0,
                    param_values_recv: 0,
                },
                pre_request_msg_ids: BTreeMap::new(),
                msg_counts: BTreeMap::new(),
            },
            slot: SetpointSlot::default(),
            params: ParamStore::default(),
            link_loss_until: None,
            last_recv_ms: None,
            last_heartbeat_ms: None,
            outbox: Vec::new(),
        };
        assert(r@ =~= opened(cfg));
        r
    }

    fn act(&mut self, a: Action)
        requires
            old(self).wf(),
        ensures
            final(self).wf(),
            final(self)@ == (LinkModel { outbox: old(self)@.outbox.push(a@), ..old(self)@ }),
    {
        let ghost before = self.outbox@;
        self.outbox.push(a);
        assert(actions_of(self.outbox@) =~= actions_of(before).push(a@));
    }

    fn send(&mut self, msgid: u32, payload: Vec<u8>)
        requires
            old(self).wf(),
        ensures
            final(self).wf(),
            final(self)@ == sending(old(self)@, msgid, payload@),
    {
        let extra: u8 = match crc_extra(msgid) {
            Some(e) => e,
            None => 0,
        };
        let f = frame_of_own(&self.cfg, msgid, payload);
        let bytes = f.encode_v2(self.seq, extra);
        self.act(Action::Send(bytes));
        self.seq = self.seq.wrapping_add(1);
        self.stats.counts.sent = self.stats.counts.sent.wrapping_add(1);
    }

    fn answer(&mut self, ticket: Option<u64>, reply: Reply)
        requires
            old(self).wf(),
        ensures
            final(self).wf(),
            final(self)@ == replying(old(self)@, ticket, reply@),
    {
        match ticket {
            Some(t) => {
                self.act(Action::Reply(t, reply));
            },
            None => {},
        }
    }

    fn target(&self) -> (r: u8)
        requires
            self.wf(),
        ensures
            r == vehicle_sysid(self@.cfg),
    {
        self.cfg.instance + 1
    }

    fn send_command(&mut self, command: u16, params: CmdParams)
        requires
            old(self).wf(),
        ensures
            final(self).wf(),
            final(self)@ == sending_command(old(self)@, command, params),
    {
        let payload = CommandLong {
            target_system: self.target(),
            target_component: TARGET_COMPONENT,
            command,
            confirmation: 0,
            params,
        }.pack();
        self.send(COMMAND_LONG, payload);
        self.stats.counts.commands_sent = self.stats.counts.commands_sent.wrapping_add(1);
    }

    fn send_param(&mut self, id: &Vec<u8>, value: u32, param_type: u8)
        requires
            old(self).wf(),
        ensures
            final(self).wf(),
            final(self)@ == sending(
                old(self)@,
                PARAM_SET,
                param_payload(old(self)@.cfg, id@, value, param_type),
            ),
    {
        let set = ParamSet {
            target_system: self.target(),
            target_component: TARGET_COMPONENT,
            param_id: copied(id),
            value,
            param_type,
        };
        self.send(PARAM_SET, set.pack());
    }

    fn climb_command_ladder(&mut self, now: u64)
        requires
            old(self).wf(),
        ensures
            final(self).wf(),
            final(self)@ == command_ladder(old(self)@, now),
    {
        match self.pending {
            Some(p) => {
                if now >= p.deadline {
                    if p.attempts < self.cfg.cmd_attempts {
                        self.send_command(p.command, p.params);
                        self.stats.counts.retries = self.stats.counts.retries.wrapping_add(1);
                        self.pending = Some(
                            Pending {
                                command: p.command,
                                params: p.params,
                                ticket: p.ticket,
                                attempts: p.attempts + 1,
                                deadline: now.saturating_add(self.cfg.cmd_timeout_ms),
                            },
                        );
                    } else {
                        self.pending = None;
                        self.stats.counts.cmd_failures =
                        self.stats.counts.cmd_failures.wrapping_add(1);
                        self.answer(
                            p.ticket,
                            Reply::Command(CmdAck::Timeout { attempts: p.attempts }),
                        );
                    }
                }
            },
            None => {},
        }
    }

    fn climb_param_ladder(&mut self, now: u64)
        requires
            old(self).wf(),
        ensures
            final(self).wf(),
            final(self)@ == param_ladder(old(self)@, now),
    {
        match self.pending_param.take() {
            Some(p) => {
                if now >= p.deadline {
                    if p.attempts < self.cfg.cmd_attempts {
                        self.send_param(&p.param_id, p.value, p.param_type);
                        self.pending_param = Some(
                            PendingParam {
                                param_id: p.param_id,
                                value: p.value,
                                param_type: p.param_type,
                                ticket: p.ticket,
                                attempts: p.attempts + 1,
                                deadline: now.saturating_add(PARAM_TIMEOUT_MS),
                            },
                        );
                    } else {
                        self.answer(Some(p.ticket), Reply::Param(None));
                    }
                } else {
                    self.pending_param = Some(p);
                }
            },
            None => {},
        }
        assert(self@ =~= param_ladder(old(self)@, now));
    }

    fn expire_upload(&mut self, now: u64)
        requires
            old(self).wf(),
        ensures
            final(self).wf(),
            final(self)@ == upload_deadline(old(self)@, now),
    {
        match self.upload.take() {
            Some(u) => {
                if now >= u.deadline {
                    self.answer(
                        Some(u.ticket),
                        Reply::Upload(
                            MissionUploadResult::Timeout {
                                mission_type: u.mission_type,
                                items_sent: u.items_sent,
                                items_acked: 0,
                            },
                        ),
                    );
                } else {
                    self.upload = Some(u);
                }
            },
            None => {},
        }
        assert(self@ =~= upload_deadline(old(self)@, now));
    }

    fn expire_download(&mut self, now: u64)
        requires
            old(self).wf(),
        ensures
            final(self).wf(),
            final(self)@ == download_deadline(old(self)@, now),
    {
        match self.download.take() {
            Some(d) => {
                if now >= d.deadline {
                    self.answer(
                        Some(d.ticket),
                        Reply::Download(
                            MissionDownloadResult::Timeout { mission_type: d.mission_type },
                        ),
                    );
                } else {
                    self.download = Some(d);
                }
            },
            None => {},
        }
        assert(self@ =~= download_deadline(old(self)@, now));
    }

    fn start_next_command(&mut self, now: u64)
        requires
            old(self).wf(),
        ensures
            final(self).wf(),
            final(self)@ == next_command(old(self)@, now),
    {
        if self.pending.is_none() {
            match self.queue.pop_front() {
                Some(q) => {
                    self.send_command(q.command, q.params);
                    self.pending = Some(
                        Pending {
                            command: q.command,
                            params: q.params,
                            ticket: q.ticket,
                            attempts: 1,
                            deadline: now.saturating_add(self.cfg.cmd_timeout_ms),
                        },
                    );
                    assert(self.queue@ =~= old(self).queue@.drop_first());
                },
                None => {},
            }
        }
        assert(self@ =~= next_command(old(self)@, now));
    }

    /// Do what is due: retries, timeouts, the next queued command. To be
    /// called before every wait.
    pub fn service(&mut self, now: u64)
        requires
            old(self).wf(),
        ensures
            final(self).wf(),
            final(self)@ == serviced(old(self)@, now),
    {
        self.climb_command_ladder(now);
        self.climb_param_ladder(now);
        self.expire_upload(now);
        self.expire_download(now);
        self.start_next_command(now);
    }

    fn count_frame(&mut self, f: &Frame, now: u64)
        requires
            old(self).wf(),
        ensures
            final(self).wf(),
            final(self)@ == frame_counted(old(self)@, f@, now),
    {
        if !f.crc_ok {
            self.stats.counts.crc_or_unknown_dropped =
            self.stats.counts.crc_or_unknown_dropped.wrapping_add(1);
        }
        self.stats.counts.recv = self.stats.counts.recv.wrapping_add(1);
        let n: u64 = match self.stats.msg_counts.get(&f.msgid) {
            Some(n) => *n,
            None => 0,
        };
        let _ = self.stats.msg_counts.insert(f.msgid, n.wrapping_add(1));
        self.last_recv_ms = Some(now);
        if f.msgid == HEARTBEAT {
            self.last_heartbeat_ms = Some(now);
        }
        assert(self@ =~= frame_counted(old(self)@, f@, now));
    }

    fn subscribe_on_contact(&mut self, f: &Frame)
        requires
            old(self).wf(),
        ensures
            final(self).wf(),
            final(self)@ == contacted(old(self)@, f@),
    {
        if !self.subscribed && f.sysid == self.target() {
            self.subscribed = true;
            self.stats.pre_request_msg_ids = self.stats.msg_counts.clone();
            self.queue.push_back(subscribe_request(ATTITUDE, FAST_INTERVAL_US));
            self.queue.push_back(subscribe_request(LOCAL_POSITION_NED, FAST_INTERVAL_US));
            self.queue.push_back(subscribe_request(SYS_STATUS, 0));
            self.queue.push_back(subscribe_request(GLOBAL_POSITION_INT, 0));
            self.queue.push_back(subscribe_request(BATTERY_STATUS, 0));
            self.queue.push_back(subscribe_request(HOME_POSITION, 0));
            self.queue.push_back(subscribe_request(STATUSTEXT, 0));
            self.stats.counts.subscribe_requests_sent =
            self.stats.counts.subscribe_requests_sent.wrapping_add(7);
            assert(self.queue@ =~= old(self).queue@ + subscriptions());
        }
        assert(self@ =~= contacted(old(self)@, f@));
    }

    fn on_command_ack(&mut self, e: &TelemetryEvent)
        requires
            old(self).wf(),
        ensures
            final(self).wf(),
            final(self)@ == command_acked(old(self)@, e@),
    {
        match e {
            TelemetryEvent::CommandAck { command, result, target_system, target_component: _ } => {
                let for_us: bool = *target_system == 0 || *target_system == self.cfg.manager_sysid;
                match self.pending {
                    Some(p) => {
                        if for_us && p.command == *command {
                            self.pending = None;
                            let ack = if *result == MAV_RESULT_ACCEPTED {
                                CmdAck::Accepted
                            } else {
                                CmdAck::Rejected { result: *result }
                            };
                            self.answer(p.ticket, Reply::Command(ack));
                        }
                    },
                    None => {},
                }
            },
            _ => {},
        }
    }

    fn on_param_value(&mut self, e: &TelemetryEvent, now: u64)
        requires
            old(self).wf(),
        ensures
            final(self).wf(),
            final(self)@ == param_reported(old(self)@, e@, now),
    {
        match e {
            TelemetryEvent::ParamValue {
                param_id,
                value,
                param_type,
                param_count,
                param_index,
            } => {
                self.params.ingest(
                    param_id.as_str(),
                    *value,
                    *param_type,
                    *param_count,
                    *param_index,
                    now,
                );
                self.stats.counts.param_values_recv =
                self.stats.counts.param_values_recv.wrapping_add(1);
                match self.pending_param.take() {
                    Some(p) => {
                        let waiting = param_id_to_string(&p.param_id);
                        if same(waiting.as_str(), param_id.as_str()) {
                            let entry = ParamEntry {
                                value: *value,
                                param_type: *param_type,
                                param_index: *param_index,
                                last_seen_ms: 0,
                            };
                            self.answer(Some(p.ticket), Reply::Param(Some(entry.typed_value())));
                        } else {
                            self.pending_param = Some(p);
                        }
                    },
                    None => {},
                }
            },
            _ => {},
        }
        assert(self@ =~= param_reported(old(self)@, e@, now));
    }

    fn on_ping(&mut self, f: &Frame, e: &TelemetryEvent)
        requires
            old(self).wf(),
            e@ == event_of(f@),
        ensures
            final(self).wf(),
            final(self)@ == ping_answered(old(self)@, f@),
    {
        match e {
            TelemetryEvent::Ping { time_usec, seq } => {
                let payload = Ping {
                    time_usec: *time_usec,
                    seq: *seq,
                    target_system: f.sysid,
                    target_component: f.compid,
                }.pack();
                self.send(PING, payload);
            },
            _ => {},
        }
    }

    fn on_mission_request(&mut self, r: MissionRequest, now: u64)
        requires
            old(self).wf(),
        ensures
            final(self).wf(),
            final(self)@ == item_requested(old(self)@, r, now),
    {
        match self.upload.take() {
            Some(u) => {
                if r.mission_type == u.mission_type && (r.seq as usize) < u.items.len() {
                    let item: MissionItemInt = u.items[r.seq as usize];
                    let payload = MissionItemInt {
                        param1: item.param1,
                        param2: item.param2,
                        param3: item.param3,
                        param4: item.param4,
                        x: item.x,
                        y: item.y,
                        z: item.z,
                        seq: r.seq,
                        command: item.command,
                        target_system: self.target(),
                        target_component: TARGET_COMPONENT,
                        frame: item.frame,
                        current: item.current,
                        autocontinue: item.autocontinue,
                        mission_type: u.mission_type,
                    }.pack();
                    self.send(MISSION_ITEM_INT, payload);
                    let reached: u16 = r.seq.wrapping_add(1);
                    self.upload = Some(
                        PendingUpload {
                            items: u.items,
                            mission_type: u.mission_type,
                            ticket: u.ticket,
                            items_sent: if u.items_sent < reached {
                                reached
                            } else {
                                u.items_sent
                            },
                            deadline: now.saturating_add(MISSION_TIMEOUT_MS),
                        },
                    );
                } else {
                    self.upload = Some(u);
                }
            },
            None => {},
        }
        assert(self@ =~= item_requested(old(self)@, r, now));
    }

    fn request_item(&mut self, seq: u16, mission_type: u8)
        requires
            old(self).wf(),
        ensures
            final(self).wf(),
            final(self)@ == sending(
                old(self)@,
                MISSION_REQUEST,
                request_payload(old(self)@.cfg, seq, mission_type),
            ),
    {
        let payload = MissionRequest {
            seq,
            target_system: self.target(),
            target_component: TARGET_COMPONENT,
            mission_type,
        }.pack();
        self.send(MISSION_REQUEST, payload);
    }

    fn on_mission_count(&mut self, c: MissionCount, now: u64)
        requires
            old(self).wf(),
        ensures
            final(self).wf(),
            final(self)@ == count_announced(old(self)@, c, now),
    {
        match self.download.take() {
            Some(d) => {
                if c.mission_type == d.mission_type {
                    self.request_item(0, d.mission_type);
                    self.download = Some(
                        PendingDownload {
                            mission_type: d.mission_type,
                            ticket: d.ticket,
                            expected_count: c.count,
                            items: Vec::new(),
                            deadline: now.saturating_add(MISSION_TIMEOUT_MS),
                        },
                    );
                } else {
                    self.download = Some(d);
                }
            },
            None => {},
        }
        assert(self@ =~= count_announced(old(self)@, c, now));
    }

    fn on_mission_item(&mut self, item: MissionItemInt, now: u64)
        requires
            old(self).wf(),
        ensures
            final(self).wf(),
            final(self)@ == item_received(old(self)@, item, now),
    {
        match self.download.take() {
            Some(d) => {
                if item.mission_type == d.mission_type {
                    let next: u16 = item.seq.wrapping_add(1);
                    let mut items = d.items;
                    items.push(item);
                    if next < d.expected_count {
                        self.request_item(next, d.mission_type);
                        self.download = Some(
                            PendingDownload {
                                mission_type: d.mission_type,
                                ticket: d.ticket,
                                expected_count: d.expected_count,
                                items,
                                deadline: now.saturating_add(MISSION_TIMEOUT_MS),
                            },
                        );
                    } else {
                        let payload = MissionAck {
                            target_system: self.target(),
                            target_component: TARGET_COMPONENT,
                            mission_result: MAV_MISSION_ACCEPTED,
                            mission_type: d.mission_type,
                        }.pack();
                        self.send(MISSION_ACK, payload);
                        self.answer(
                            Some(d.ticket),
                            Reply::Download(
                                MissionDownloadResult::Done { mission_type: d.mission_type, items },
                            ),
                        );
                    }
                } else {
                    self.download = Some(d);
                }
            },
            None => {},
        }
        assert(self@ =~= item_received(old(self)@, item, now));
    }

    fn on_mission_ack(&mut self, a: MissionAck)
        requires
            old(self).wf(),
        ensures
            final(self).wf(),
            final(self)@ == upload_acked(old(self)@, a),
    {
        match self.upload.take() {
            Some(u) => {
                if a.mission_type == u.mission_type {
                    let result = if a.mission_result == MAV_MISSION_ACCEPTED {
                        MissionUploadResult::Done {
                            mission_type: u.mission_type,
                            items_sent: u.items_sent,
                            items_acked: u.items_sent,
                        }
                    } else {
                        let mut reason = String::from_str("PX4 rejected mission (result=");
                        push_decimal(&mut reason, a.mission_result as u64);
                        reason.append(")");
                        MissionUploadResult::Failed {
                            mission_type: u.mission_type,
                            reason,
                            items_sent: u.items_sent,
                            items_acked: u.items_sent,
                        }
                    };
                    self.answer(Some(u.ticket), Reply::Upload(result));
                } else {
                    self.upload = Some(u);
                }
            },
            None => {},
        }
        assert(self@ =~= upload_acked(old(self)@, a));
    }

    /// Take in one received frame.
    pub fn on_frame(&mut self, f: &Frame, now: u64)
        requires
            old(self).wf(),
        ensures
            final(self).wf(),
            final(self)@ == frame_handled(old(self)@, f@, now),
    {
        proof {
            reveal(frame_handled);
        }
        self.count_frame(f, now);
        self.subscribe_on_contact(f);
        let e = decode_event(f);
        if f.msgid == COMMAND_ACK {
            self.on_command_ack(&e);
        } else if f.msgid == PARAM_VALUE {
            self.on_param_value(&e, now);
        } else if f.msgid == PING {
            self.on_ping(f, &e);
        } else if f.msgid == MISSION_REQUEST || f.msgid == MISSION_REQUEST_INT {
            self.on_mission_request(MissionRequest::unpack(&f.payload), now);
        } else if f.msgid == MISSION_COUNT {
            self.on_mission_count(MissionCount::unpack(&f.payload), now);
        } else if f.msgid == MISSION_ITEM_INT {
            self.on_mission_item(MissionItemInt::unpack(&f.payload), now);
        } else if f.msgid == MISSION_ACK {
            self.on_mission_ack(MissionAck::unpack(&f.payload));
        }
        self.act(Action::Publish(e));
    }
}

fn copied(v: &Vec<u8>) -> (r: Vec<u8>)
    ensures
        r@ == v@,
{
    let mut r: Vec<u8> = Vec::new();
    let mut i: usize = 0;
    while i < v.len()
        invariant
            i <= v@.len(),
            r@ == v@.subrange(0, i as int),
        decreases v@.len() - i,
    {
        r.push(v[i]);
        assert(v@.subrange(0, i + 1) == v@.subrange(0, i as int).push(v@[i as int]));
        i = i + 1;
    }
    assert(v@.subrange(0, v@.len() as int) == v@);
    r
}

impl LinkCore {
    fn replace_write(&mut self)
        requires
            old(self).wf(),
        ensures
            final(self).wf(),
            final(self)@ == write_replaced(old(self)@),
    {
        match self.pending_param.take() {
            Some(p) => {
                self.answer(Some(p.ticket), Reply::Param(None));
            },
            None => {},
        }
        assert(self@ =~= write_replaced(old(self)@));
    }

    fn replace_upload(&mut self)
        requires
            old(self).wf(),
        ensures
            final(self).wf(),
            final(self)@ == upload_replaced(old(self)@),
    {
        match self.upload.take() {
            Some(u) => {
                self.answer(
                    Some(u.ticket),
                    Reply::Upload(
                        MissionUploadResult::Timeout {
                            mission_type: u.mission_type,
                            items_sent: 0,
                            items_acked: 0,
                        },
                    ),
                );
            },
            None => {},
        }
        assert(self@ =~= upload_replaced(old(self)@));
    }

    fn replace_download(&mut self)
        requires
            old(self).wf(),
        ensures
            final(self).wf(),
            final(self)@ == download_replaced(old(self)@),
    {
        match self.download.take() {
            Some(d) => {
                self.answer(
                    Some(d.ticket),
                    Reply::Download(
                        MissionDownloadResult::Timeout { mission_type: d.mission_type },
                    ),
                );
            },
            None => {},
        }
        assert(self@ =~= download_replaced(old(self)@));
    }

    /// Take up a request of the application.
    pub fn request(&mut self, cmd: LinkCommand, now: u64)
        requires
            old(self).wf(),
        ensures
            final(self).wf(),
            final(self)@ == taken_up(old(self)@, cmd, now),
    {
        match cmd {
            LinkCommand::SendCommand { command, params, ticket } => {
                self.queue.push_back(Queued { command, params, ticket: Some(ticket) });
            },
            LinkCommand::SetParam { param_id, value, param_type, ticket } => {
                let id = leading_bytes(param_id.as_str(), PARAM_ID_BYTES);
                self.send_param(&id, value, param_type);
                self.replace_write();
                self.pending_param = Some(
                    PendingParam {
                        param_id: id,
                        value,
                        param_type,
                        ticket,
                        attempts: 1,
                        deadline: now.saturating_add(PARAM_TIMEOUT_MS),
                    },
                );
            },
            LinkCommand::RequestParamList { ticket } => {
                let payload = ParamRequestList {
                    target_system: self.target(),
                    target_component: TARGET_COMPONENT,
                }.pack();
                self.send(PARAM_REQUEST_LIST, payload);
                self.stats.counts.param_list_requests_sent =
                self.stats.counts.param_list_requests_sent.wrapping_add(1);
                self.params.mark_requested(now);
                self.answer(Some(ticket), Reply::ParamList(true));
            },
            LinkCommand::MissionUpload { items, mission_type, ticket } => {
                let count: u16 = #[verifier::truncate] (items.len() as u16);
                let payload = MissionCount {
                    count,
                    target_system: self.target(),
                    target_component: TARGET_COMPONENT,
                    mission_type,
                }.pack();
                self.send(MISSION_COUNT, payload);
                self.replace_upload();
                self.upload = Some(
                    PendingUpload {
                        items,
                        mission_type,
                        ticket,
                        items_sent: 0,
                        deadline: now.saturating_add(MISSION_TIMEOUT_MS),
                    },
                );
            },
            LinkCommand::MissionDownload { mission_type, ticket } => {
                let payload = MissionRequestList {
                    target_system: self.target(),
                    target_component: TARGET_COMPONENT,
                    mission_type,
                }.pack();
                self.send(MISSION_REQUEST_LIST, payload);
                self.replace_download();
                self.download = Some(
                    PendingDownload {
                        mission_type,
                        ticket,
                        expected_count: 0,
                        items: Vec::new(),
                        deadline: now.saturating_add(MISSION_TIMEOUT_MS),
                    },
                );
            },
        }
        assert(self@ =~= taken_up(old(self)@, cmd, now));
    }

    /// The heartbeat timer fired.
    pub fn heartbeat(&mut self)
        requires
            old(self).wf(),
        ensures
            final(self).wf(),
            final(self)@ == heartbeat_sent(old(self)@),
    {
        let payload = Heartbeat {
            custom_mode: 0,
            mavtype: MAV_TYPE_GCS,
            autopilot: MAV_AUTOPILOT_INVALID,
            base_mode: MAV_MODE_FLAG_CUSTOM_ENABLED,
            system_status: MAV_STATE_ACTIVE,
            mavlink_version: 3,
        }.pack();
        self.send(HEARTBEAT, payload);
        self.stats.counts.heartbeats_sent = self.stats.counts.heartbeats_sent.wrapping_add(1);
    }

    /// The step the pump is about to take: the goal to approach, where it
    /// approaches one. The application computes the profile step.
    pub fn pump_goal(&self) -> (r: Option<SetpointGoal>)
        requires
            self.wf(),
        ensures
            r == (if stepping(self@.slot) {
                self@.slot.goal
            } else {
                None
            }),
            r == approached(self@.slot),
    {
        if self.slot.active && !self.slot.velocity_mode {
            self.slot.goal
        } else {
            None
        }
    }

    /// The setpoint timer fired; `stepped` is the position one profile step
    /// nearer the goal, unused where the pump approaches none.
    pub fn pump_setpoint(&mut self, now: u64, stepped: Vec3)
        requires
            old(self).wf(),
        ensures
            final(self).wf(),
            final(self)@ == setpoint_pumped(old(self)@, now, stepped),
    {
        if !self.slot.active {
            return ;
        }
        if !self.slot.velocity_mode {
            match self.slot.goal {
                Some(goal) => {
                    self.slot.current = stepped;
                    self.slot.yaw = goal.yaw;
                },
                None => {},
            }
        }
        let zero = Vec3 { x: 0, y: 0, z: 0 };
        let time_boot_ms: u32 = #[verifier::truncate] (now as u32);
        let msg = if self.slot.velocity_mode {
            SetPositionTarget {
                time_boot_ms,
                position: zero,
                velocity: self.slot.velocity,
                yaw: 0,
                yaw_rate: self.slot.yaw_rate,
                type_mask: VELOCITY_YAWRATE,
                target_system: self.target(),
                target_component: TARGET_COMPONENT,
                coordinate_frame: MAV_FRAME_LOCAL_NED,
            }
        } else {
            SetPositionTarget {
                time_boot_ms,
                position: self.slot.current,
                velocity: zero,
                yaw: self.slot.yaw,
                yaw_rate: 0,
                type_mask: POSITION_ONLY,
                target_system: self.target(),
                target_component: TARGET_COMPONENT,
                coordinate_frame: MAV_FRAME_LOCAL_NED,
            }
        };
        self.send(SET_POSITION_TARGET_LOCAL_NED, msg.pack());
        self.stats.counts.setpoints_sent = self.stats.counts.setpoints_sent.wrapping_add(1);
    }

    /// The watchdog timer fired: a silent parameter download is stalled.
    pub fn watchdog(&mut self, now: u64)
        requires
            old(self).wf(),
        ensures
            final(self).wf(),
            final(self)@ == (LinkModel {
                params: staleness_refreshed(old(self)@.params, now),
                ..old(self)@
            }),
    {
        self.params.refresh_staleness(now);
    }

    /// Hold the streamed setpoint at a point.
    pub fn hold_at(&mut self, position: Vec3, yaw: u32)
        requires
            old(self).wf(),
        ensures
            final(self).wf(),
            final(self)@ == (LinkModel {
                slot: SetpointSlot {
                    active: true,
                    velocity_mode: false,
                    current: position,
                    yaw,
                    goal: Some(SetpointGoal { position, yaw }),
                    ..old(self)@.slot
                },
                ..old(self)@
            }),
            final(self)@.slot == slot_held(old(self)@.slot, position, yaw),
    {
        self.slot.active = true;
        self.slot.velocity_mode = false;
        self.slot.current = position;
        self.slot.yaw = yaw;
        self.slot.goal = Some(SetpointGoal { position, yaw });
    }

    /// Stream toward a goal from wherever the setpoint stands.
    pub fn set_goal(&mut self, goal: SetpointGoal)
        requires
            old(self).wf(),
        ensures
            final(self).wf(),
            final(self)@ == (LinkModel {
                slot: SetpointSlot { velocity_mode: false, goal: Some(goal), ..old(self)@.slot },
                ..old(self)@
            }),
            final(self)@.slot == slot_sent_to(old(self)@.slot, goal),
    {
        self.slot.velocity_mode = false;
        self.slot.goal = Some(goal);
    }

    /// Stream a velocity and a yaw rate.
    pub fn set_velocity(&mut self, velocity: Vec3, yaw_rate: u32)
        requires
            old(self).wf(),
        ensures
            final(self).wf(),
            final(self)@ == (LinkModel {
                slot: SetpointSlot { velocity_mode: true, velocity, yaw_rate, ..old(self)@.slot },
                ..old(self)@
            }),
            final(self)@.slot == slot_moving(old(self)@.slot, velocity, yaw_rate),
    {
        self.slot.velocity_mode = true;
        self.slot.velocity = velocity;
        self.slot.yaw_rate = yaw_rate;
    }

    /// Stop the setpoint stream.
    pub fn stop_stream(&mut self)
        requires
            old(self).wf(),
        ensures
            final(self).wf(),
            final(self)@ == (LinkModel {
                slot: SetpointSlot { active: false, ..old(self)@.slot },
                ..old(self)@
            }),
            final(self)@.slot == slot_stopped(old(self)@.slot),
    {
        self.slot.active = false;
    }

    /// The streamed setpoint as it stands.
    pub fn slot_snapshot(&self) -> (r: SetpointSlot)
        ensures
            r == self@.slot,
    {
        self.slot
    }

    /// Drop received datagrams until the given link time, or stop doing so.
    pub fn set_link_loss(&mut self, until: Option<u64>)
        requires
            old(self).wf(),
        ensures
            final(self).wf(),
            final(self)@ == (LinkModel { link_loss_until: until, ..old(self)@ }),
    {
        self.link_loss_until = until;
    }

    /// The link counters.
    pub fn counts(&self) -> (r: LinkCounts)
        ensures
            r == self@.stats.counts,
    {
        self.stats.counts
    }

    /// How many frames of one message arrived.
    pub fn msg_count(&self, msgid: u32) -> (r: u64)
        ensures
            r == count_at(self@.stats.msg_counts, msgid),
    {
        match self.stats.msg_counts.get(&msgid) {
            Some(n) => *n,
            None => 0,
        }
    }

    /// The link statistics.
    pub fn stats(&self) -> (r: &LinkStats)
        ensures
            r@ == self@.stats,
    {
        &self.stats
    }

    /// The parameter cache.
    pub fn param_store(&self) -> (r: &ParamStore)
        requires
            self.wf(),
        ensures
            r.wf(),
            r@ == self@.params,
    {
        &self.params
    }

    /// Take the actions that wait in the outbox.
    pub fn take_actions(&mut self) -> (r: Vec<Action>)
        requires
            old(self).wf(),
        ensures
            final(self).wf(),
            actions_of(r@) == old(self)@.outbox,
            final(self)@ == (LinkModel { outbox: Seq::empty(), ..old(self)@ }),
    {
        let mut out: Vec<Action> = Vec::new();
        std::mem::swap(&mut out, &mut self.outbox);
        assert(actions_of(self.outbox@) =~= Seq::<ActionModel>::empty());
        out
    }
}

fn leading_bytes(s: &str, n: usize) -> (r: Vec<u8>)
    ensures
        r@ == first_bytes(vstd::utf8::encode_utf8(s@), n as nat),
{
    let b = s.as_bytes();
    let mut r: Vec<u8> = Vec::new();
    let mut i: usize = 0;
    while i < b.len() && i < n
        invariant
            i <= b@.len(),
            i <= n,
            r@ == b@.subrange(0, i as int),
        decreases b@.len() - i,
    {
        r.push(b[i]);
        assert(b@.subrange(0, i + 1) == b@.subrange(0, i as int).push(b@[i as int]));
        i = i + 1;
    }
    assert(r@ =~= first_bytes(b@, n as nat));
    r
}

/// A link: the machine and its receive buffer.
pub struct Link {
    decoder: Decoder,
    core: LinkCore,
}

impl Link {
    /// Bytes received and not yet decoded.
    pub closed spec fn buffer(&self) -> Seq<u8> {
        self.decoder@
    }

    pub closed spec fn state(&self) -> LinkModel {
        self.core@
    }

    pub closed spec fn wf(&self) -> bool {
        self.core.wf()
    }

    pub fn new(cfg: LinkConfig) -> (r: Self)
        requires
            cfg.instance < 255,
        ensures
            r.wf(),
            r.buffer() == Seq::<u8>::empty(),
            r.state() == opened(cfg),
    {
        Link { decoder: Decoder::new(), core: LinkCore::new(cfg) }
    }

    /// The machine, to hand it requests and timers.
    pub fn machine(&mut self) -> (r: &mut LinkCore)
        requires
            old(self).wf(),
        ensures
            r.wf(),
            r@ == old(self).state(),
            final(self).buffer() == old(self).buffer(),
            final(self).state() == final(r)@,
            final(self).wf() == final(r).wf(),
    {
        &mut self.core
    }

    /// Take in a datagram from the vehicle. During an injected link loss it
    /// is dropped whole; otherwise every frame that is complete by now is
    /// handled, in order.
    pub fn receive(&mut self, bytes: &[u8], now: u64)
        requires
            old(self).wf(),
        ensures
            final(self).wf(),
            !hearing(old(self).state(), now) ==> {
                &&& final(self).buffer() == old(self).buffer()
                &&& final(self).state() == datagram_lost(old(self).state())
            },
            hearing(old(self).state(), now) ==> {
                &&& final(self).buffer() == left_over(old(self).buffer() + bytes@)
                &&& final(self).state() == frames_handled(
                    loss_cleared(old(self).state()),
                    frames_in(old(self).buffer() + bytes@),
                    now,
                )
            },
    {
        match self.core.link_loss_until {
            Some(until) => {
                if now < until {
                    self.core.stats.counts.dropped_link_loss =
                    self.core.stats.counts.dropped_link_loss.wrapping_add(1);
                    return ;
                }
                self.core.link_loss_until = None;
            },
            None => {},
        }
        self.decoder.push(bytes);
        let ghost all = old(self).decoder@ + bytes@;
        let ghost start = loss_cleared(old(self).core@);
        assert(self.core@ == start);
        loop
            invariant
                self.core.wf(),
                hearing(old(self).core@, now),
                all == old(self).decoder@ + bytes@,
                start == loss_cleared(old(self).core@),
                left_over(self.decoder@) == left_over(all),
                frames_handled(self.core@, frames_in(self.decoder@), now) == frames_handled(
                    start,
                    frames_in(all),
                    now,
                ),
            decreases self.decoder@.len(),
        {
            let ghost buf = self.decoder@;
            proof {
                crate::frame::decoding_consumes_a_prefix(guarded(buf));
            }
            match self.decoder.next_frame() {
                Some(f) => {
                    proof {
                        let rest = self.decoder@;
                        let frames = frames_in(buf);
                        assert(frames == seq![f@] + frames_in(rest));
                        assert(frames[0] == f@);
                        assert(frames.drop_first() == frames_in(rest));
                    }
                    self.core.on_frame(&f, now);
                },
                None => {
                    return ;
                },
            }
        }
    }
}

// What a caller is told when no answer comes.

/// What the asker of a command is told: its answer, or that none came.
pub open spec fn told_of_command(queued: bool, answer: Option<CmdAck>) -> CmdAck {
    if !queued {
        CmdAck::Timeout { attempts: 0 }
    } else {
        match answer {
            Some(a) => a,
            None => CmdAck::Timeout { attempts: 3 },
        }
    }
}

/// What the asker of an upload is told.
pub open spec fn told_of_upload(
    queued: bool,
    answer: Option<UploadOutcome>,
    mission_type: u8,
) -> UploadOutcome {
    if !queued {
        UploadOutcome::Failed {
            mission_type,
            reason: "link task dropped"@,
            items_sent: 0,
            items_acked: 0,
        }
    } else {
        match answer {
            Some(a) => a,
            None => UploadOutcome::Timeout { mission_type, items_sent: 0, items_acked: 0 },
        }
    }
}

/// What the asker of a download is told.
pub open spec fn told_of_download(
    queued: bool,
    answer: Option<DownloadOutcome>,
    mission_type: u8,
) -> DownloadOutcome {
    if !queued {
        DownloadOutcome::Failed { mission_type, reason: "link task dropped"@ }
    } else {
        match answer {
            Some(a) => a,
            None => DownloadOutcome::Timeout { mission_type },
        }
    }
}

/// The outcome of a command request: `queued` says whether the link still
/// took it, `answer` what came back in time.
pub fn command_outcome(queued: bool, answer: Option<CmdAck>) -> (r: CmdAck)
    ensures
        r == (if !queued {
            CmdAck::Timeout { attempts: 0 }
        } else {
            match answer {
                Some(a) => a,
                None => CmdAck::Timeout { attempts: 3 },
            }
        }),
        r == told_of_command(queued, answer),
{
    if !queued {
        return CmdAck::Timeout { attempts: 0 };
    }
    match answer {
        Some(a) => a,
        None => CmdAck::Timeout { attempts: 3 },
    }
}

/// The outcome of a mission upload request.
pub fn upload_outcome(
    queued: bool,
    answer: Option<MissionUploadResult>,
    mission_type: u8,
) -> (r: MissionUploadResult)
    ensures
        r@ == (if !queued {
            UploadOutcome::Failed {
                mission_type,
                reason: "link task dropped"@,
                items_sent: 0,
                items_acked: 0,
            }
        } else {
            match answer {
                Some(a) => a@,
                None => UploadOutcome::Timeout { mission_type, items_sent: 0, items_acked: 0 },
            }
        }),
        r@ == told_of_upload(
            queued,
            match answer {
                Some(a) => Some(a@),
                None => None,
            },
            mission_type,
        ),
{
    if !queued {
        return MissionUploadResult::Failed {
            mission_type,
            reason: String::from_str("link task dropped"),
            items_sent: 0,
            items_acked: 0,
        };
    }
    match answer {
        Some(a) => a,
        None => MissionUploadResult::Timeout { mission_type, items_sent: 0, items_acked: 0 },
    }
}

/// The outcome of a mission download request.
pub fn download_outcome(
    queued: bool,
    answer: Option<MissionDownloadResult>,
    mission_type: u8,
) -> (r: MissionDownloadResult)
    ensures
        r@ == (if !queued {
            DownloadOutcome::Failed { mission_type, reason: "link task dropped"@ }
        } else {
            match answer {
                Some(a) => a@,
                None => DownloadOutcome::Timeout { mission_type },
            }
        }),
        r@ == told_of_download(
            queued,
            match answer {
                Some(a) => Some(a@),
                None => None,
            },
            mission_type,
        ),
{
    if !queued {
        return MissionDownloadResult::Failed {
            mission_type,
            reason: String::from_str("link task dropped"),
        };
    }
    match answer {
        Some(a) => a,
        None => MissionDownloadResult::Timeout { mission_type },
    }
}

/// The main and sub mode of a packed mode word.
pub open spec fn word_main(word: u32) -> u8 {
    ((word >> 16) & 0xFF) as u8
}

pub open spec fn word_sub(word: u32) -> u8 {
    ((word >> 24) & 0xFF) as u8
}

/// The parameters of a change to the mode a word packs.
pub open spec fn mode_change(word: u32) -> CmdParams {
    CmdParams {
        p1: f32_of_whole(MAV_MODE_FLAG_CUSTOM_ENABLED as nat),
        p2: f32_of_whole(word_main(word) as nat),
        p3: f32_of_whole(word_sub(word) as nat),
        p4: 0,
        p5: 0,
        p6: 0,
        p7: 0,
    }
}

/// Parameters of a mode change: the vehicle takes main and sub mode apart,
/// not the packed word.
pub fn mode_params(word: u32) -> (r: CmdParams)
    ensures
        r == (CmdParams {
            p1: f32_of_whole(MAV_MODE_FLAG_CUSTOM_ENABLED as nat),
            p2: f32_of_whole(word_main(word) as nat),
            p3: f32_of_whole(word_sub(word) as nat),
            p4: 0,
            p5: 0,
            p6: 0,
            p7: 0,
        }),
        r == mode_change(word),
{
    let main: u8 = ((word >> 16) & 0xFF) as u8;
    let sub: u8 = ((word >> 24) & 0xFF) as u8;
    CmdParams {
        p1: whole_to_f32(MAV_MODE_FLAG_CUSTOM_ENABLED as u32),
        p2: whole_to_f32(main as u32),
        p3: whole_to_f32(sub as u32),
        p4: 0,
        p5: 0,
        p6: 0,
        p7: 0,
    }
}

/// A plain floating-point write in the type the cache knows for the
/// parameter: an integer parameter is written as the integer.
pub fn typed_for_store(store: &ParamStore, id: &str, value: u32) -> (r: ParamVal)
    requires
        store.wf(),
    ensures
        r == (if crate::params::type_in(store@, id@) == Some(crate::params::PARAM_INT32) {
            ParamVal::Int32(crate::float::f32_as_i32(value))
        } else {
            ParamVal::Real32(value)
        }),
{
    match store.type_of(id) {
        Some(t) => {
            if t == crate::params::PARAM_INT32 {
                ParamVal::Int32(crate::float::f32_to_i32(value))
            } else {
                ParamVal::Real32(value)
            }
        },
        None => ParamVal::Real32(value),
    }
}

} // verus!
