//! What the manager knows of one vehicle, built up from telemetry.
//!
//! Floating-point readings are kept as bit patterns, attitude as the Euler
//! angles the vehicle reports, voltage in the millivolts it reports.

use std::collections::BTreeMap;
use vstd::prelude::*;
use crate::float::f32_is_finite;
#[allow(unused_imports)]
use crate::float::f32_finite;
use crate::link::LinkCounts;
use crate::messages::{TelemetryEvent, Vec3};
#[allow(unused_imports)]
use crate::messages::EventModel;
use crate::modes::MAV_MODE_FLAG_SAFETY_ARMED;
use crate::text::push_decimal;
#[allow(unused_imports)]
use crate::text::decimal;

verus! {

#[derive(Debug, Clone)]
pub struct VehicleState {
    pub index: u8,
    pub sysid: u8,
    pub compid: u16,
    /// Position estimate, north-east-down, metres from home.
    pub position_ned_m: Vec3,
    /// Roll, pitch and yaw in radians.
    pub attitude_rpy: Vec3,
    pub velocity_ned_ms: Vec3,
    pub lat_deg_e7: i32,
    pub lon_deg_e7: i32,
    pub alt_mm: i32,
    pub relative_alt_mm: i32,
    /// Charge in percent, -1 where unknown.
    pub battery_pct: i8,
    /// None until the first report.
    pub voltage_mv: Option<u16>,
    pub home_ned_m: Vec3,
    pub home_set: bool,
    pub mode_word: u32,
    pub armed: bool,
    /// Fleet time of the last heartbeat and of the last message.
    pub last_heartbeat_ms: u64,
    pub last_msg_ms: u64,
    pub link: LinkCounts,
    /// Average received messages per second.
    pub recv_rate_hz: u32,
    pub heartbeat_seen: bool,
    /// A local position has arrived with finite values.
    pub local_position_seen: bool,
    pub position_samples: u32,
    pub msg_counts: BTreeMap<u32, u64>,
    pub last_statustext: Option<String>,
}

#[verifier::ext_equal]
pub struct VehicleModel {
    pub index: u8,
    pub sysid: u8,
    pub compid: u16,
    pub position_ned_m: Vec3,
    pub attitude_rpy: Vec3,
    pub velocity_ned_ms: Vec3,
    pub lat_deg_e7: i32,
    pub lon_deg_e7: i32,
    pub alt_mm: i32,
    pub relative_alt_mm: i32,
    pub battery_pct: i8,
    pub voltage_mv: Option<u16>,
    pub home_ned_m: Vec3,
    pub home_set: bool,
    pub mode_word: u32,
    pub armed: bool,
    pub last_heartbeat_ms: u64,
    pub last_msg_ms: u64,
    pub link: LinkCounts,
    pub recv_rate_hz: u32,
    pub heartbeat_seen: bool,
    pub local_position_seen: bool,
    pub position_samples: u32,
    pub msg_counts: Map<u32, u64>,
    pub last_statustext: Option<Seq<char>>,
}

pub open spec fn text_of(s: Option<String>) -> Option<Seq<char>> {
    match s {
        Some(s) => Some(s@),
        None => None,
    }
}

impl View for VehicleState {
    type V = VehicleModel;

    open spec fn view(&self) -> VehicleModel {
        VehicleModel {
            index: self.index,
            sysid: self.sysid,
            compid: self.compid,
            position_ned_m: self.position_ned_m,
            attitude_rpy: self.attitude_rpy,
            velocity_ned_ms: self.velocity_ned_ms,
            lat_deg_e7: self.lat_deg_e7,
            lon_deg_e7: self.lon_deg_e7,
            alt_mm: self.alt_mm,
            relative_alt_mm: self.relative_alt_mm,
            battery_pct: self.battery_pct,
            voltage_mv: self.voltage_mv,
            home_ned_m: self.home_ned_m,
            home_set: self.home_set,
            mode_word: self.mode_word,
            armed: self.armed,
            last_heartbeat_ms: self.last_heartbeat_ms,
            last_msg_ms: self.last_msg_ms,
            link: self.link,
            recv_rate_hz: self.recv_rate_hz,
            heartbeat_seen: self.heartbeat_seen,
            local_position_seen: self.local_position_seen,
            position_samples: self.position_samples,
            msg_counts: self.msg_counts@,
            last_statustext: text_of(self.last_statustext),
        }
    }
}

pub open spec fn origin() -> Vec3 {
    Vec3 { x: 0, y: 0, z: 0 }
}

/// A vehicle nothing has been heard of.
pub open spec fn unheard(index: u8) -> VehicleModel {
    VehicleModel {
        index,
        sysid: 0,
        compid: 0,
        position_ned_m: origin(),
        attitude_rpy: origin(),
        velocity_ned_ms: origin(),
        lat_deg_e7: 0,
        lon_deg_e7: 0,
        alt_mm: 0,
        relative_alt_mm: 0,
        battery_pct: -1i8,
        voltage_mv: None,
        home_ned_m: origin(),
        home_set: false,
        mode_word: 0,
        armed: false,
        last_heartbeat_ms: 0,
        last_msg_ms: 0,
        link: LinkCounts::zero(),
        recv_rate_hz: 0,
        heartbeat_seen: false,
        local_position_seen: false,
        position_samples: 0,
        msg_counts: Map::empty(),
        last_statustext: None,
    }
}

pub open spec fn u32_up(n: u32) -> u32 {
    if n == u32::MAX {
        n
    } else {
        (n + 1) as u32
    }
}

pub open spec fn status_line(severity: u8, text: Seq<char>) -> Seq<char> {
    "[sev "@ + decimal(severity as nat) + "] "@ + text
}

/// Three numbers, none of them infinite or a NaN.
pub open spec fn all_finite(v: Vec3) -> bool {
    f32_finite(v.x) && f32_finite(v.y) && f32_finite(v.z)
}

/// What one telemetry event adds. A heartbeat counts only from the vehicle's
/// own system, a position as seen only once all its values are finite; every
/// event counts as a sign of life.
pub open spec fn observed(v: VehicleModel, e: EventModel, now: u64) -> VehicleModel {
    let v = VehicleModel { last_msg_ms: now, ..v };
    match e {
        EventModel::Heartbeat { sysid, compid, base_mode, custom_mode } => if sysid == v.index
            + 1 {
            VehicleModel {
                sysid,
                compid: compid as u16,
                heartbeat_seen: true,
                mode_word: custom_mode,
                armed: base_mode & MAV_MODE_FLAG_SAFETY_ARMED != 0,
                last_heartbeat_ms: now,
                ..v
            }
        } else {
            v
        },
        EventModel::Attitude { roll, pitch, yaw } => VehicleModel {
            attitude_rpy: Vec3 { x: roll, y: pitch, z: yaw },
            ..v
        },
        EventModel::LocalPositionNed { position, velocity } => VehicleModel {
            position_ned_m: position,
            velocity_ned_ms: velocity,
            local_position_seen: v.local_position_seen || (all_finite(position) && all_finite(
                velocity,
            )),
            position_samples: u32_up(v.position_samples),
            ..v
        },
        EventModel::GlobalPositionInt { lat, lon, alt, relative_alt } => VehicleModel {
            lat_deg_e7: lat,
            lon_deg_e7: lon,
            alt_mm: alt,
            relative_alt_mm: relative_alt,
            ..v
        },
        EventModel::SysStatus { voltage_battery_mv, battery_remaining_pct } => VehicleModel {
            battery_pct: battery_remaining_pct,
            voltage_mv: Some(voltage_battery_mv),
            ..v
        },
        EventModel::BatteryStatus { voltage_mv, battery_remaining_pct } => VehicleModel {
            battery_pct: battery_remaining_pct,
            voltage_mv: Some(voltage_mv),
            ..v
        },
        EventModel::HomePosition { position } => VehicleModel {
            home_ned_m: position,
            home_set: true,
            ..v
        },
        EventModel::StatusText { severity, text } => VehicleModel {
            last_statustext: Some(status_line(severity, text)),
            ..v
        },
        _ => v,
    }
}

fn finite_vec(v: Vec3) -> (r: bool)
    ensures
        r == all_finite(v),
{
    f32_is_finite(v.x) && f32_is_finite(v.y) && f32_is_finite(v.z)
}

impl VehicleState {
    pub fn new(index: u8) -> (r: Self)
        ensures
            r@ == unheard(index),
    {
        let zero = Vec3 { x: 0, y: 0, z: 0 };
        VehicleState {
            index,
            sysid: 0,
            compid: 0,
            position_ned_m: zero,
            attitude_rpy: zero,
            velocity_ned_ms: zero,
            lat_deg_e7: 0,
            lon_deg_e7: 0,
            alt_mm: 0,
            relative_alt_mm: 0,
            battery_pct: -1,
            voltage_mv: None,
            home_ned_m: zero,
            home_set: false,
            mode_word: 0,
            armed: false,
            last_heartbeat_ms: 0,
            last_msg_ms: 0,
            link: LinkCounts {
                sent: 0,
                recv: 0,
                dropped_link_loss: 0,
                crc_or_unknown_dropped: 0,
                retries: 0,
                cmd_failures: 0,
                commands_sent: 0,
                setpoints_sent: 0,
                heartbeats_sent: 0,
                subscribe_requests_sent: 0,
                param_list_requests_sent: 0,
                param_values_recv: 0,
            },
            recv_rate_hz: 0,
            heartbeat_seen: false,
            local_position_seen: false,
            position_samples: 0,
            msg_counts: BTreeMap::new(),
            last_statustext: None,
        }
    }

    /// Take in one telemetry event.
    pub fn observe(&mut self, e: &TelemetryEvent, now: u64)
        ensures
            final(self)@ == observed(old(self)@, e@, now),
    {
        self.last_msg_ms = now;
        match e {
            TelemetryEvent::Heartbeat { sysid, compid, base_mode, custom_mode } => {
                if *sysid as u16 == self.index as u16 + 1 {
                    self.sysid = *sysid;
                    self.compid = *compid as u16;
                    self.heartbeat_seen = true;
                    self.mode_word = *custom_mode;
                    self.armed = *base_mode & MAV_MODE_FLAG_SAFETY_ARMED != 0;
                    self.last_heartbeat_ms = now;
                }
            },
            TelemetryEvent::Attitude { roll, pitch, yaw } => {
                self.attitude_rpy = Vec3 { x: *roll, y: *pitch, z: *yaw };
            },
            TelemetryEvent::LocalPositionNed { position, velocity } => {
                self.position_ned_m = *position;
                self.velocity_ned_ms = *velocity;
                if finite_vec(*position) && finite_vec(*velocity) {
                    self.local_position_seen = true;
                }
                self.position_samples = self.position_samples.saturating_add(1);
            },
            TelemetryEvent::GlobalPositionInt { lat, lon, alt, relative_alt } => {
                self.lat_deg_e7 = *lat;
                self.lon_deg_e7 = *lon;
                self.alt_mm = *alt;
                self.relative_alt_mm = *relative_alt;
            },
            TelemetryEvent::SysStatus { voltage_battery_mv, battery_remaining_pct } => {
                self.battery_pct = *battery_remaining_pct;
                self.voltage_mv = Some(*voltage_battery_mv);
            },
            TelemetryEvent::BatteryStatus { voltage_mv, battery_remaining_pct } => {
                self.battery_pct = *battery_remaining_pct;
                self.voltage_mv = Some(*voltage_mv);
            },
            TelemetryEvent::HomePosition { position } => {
                self.home_ned_m = *position;
                self.home_set = true;
            },
            TelemetryEvent::StatusText { severity, text } => {
                let mut line = String::from_str("[sev ");
                push_decimal(&mut line, *severity as u64);
                line.append("] ");
                line.append(text.as_str());
                self.last_statustext = Some(line);
            },
            _ => {},
        }
    }
}

/// Time since a moment, none where it lies ahead.
pub open spec fn age(now: u64, since: u64) -> u64 {
    if now >= since {
        (now - since) as u64
    } else {
        0
    }
}

impl VehicleState {
    /// Time since the last message.
    pub fn telemetry_age_ms(&self, now: u64) -> (r: u64)
        ensures
            r == age(now, self@.last_msg_ms),
    {
        now.saturating_sub(self.last_msg_ms)
    }

    /// Time since the last heartbeat; `None` before the first.
    pub fn heartbeat_age_ms(&self, now: u64) -> (r: Option<u64>)
        ensures
            r == (if self@.last_heartbeat_ms > 0 {
                Some(age(now, self@.last_heartbeat_ms))
            } else {
                None
            }),
    {
        if self.last_heartbeat_ms > 0 {
            Some(now.saturating_sub(self.last_heartbeat_ms))
        } else {
            None
        }
    }
}

// Laws.

/// Whether a vehicle was ever heard is never forgotten, and every event is a
/// sign of life.
pub proof fn observation_is_monotone(v: VehicleModel, e: EventModel, now: u64)
    ensures
        v.heartbeat_seen ==> observed(v, e, now).heartbeat_seen,
        v.local_position_seen ==> observed(v, e, now).local_position_seen,
        v.home_set ==> observed(v, e, now).home_set,
        observed(v, e, now).position_samples >= v.position_samples,
        observed(v, e, now).last_msg_ms == now,
        observed(v, e, now).index == v.index,
{
}

/// A local position counts as seen only once one has arrived whose values are
/// all finite.
pub proof fn only_finite_positions_are_seen(v: VehicleModel, e: EventModel, now: u64)
    requires
        !v.local_position_seen,
    ensures
        observed(v, e, now).local_position_seen <==> (e matches EventModel::LocalPositionNed {
            position,
            velocity,
        } && all_finite(position) && all_finite(velocity)),
{
}

/// A heartbeat of another system changes nothing but the sign of life.
pub proof fn foreign_heartbeat_is_ignored(
    v: VehicleModel,
    sysid: u8,
    compid: u8,
    base_mode: u8,
    custom_mode: u32,
    now: u64,
)
    requires
        sysid != v.index + 1,
    ensures
        observed(v, EventModel::Heartbeat { sysid, compid, base_mode, custom_mode }, now) == (
        VehicleModel { last_msg_ms: now, ..v }),
{
}

/// The parts of a vehicle's state that no event ever touches.
pub open spec fn bookkeeping_kept(v: VehicleModel, w: VehicleModel) -> bool {
    &&& w.index == v.index
    &&& w.link == v.link
    &&& w.recv_rate_hz == v.recv_rate_hz
    &&& w.msg_counts == v.msg_counts
}

/// Who the vehicle is, its mode and its heartbeat are as they were.
pub open spec fn identity_kept(v: VehicleModel, w: VehicleModel) -> bool {
    &&& w.sysid == v.sysid
    &&& w.compid == v.compid
    &&& w.mode_word == v.mode_word
    &&& w.armed == v.armed
    &&& w.heartbeat_seen == v.heartbeat_seen
    &&& w.last_heartbeat_ms == v.last_heartbeat_ms
}

/// The local position, its velocity and their count are as they were.
pub open spec fn local_position_kept(v: VehicleModel, w: VehicleModel) -> bool {
    &&& w.position_ned_m == v.position_ned_m
    &&& w.velocity_ned_ms == v.velocity_ned_ms
    &&& w.local_position_seen == v.local_position_seen
    &&& w.position_samples == v.position_samples
}

pub open spec fn global_position_kept(v: VehicleModel, w: VehicleModel) -> bool {
    &&& w.lat_deg_e7 == v.lat_deg_e7
    &&& w.lon_deg_e7 == v.lon_deg_e7
    &&& w.alt_mm == v.alt_mm
    &&& w.relative_alt_mm == v.relative_alt_mm
}

pub open spec fn battery_kept(v: VehicleModel, w: VehicleModel) -> bool {
    w.battery_pct == v.battery_pct && w.voltage_mv == v.voltage_mv
}

pub open spec fn home_kept(v: VehicleModel, w: VehicleModel) -> bool {
    w.home_ned_m == v.home_ned_m && w.home_set == v.home_set
}

/// Each report is read back as it was given, every value in its own place, and
/// touches nothing but what it reports and the time of the last message:
/// latitude, longitude, altitude and relative altitude from a global position;
/// roll, pitch and yaw from an attitude; position and velocity from a local
/// position, which is counted; charge and voltage from either battery report;
/// the home point from a home position; identity, mode and armed state from
/// the vehicle's own heartbeat.
pub proof fn reports_are_read_back(v: VehicleModel, e: EventModel, now: u64)
    ensures
        ({
            let w = observed(v, e, now);
            &&& w.last_msg_ms == now
            &&& bookkeeping_kept(v, w)
            &&& match e {
                EventModel::Heartbeat { sysid, compid, base_mode, custom_mode } => {
                    if sysid == v.index + 1 {
                        &&& w.sysid == sysid
                        &&& w.compid == compid
                        &&& w.mode_word == custom_mode
                        &&& w.armed == (base_mode >= 128)
                        &&& w.heartbeat_seen
                        &&& w.last_heartbeat_ms == now
                    } else {
                        identity_kept(v, w)
                    }
                },
                _ => identity_kept(v, w),
            }
            &&& match e {
                EventModel::Attitude { roll, pitch, yaw } => w.attitude_rpy.x == roll
                    && w.attitude_rpy.y == pitch && w.attitude_rpy.z == yaw,
                _ => w.attitude_rpy == v.attitude_rpy,
            }
            &&& match e {
                EventModel::LocalPositionNed { position, velocity } => {
                    &&& w.position_ned_m == position
                    &&& w.velocity_ned_ms == velocity
                    &&& v.position_samples < u32::MAX ==> w.position_samples == v.position_samples
                        + 1
                    &&& v.position_samples == u32::MAX ==> w.position_samples == u32::MAX
                },
                _ => local_position_kept(v, w),
            }
            &&& match e {
                EventModel::GlobalPositionInt { lat, lon, alt, relative_alt } => {
                    &&& w.lat_deg_e7 == lat
                    &&& w.lon_deg_e7 == lon
                    &&& w.alt_mm == alt
                    &&& w.relative_alt_mm == relative_alt
                },
                _ => global_position_kept(v, w),
            }
            &&& match e {
                EventModel::SysStatus { voltage_battery_mv, battery_remaining_pct } => w.voltage_mv
                    == Some(voltage_battery_mv) && w.battery_pct == battery_remaining_pct,
                EventModel::BatteryStatus { voltage_mv, battery_remaining_pct } => w.voltage_mv
                    == Some(voltage_mv) && w.battery_pct == battery_remaining_pct,
                _ => battery_kept(v, w),
            }
            &&& match e {
                EventModel::HomePosition { position } => w.home_ned_m == position && w.home_set,
                _ => home_kept(v, w),
            }
            &&& match e {
                EventModel::StatusText { severity, text } => w.last_statustext == Some(
                    "[sev "@ + decimal(severity as nat) + "] "@ + text,
                ),
                _ => w.last_statustext == v.last_statustext,
            }
        }),
{
    if let EventModel::Heartbeat { base_mode, .. } = e {
        assert((base_mode & 0x80 != 0) == (base_mode >= 128)) by (bit_vector);
    }
}

/// A number's exponent field is not all ones, so it is neither infinite nor a
/// NaN.
pub open spec fn exponent_open(bits: u32) -> bool {
    bits as int % 0x8000_0000 < 0x7F80_0000
}

/// The first local position to count as seen has six values, none of them
/// infinite or a NaN; it is seen from then on.
pub proof fn seen_position_is_finite(v: VehicleModel, position: Vec3, velocity: Vec3, now: u64)
    ensures
        observed(
            v,
            EventModel::LocalPositionNed { position, velocity },
            now,
        ).local_position_seen <==> v.local_position_seen || (exponent_open(position.x)
            && exponent_open(position.y) && exponent_open(position.z) && exponent_open(velocity.x)
            && exponent_open(velocity.y) && exponent_open(velocity.z)),
{
}

/// A vehicle not heard of yet has no identity, position, mode, home or charge,
/// and is disarmed.
pub proof fn unheard_vehicle_is_blank(index: u8)
    ensures
        ({
            let v = unheard(index);
            let zero = Vec3 { x: 0, y: 0, z: 0 };
            &&& v.index == index
            &&& v.sysid == 0
            &&& v.compid == 0
            &&& v.position_ned_m == zero
            &&& v.attitude_rpy == zero
            &&& v.velocity_ned_ms == zero
            &&& v.lat_deg_e7 == 0
            &&& v.lon_deg_e7 == 0
            &&& v.alt_mm == 0
            &&& v.relative_alt_mm == 0
            &&& v.battery_pct == -1
            &&& v.voltage_mv is None
            &&& v.home_ned_m == zero
            &&& !v.home_set
            &&& v.mode_word == 0
            &&& !v.armed
            &&& v.last_heartbeat_ms == 0
            &&& v.last_msg_ms == 0
            &&& v.recv_rate_hz == 0
            &&& !v.heartbeat_seen
            &&& !v.local_position_seen
            &&& v.position_samples == 0
            &&& v.last_statustext is None
        }),
{
}

/// Right after an event the vehicle's telemetry is of no age, `ms` later of
/// age `ms`, and so is the heartbeat where the event was the vehicle's own.
pub proof fn age_counts_from_the_event(v: VehicleModel, e: EventModel, now: u64, ms: u64)
    requires
        now + ms <= u64::MAX,
    ensures
        age((now + ms) as u64, observed(v, e, now).last_msg_ms) == ms,
        age(now, (now + ms) as u64) == 0,
        e matches EventModel::Heartbeat { sysid, .. } && sysid == v.index + 1 ==> age(
            (now + ms) as u64,
            observed(v, e, now).last_heartbeat_ms,
        ) == ms,
{
}

} // verus!
