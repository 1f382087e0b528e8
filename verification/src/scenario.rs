//! Scenarios: the fleet, its surroundings, its tasks, what happens to it and
//! what counts as success.

use vstd::prelude::*;
#[allow(unused_imports)]
use crate::fleet::opt_text;
use crate::float::{f32_lt, f64_is_nan, f64_le, f64_lt};
#[allow(unused_imports)]
use crate::float::{f32_less, f64_at_most, f64_less, f64_nan};
use crate::fsm::{ALL_STATES, CAUSES};
use crate::messages::Vec3;
use crate::supervisor::is_on_globe;
#[allow(unused_imports)]
use crate::supervisor::on_globe;
use crate::text::{joined, push_decimal, same};
#[allow(unused_imports)]
use crate::text::decimal;

#[allow(unused_imports)]
use crate::float::{
    f32_order_is_by_rank, f32_rank, f32_ranked, f64_order_is_by_rank, f64_rank, f64_ranked,
};

#[allow(unused_imports)]
use crate::fsm::{FsmCause, FsmState};

verus! {

/// 300, double precision.
pub const F64_300: u64 = 0x4072_C000_0000_0000;

/// 30, double precision.
pub const F64_30: u64 = 0x403E_0000_0000_0000;

#[derive(Debug, Clone, PartialEq, Eq)]
pub struct FleetSection {
    pub count: Option<u8>,
    pub battery_sim: bool,
    pub restart_on_fault: bool,
    /// Supervisor rate; only ten ticks a second are accepted.
    pub tick_hz: u8,
    /// The fleet boots and holds: vehicles stay disarmed for configuration.
    pub hold_for_setup: bool,
}

impl Default for FleetSection {
    fn default() -> (r: Self)
        ensures
            r == (FleetSection {
                count: None,
                battery_sim: true,
                restart_on_fault: false,
                tick_hz: 10,
                hold_for_setup: false,
            }),
    {
        FleetSection {
            count: None,
            battery_sim: true,
            restart_on_fault: false,
            tick_hz: 10,
            hold_for_setup: false,
        }
    }
}

/// A fence around home.
#[derive(Debug, Clone)]
pub struct GeofenceSpec {
    /// North and east in metres, single precision.
    pub points_ned_m: Vec<(u32, u32)>,
    pub ceiling_m: u32,
    pub floor_m: u32,
}

/// Where the local frame lies, double precision.
#[derive(Debug, Clone, Copy, PartialEq, Eq)]
pub struct OriginSpec {
    pub lat_deg: u64,
    pub lon_deg: u64,
    pub alt_m: u64,
}

/// The default origin's latitude, longitude and altitude.
pub const ORIGIN_LAT: u64 = 0x4047_B2EA_209A_AA3B;

pub const ORIGIN_LON: u64 = 0x4021_1756_4302_B40F;

pub const ORIGIN_ALT: u64 = 0x407F_4000_0000_0000;

impl Default for OriginSpec {
    fn default() -> (r: Self)
        ensures
            r == (OriginSpec { lat_deg: ORIGIN_LAT, lon_deg: ORIGIN_LON, alt_m: ORIGIN_ALT }),
    {
        OriginSpec { lat_deg: ORIGIN_LAT, lon_deg: ORIGIN_LON, alt_m: ORIGIN_ALT }
    }
}

#[derive(Debug, Clone)]
pub struct EnvSection {
    pub geofence: Option<GeofenceSpec>,
    /// North, east and down in metres per second, single precision.
    pub wind_steady_ms: Vec3,
    pub turbulence: String,
    pub origin: Option<OriginSpec>,
}

#[derive(Debug, Clone)]
pub struct TaskSpec {
    pub id: String,
    /// North, east and down in metres, single precision.
    pub pos_ned_m: Vec3,
    pub hover_s: u32,
    pub reward: u32,
    pub deadline_s: Option<u32>,
}

#[derive(Debug, Clone)]
pub struct VehicleOverride {
    pub index: u8,
}

#[derive(Debug, Clone, PartialEq, Eq)]
pub struct FaultSpec {
    pub kind: String,
    pub start_ms: Option<u64>,
    pub duration_ms: Option<u64>,
}

#[derive(Debug, Clone)]
pub struct EventSpec {
    /// `link_loss`, `fault` or `estop`.
    pub kind: String,
    pub vehicle: Option<u8>,
    /// Seconds, double precision.
    pub start_s: Option<u64>,
    pub duration_s: Option<u64>,
    pub fault: Option<FaultSpec>,
}

/// A step of a vehicle's state machine that must have happened.
#[derive(Debug, Clone, PartialEq, Eq)]
pub struct FsmTraceSpec {
    pub vehicle: u8,
    pub from: String,
    pub to: String,
    pub cause: String,
}

#[derive(Debug, Clone)]
pub struct SuccessSection {
    pub all_tasks_done: Option<bool>,
    pub all_landed: Option<bool>,
    /// Seconds, double precision.
    pub max_time_s: Option<u64>,
    pub no_geofence_breach: Option<bool>,
    pub fsm_trace: Vec<FsmTraceSpec>,
}

#[derive(Debug, Clone)]
pub struct SimSection {
    pub command: Option<String>,
    /// Seconds, double precision.
    pub duration_s: Option<u64>,
}

/// A scenario.
#[derive(Debug, Clone)]
pub struct Scenario {
    pub fleet: FleetSection,
    pub env: EnvSection,
    pub tasks: Vec<TaskSpec>,
    pub vehicle_overrides: Vec<VehicleOverride>,
    pub events: Vec<EventSpec>,
    pub success: SuccessSection,
    pub sim: SimSection,
}

impl Default for Scenario {
    fn default() -> (r: Self)
        ensures
            r.fleet.count is None,
            r.fleet.battery_sim && !r.fleet.restart_on_fault && !r.fleet.hold_for_setup,
            r.fleet.tick_hz == 10,
            r.env.geofence is None,
            r.env.wind_steady_ms == (Vec3 { x: 0, y: 0, z: 0 }),
            r.env.turbulence@ == "moderate"@,
            r.env.origin is None,
            r.tasks@.len() == 0,
            r.vehicle_overrides@.len() == 0,
            r.events@.len() == 0,
            r.success.all_tasks_done is None,
            r.success.all_landed is None,
            r.success.max_time_s is None,
            r.success.no_geofence_breach is None,
            r.success.fsm_trace@.len() == 0,
            r.sim.command is None,
            r.sim.duration_s == Some(F64_300),
    {
        Scenario {
            fleet: FleetSection::default(),
            env: EnvSection {
                geofence: None,
                wind_steady_ms: Vec3 { x: 0, y: 0, z: 0 },
                turbulence: String::from_str("moderate"),
                origin: None,
            },
            tasks: Vec::new(),
            vehicle_overrides: Vec::new(),
            events: Vec::new(),
            success: SuccessSection {
                all_tasks_done: None,
                all_landed: None,
                max_time_s: None,
                no_geofence_breach: None,
                fsm_trace: Vec::new(),
            },
            sim: SimSection { command: None, duration_s: Some(F64_300) },
        }
    }
}

/// Why a scenario is refused.
#[derive(Debug, Clone, PartialEq, Eq)]
pub struct ScenarioError {
    pub message: String,
}

/// What geometry and number formatting say of a scenario.
#[derive(Debug, Clone)]
pub struct ScenarioFacts {
    /// What is wrong with the fence, if anything.
    pub fence_error: Option<String>,
    /// The origin's latitude and longitude in decimal.
    pub lat_text: String,
    pub lon_text: String,
}

// What is wrong with each part.

pub open spec fn vehicle_count(s: Scenario) -> u8 {
    match s.fleet.count {
        Some(n) => n,
        None => 2,
    }
}

pub open spec fn fleet_fault(s: Scenario) -> Option<Seq<char>> {
    if !(1 <= vehicle_count(s) <= 8) {
        Some("[fleet] count must be 1-8, got "@ + decimal(vehicle_count(s) as nat))
    } else if s.fleet.tick_hz != 10 {
        Some(
            "[fleet] tick_hz is fixed at 10 in v0.1, got "@ + decimal(
                s.fleet.tick_hz as nat,
            ),
        )
    } else {
        None
    }
}

/// A task's id is new, and it hovers forwards in time.
pub open spec fn task_fault(tasks: Seq<TaskSpec>, i: int) -> Option<Seq<char>> {
    if exists|j: int| 0 <= j < i && #[trigger] tasks[j].id@ == tasks[i].id@ {
        Some("duplicate task id '"@ + tasks[i].id@ + "'"@)
    } else if f32_less(tasks[i].hover_s, 0) {
        Some("task '"@ + tasks[i].id@ + "' hover_s must be >= 0"@)
    } else {
        None
    }
}

/// What is wrong with the first faulty one of the first `n` tasks.
pub open spec fn tasks_fault(tasks: Seq<TaskSpec>, n: nat) -> Option<Seq<char>>
    decreases n,
{
    if n == 0 {
        None
    } else {
        match tasks_fault(tasks, (n - 1) as nat) {
            Some(e) => Some(e),
            None => task_fault(tasks, n - 1),
        }
    }
}

pub open spec fn env_fault(s: Scenario, f: ScenarioFacts) -> Option<Seq<char>> {
    match f.fence_error {
        Some(e) => Some("[env] geofence: "@ + e@),
        None => match s.env.origin {
            Some(o) => if on_globe(o.lat_deg, o.lon_deg) {
                None
            } else {
                Some(
                    "[env] origin out of range (lat "@ + f.lat_text@ + ", lon "@ + f.lon_text@
                        + ")"@,
                )
            },
            None => None,
        },
    }
}

pub open spec fn event_fault(e: EventSpec, count: u8) -> Option<Seq<char>> {
    if e.kind@ != "link_loss"@ && e.kind@ != "fault"@ && e.kind@ != "estop"@ {
        Some("unknown [[event]] kind '"@ + e.kind@ + "'"@)
    } else if e.vehicle is Some && e.vehicle->0 >= count {
        Some(
            "[[event]] vehicle "@ + decimal(e.vehicle->0 as nat) + " out of range (count "@
                + decimal(count as nat) + ")"@,
        )
    } else if e.kind@ == "estop"@ && e.vehicle is Some {
        Some("[[event]] estop is fleet-wide; 'vehicle' must be omitted"@)
    } else if e.kind@ == "link_loss"@ && (e.vehicle is None || e.duration_s is None) {
        Some("[[event]] link_loss requires vehicle and duration_s"@)
    } else {
        None
    }
}

pub open spec fn events_fault(events: Seq<EventSpec>, count: u8, n: nat) -> Option<Seq<char>>
    decreases n,
{
    if n == 0 {
        None
    } else {
        match events_fault(events, count, (n - 1) as nat) {
            Some(e) => Some(e),
            None => event_fault(events[n - 1], count),
        }
    }
}

pub open spec fn override_fault(o: VehicleOverride, count: u8) -> Option<Seq<char>> {
    if o.index >= count {
        Some(
            "[[vehicle_override]] index "@ + decimal(o.index as nat) + " out of range (count "@
                + decimal(count as nat) + ")"@,
        )
    } else {
        None
    }
}

pub open spec fn overrides_fault(list: Seq<VehicleOverride>, count: u8, n: nat) -> Option<Seq<char>>
    decreases n,
{
    if n == 0 {
        None
    } else {
        match overrides_fault(list, count, (n - 1) as nat) {
            Some(e) => Some(e),
            None => override_fault(list[n - 1], count),
        }
    }
}

pub open spec fn names_a_state(s: Seq<char>) -> bool {
    exists|i: int| 0 <= i < 8 && #[trigger] ALL_STATES@[i].text() == s
}

pub open spec fn names_a_cause(s: Seq<char>) -> bool {
    exists|i: int| 0 <= i < 21 && #[trigger] CAUSES@[i].text() == s
}

pub open spec fn trace_fault(t: FsmTraceSpec, count: u8) -> Option<Seq<char>> {
    if !names_a_state(t.from@) || !names_a_state(t.to@) {
        Some("[success] fsm_trace from/to must be FSM states, got "@ + t.from@ + "->"@ + t.to@)
    } else if !names_a_cause(t.cause@) {
        Some("[success] fsm_trace unknown cause '"@ + t.cause@ + "'"@)
    } else if t.vehicle >= count {
        Some("[success] fsm_trace vehicle "@ + decimal(t.vehicle as nat) + " out of range"@)
    } else {
        None
    }
}

pub open spec fn traces_fault(list: Seq<FsmTraceSpec>, count: u8, n: nat) -> Option<Seq<char>>
    decreases n,
{
    if n == 0 {
        None
    } else {
        match traces_fault(list, count, (n - 1) as nat) {
            Some(e) => Some(e),
            None => trace_fault(list[n - 1], count),
        }
    }
}

pub open spec fn time_fault(s: Scenario) -> Option<Seq<char>> {
    match s.success.max_time_s {
        Some(t) => if f64_at_most(t, 0) {
            Some("[success] max_time_s must be positive"@)
        } else {
            None
        },
        None => None,
    }
}

pub open spec fn first_of(a: Option<Seq<char>>, b: Option<Seq<char>>) -> Option<Seq<char>> {
    match a {
        Some(e) => Some(e),
        None => b,
    }
}

/// What is wrong with a scenario: the first fault, part by part.
pub open spec fn scenario_fault(s: Scenario, f: ScenarioFacts) -> Option<Seq<char>> {
    let n = vehicle_count(s);
    first_of(
        fleet_fault(s),
        first_of(
            tasks_fault(s.tasks@, s.tasks@.len()),
            first_of(
                env_fault(s, f),
                first_of(
                    events_fault(s.events@, n, s.events@.len()),
                    first_of(
                        overrides_fault(s.vehicle_overrides@, n, s.vehicle_overrides@.len()),
                        first_of(
                            time_fault(s),
                            traces_fault(s.success.fsm_trace@, n, s.success.fsm_trace@.len()),
                        ),
                    ),
                ),
            ),
        ),
    )
}

fn is_state_name(s: &str) -> (r: bool)
    ensures
        r == names_a_state(s@),
{
    let states = ALL_STATES;
    let mut i: usize = 0;
    while i < 8
        invariant
            i <= 8,
            states@ == ALL_STATES@,
            states@.len() == 8,
            forall|k: int| 0 <= k < i ==> #[trigger] ALL_STATES@[k].text() != s@,
        decreases 8 - i,
    {
        if same(states[i].name(), s) {
            assert(ALL_STATES@[i as int].text() == s@);
            return true;
        }
        i = i + 1;
    }
    false
}

fn is_cause_name(s: &str) -> (r: bool)
    ensures
        r == names_a_cause(s@),
{
    let causes = CAUSES;
    let mut i: usize = 0;
    while i < 21
        invariant
            i <= 21,
            causes@ == CAUSES@,
            causes@.len() == 21,
            forall|k: int| 0 <= k < i ==> #[trigger] CAUSES@[k].text() != s@,
        decreases 21 - i,
    {
        if same(causes[i].name(), s) {
            assert(CAUSES@[i as int].text() == s@);
            return true;
        }
        i = i + 1;
    }
    false
}

fn quoted(head: &str, middle: &str, tail: &str) -> (r: String)
    ensures
        r@ == head@ + middle@ + tail@,
{
    let mut s = joined(head, middle);
    s.append(tail);
    s
}

impl Scenario {
    /// Number of vehicles; two where none is given.
    pub fn count(&self) -> (r: u8)
        ensures
            r == vehicle_count(*self),
    {
        match self.fleet.count {
            Some(n) => n,
            None => 2,
        }
    }

    fn check_fleet(&self) -> (r: Option<String>)
        ensures
            opt_text(r) == fleet_fault(*self),
    {
        let count: u8 = self.count();
        if !(1 <= count && count <= 8) {
            let mut s = String::from_str("[fleet] count must be 1-8, got ");
            push_decimal(&mut s, count as u64);
            return Some(s);
        }
        if self.fleet.tick_hz != 10 {
            let mut s = String::from_str(
                "[fleet] tick_hz is fixed at 10 in v0.1, got ",
            );
            push_decimal(&mut s, self.fleet.tick_hz as u64);
            return Some(s);
        }
        None
    }

    fn repeats(&self, i: usize) -> (r: bool)
        requires
            i < self.tasks@.len(),
        ensures
            r == (exists|j: int| 0 <= j < i && #[trigger] self.tasks@[j].id@ == self.tasks@[i as int].id@),
    {
        let mut j: usize = 0;
        while j < i
            invariant
                j <= i < self.tasks@.len(),
                forall|k: int| 0 <= k < j ==> #[trigger] self.tasks@[k].id@ != self.tasks@[i as int].id@,
            decreases i - j,
        {
            if same(self.tasks[j].id.as_str(), self.tasks[i].id.as_str()) {
                return true;
            }
            j = j + 1;
        }
        false
    }

    fn check_tasks(&self) -> (r: Option<String>)
        ensures
            opt_text(r) == tasks_fault(self.tasks@, self.tasks@.len()),
    {
        let mut i: usize = 0;
        while i < self.tasks.len()
            invariant
                i <= self.tasks@.len(),
                tasks_fault(self.tasks@, i as nat) is None,
            decreases self.tasks@.len() - i,
        {
            let t = &self.tasks[i];
            if self.repeats(i) {
                let e = quoted("duplicate task id '", t.id.as_str(), "'");
                proof {
                    assert(tasks_fault(self.tasks@, i as nat + 1) == Some(e@));
                    later_tasks_do_not_matter(self.tasks@, i as nat + 1, self.tasks@.len());
                }
                return Some(e);
            }
            if f32_lt(t.hover_s, 0) {
                let e = quoted("task '", t.id.as_str(), "' hover_s must be >= 0");
                proof {
                    assert(tasks_fault(self.tasks@, i as nat + 1) == Some(e@));
                    later_tasks_do_not_matter(self.tasks@, i as nat + 1, self.tasks@.len());
                }
                return Some(e);
            }
            i = i + 1;
        }
        None
    }

    fn check_env(&self, f: &ScenarioFacts) -> (r: Option<String>)
        ensures
            opt_text(r) == env_fault(*self, *f),
    {
        match &f.fence_error {
            Some(e) => return Some(joined("[env] geofence: ", e.as_str())),
            None => {},
        }
        match &self.env.origin {
            Some(o) => {
                if is_on_globe(o.lat_deg, o.lon_deg) {
                    None
                } else {
                    let mut s = joined("[env] origin out of range (lat ", f.lat_text.as_str());
                    s.append(", lon ");
                    s.append(f.lon_text.as_str());
                    s.append(")");
                    Some(s)
                }
            },
            None => None,
        }
    }

    fn check_events(&self) -> (r: Option<String>)
        ensures
            opt_text(r) == events_fault(self.events@, vehicle_count(*self), self.events@.len()),
    {
        let count: u8 = self.count();
        let mut i: usize = 0;
        while i < self.events.len()
            invariant
                i <= self.events@.len(),
                events_fault(self.events@, count, i as nat) is None,
                count == vehicle_count(*self),
            decreases self.events@.len() - i,
        {
            match check_event(&self.events[i], count) {
                Some(e) => {
                    proof {
                        assert(events_fault(self.events@, count, i as nat + 1) == Some(e@));
                        later_events_do_not_matter(
                            self.events@,
                            count,
                            i as nat + 1,
                            self.events@.len(),
                        );
                    }
                    return Some(e);
                },
                None => {},
            }
            i = i + 1;
        }
        None
    }

    fn check_overrides(&self) -> (r: Option<String>)
        ensures
            opt_text(r) == overrides_fault(
                self.vehicle_overrides@,
                vehicle_count(*self),
                self.vehicle_overrides@.len(),
            ),
    {
        let count: u8 = self.count();
        let mut i: usize = 0;
        while i < self.vehicle_overrides.len()
            invariant
                i <= self.vehicle_overrides@.len(),
                overrides_fault(self.vehicle_overrides@, count, i as nat) is None,
                count == vehicle_count(*self),
            decreases self.vehicle_overrides@.len() - i,
        {
            let index: u8 = self.vehicle_overrides[i].index;
            if index >= count {
                let mut s = String::from_str("[[vehicle_override]] index ");
                push_decimal(&mut s, index as u64);
                s.append(" out of range (count ");
                push_decimal(&mut s, count as u64);
                s.append(")");
                proof {
                    assert(overrides_fault(self.vehicle_overrides@, count, i as nat + 1) == Some(
                        s@,
                    ));
                    later_overrides_do_not_matter(
                        self.vehicle_overrides@,
                        count,
                        i as nat + 1,
                        self.vehicle_overrides@.len(),
                    );
                }
                return Some(s);
            }
            i = i + 1;
        }
        None
    }

    fn check_traces(&self) -> (r: Option<String>)
        ensures
            opt_text(r) == traces_fault(
                self.success.fsm_trace@,
                vehicle_count(*self),
                self.success.fsm_trace@.len(),
            ),
    {
        let count: u8 = self.count();
        let list = &self.success.fsm_trace;
        let mut i: usize = 0;
        while i < list.len()
            invariant
                i <= list@.len(),
                traces_fault(list@, count, i as nat) is None,
                list@ == self.success.fsm_trace@,
                count == vehicle_count(*self),
            decreases list@.len() - i,
        {
            match check_trace(&list[i], count) {
                Some(e) => {
                    proof {
                        assert(traces_fault(list@, count, i as nat + 1) == Some(e@));
                        later_traces_do_not_matter(list@, count, i as nat + 1, list@.len());
                    }
                    return Some(e);
                },
                None => {},
            }
            i = i + 1;
        }
        None
    }

    /// Check what the shape alone does not guarantee.
    pub fn validate(&self, facts: &ScenarioFacts) -> (r: Result<(), ScenarioError>)
        ensures
            match scenario_fault(*self, *facts) {
                None => r is Ok,
                Some(m) => r is Err && r->Err_0.message@ == m,
            },
    {
        match self.check_fleet() {
            Some(message) => return Err(ScenarioError { message }),
            None => {},
        }
        match self.check_tasks() {
            Some(message) => return Err(ScenarioError { message }),
            None => {},
        }
        match self.check_env(facts) {
            Some(message) => return Err(ScenarioError { message }),
            None => {},
        }
        match self.check_events() {
            Some(message) => return Err(ScenarioError { message }),
            None => {},
        }
        match self.check_overrides() {
            Some(message) => return Err(ScenarioError { message }),
            None => {},
        }
        match self.success.max_time_s {
            Some(t) => {
                if f64_le(t, 0) {
                    return Err(
                        ScenarioError {
                            message: String::from_str("[success] max_time_s must be positive"),
                        },
                    );
                }
            },
            None => {},
        }
        match self.check_traces() {
            Some(message) => return Err(ScenarioError { message }),
            None => {},
        }
        Ok(())
    }

    /// The origin of the local frame.
    pub fn geo_origin(&self) -> (r: OriginSpec)
        ensures
            r == (match self.env.origin {
                Some(o) => o,
                None => OriginSpec { lat_deg: ORIGIN_LAT, lon_deg: ORIGIN_LON, alt_m: ORIGIN_ALT },
            }),
    {
        match self.env.origin {
            Some(o) => o,
            None => OriginSpec::default(),
        }
    }

    /// Seconds the run may take, double precision.
    pub fn max_time_s(&self) -> (r: Option<u64>)
        ensures
            r == self.success.max_time_s,
    {
        self.success.max_time_s
    }

    /// The simulator's command template.
    pub fn sim_command(&self) -> (r: Option<String>)
        ensures
            opt_text(r) == opt_text(self.sim.command),
    {
        match &self.sim.command {
            Some(c) => Some(c.clone()),
            None => None,
        }
    }

    /// Seconds the simulator runs, double precision: five minutes where none
    /// are given, and never less than thirty.
    pub fn sim_duration_s(&self) -> (r: u64)
        ensures
            r == ({
                let d = match self.sim.duration_s {
                    Some(d) => d,
                    None => F64_300,
                };
                if f64_nan(d) || f64_less(d, F64_30) {
                    F64_30
                } else {
                    d
                }
            }),
    {
        let d: u64 = match self.sim.duration_s {
            Some(d) => d,
            None => F64_300,
        };
        if f64_is_nan(d) || f64_lt(d, F64_30) {
            F64_30
        } else {
            d
        }
    }
}

fn check_event(e: &EventSpec, count: u8) -> (r: Option<String>)
    ensures
        opt_text(r) == event_fault(*e, count),
{
    let kind = e.kind.as_str();
    let loss: bool = same(kind, "link_loss");
    let stop: bool = same(kind, "estop");
    if !loss && !same(kind, "fault") && !stop {
        return Some(quoted("unknown [[event]] kind '", kind, "'"));
    }
    match e.vehicle {
        Some(v) => {
            if v >= count {
                let mut s = String::from_str("[[event]] vehicle ");
                push_decimal(&mut s, v as u64);
                s.append(" out of range (count ");
                push_decimal(&mut s, count as u64);
                s.append(")");
                return Some(s);
            }
        },
        None => {},
    }
    if stop && e.vehicle.is_some() {
        return Some(
            String::from_str("[[event]] estop is fleet-wide; 'vehicle' must be omitted"),
        );
    }
    if loss && (e.vehicle.is_none() || e.duration_s.is_none()) {
        return Some(String::from_str("[[event]] link_loss requires vehicle and duration_s"));
    }
    None
}

fn check_trace(t: &FsmTraceSpec, count: u8) -> (r: Option<String>)
    ensures
        opt_text(r) == trace_fault(*t, count),
{
    if !is_state_name(t.from.as_str()) || !is_state_name(t.to.as_str()) {
        let mut s = joined(
            "[success] fsm_trace from/to must be FSM states, got ",
            t.from.as_str(),
        );
        s.append("->");
        s.append(t.to.as_str());
        return Some(s);
    }
    if !is_cause_name(t.cause.as_str()) {
        return Some(quoted("[success] fsm_trace unknown cause '", t.cause.as_str(), "'"));
    }
    if t.vehicle >= count {
        let mut s = String::from_str("[success] fsm_trace vehicle ");
        push_decimal(&mut s, t.vehicle as u64);
        s.append(" out of range");
        return Some(s);
    }
    None
}

proof fn later_tasks_do_not_matter(tasks: Seq<TaskSpec>, n: nat, m: nat)
    requires
        n <= m,
        tasks_fault(tasks, n) is Some,
    ensures
        tasks_fault(tasks, m) == tasks_fault(tasks, n),
    decreases m,
{
    if n < m {
        later_tasks_do_not_matter(tasks, n, (m - 1) as nat);
    }
}

proof fn later_events_do_not_matter(events: Seq<EventSpec>, count: u8, n: nat, m: nat)
    requires
        n <= m,
        events_fault(events, count, n) is Some,
    ensures
        events_fault(events, count, m) == events_fault(events, count, n),
    decreases m,
{
    if n < m {
        later_events_do_not_matter(events, count, n, (m - 1) as nat);
    }
}

proof fn later_overrides_do_not_matter(list: Seq<VehicleOverride>, count: u8, n: nat, m: nat)
    requires
        n <= m,
        overrides_fault(list, count, n) is Some,
    ensures
        overrides_fault(list, count, m) == overrides_fault(list, count, n),
    decreases m,
{
    if n < m {
        later_overrides_do_not_matter(list, count, n, (m - 1) as nat);
    }
}

proof fn later_traces_do_not_matter(list: Seq<FsmTraceSpec>, count: u8, n: nat, m: nat)
    requires
        n <= m,
        traces_fault(list, count, n) is Some,
    ensures
        traces_fault(list, count, m) == traces_fault(list, count, n),
    decreases m,
{
    if n < m {
        later_traces_do_not_matter(list, count, n, (m - 1) as nat);
    }
}

// Laws.

proof fn sound_tasks(tasks: Seq<TaskSpec>, n: nat, i: int)
    requires
        0 <= i < n,
        tasks_fault(tasks, n) is None,
    ensures
        task_fault(tasks, i) is None,
    decreases n,
{
    if i < n - 1 {
        sound_tasks(tasks, (n - 1) as nat, i);
    }
}

proof fn sound_events(events: Seq<EventSpec>, count: u8, n: nat, i: int)
    requires
        0 <= i < n,
        events_fault(events, count, n) is None,
    ensures
        event_fault(events[i], count) is None,
    decreases n,
{
    if i < n - 1 {
        sound_events(events, count, (n - 1) as nat, i);
    }
}

/// A scenario that is accepted has one to eight vehicles, tasks whose ids
/// differ, and events that name vehicles it has.
pub proof fn accepted_scenario_is_sound(s: Scenario, f: ScenarioFacts)
    requires
        scenario_fault(s, f) is None,
    ensures
        1 <= vehicle_count(s) <= 8,
        forall|i: int, j: int|
            0 <= i < j < s.tasks@.len() ==> (#[trigger] s.tasks@[i]).id@ != (
            #[trigger] s.tasks@[j]).id@,
        forall|i: int|
            0 <= i < s.events@.len() && (#[trigger] s.events@[i]).vehicle is Some
                ==> s.events@[i].vehicle->0 < vehicle_count(s),
{
    assert forall|i: int, j: int| 0 <= i < j < s.tasks@.len() implies (
    #[trigger] s.tasks@[i]).id@ != (#[trigger] s.tasks@[j]).id@ by {
        sound_tasks(s.tasks@, s.tasks@.len(), j);
    }
    assert forall|i: int|
        0 <= i < s.events@.len() && (#[trigger] s.events@[i]).vehicle is Some implies
        s.events@[i].vehicle->0 < vehicle_count(s) by {
        sound_events(s.events@, vehicle_count(s), s.events@.len(), i);
    }
}

/// A task that can stand after those before it: its id is new, and it hovers
/// for no negative time.
pub open spec fn sound_task(tasks: Seq<TaskSpec>, i: int) -> bool {
    &&& forall|j: int| 0 <= j < i ==> (#[trigger] tasks[j]).id@ != tasks[i].id@
    &&& !(f32_ranked(tasks[i].hover_s) && f32_rank(tasks[i].hover_s) < 0)
}

/// An event that can happen: a loss of link names its vehicle and its length,
/// a stop names no vehicle, and a vehicle that is named is in the fleet.
pub open spec fn sound_event(e: EventSpec, count: u8) -> bool {
    &&& e.vehicle matches Some(v) ==> v < count
    &&& {
        ||| e.kind@ == "link_loss"@ && e.vehicle is Some && e.duration_s is Some
        ||| e.kind@ == "fault"@
        ||| e.kind@ == "estop"@ && e.vehicle is None
    }
}

/// A transition that can be looked for: between two states, for a cause, of a
/// vehicle of the fleet.
pub open spec fn sound_trace(t: FsmTraceSpec, count: u8) -> bool {
    &&& exists|s: FsmState| #[trigger] s.text() == t.from@
    &&& exists|s: FsmState| #[trigger] s.text() == t.to@
    &&& exists|c: FsmCause| #[trigger] c.text() == t.cause@
    &&& t.vehicle < count
}

/// A scenario that can be run: one to eight vehicles, two where none is told,
/// at ten ticks a second; a fence that is one; an origin on the globe where
/// one is given; sound tasks, events, overrides and traces; and a time limit
/// that is not zero or less.
pub open spec fn sound_scenario(s: Scenario, f: ScenarioFacts) -> bool {
    let count: u8 = match s.fleet.count {
        Some(n) => n,
        None => 2,
    };
    &&& 1 <= count <= 8
    &&& s.fleet.tick_hz == 10
    &&& forall|i: int| 0 <= i < s.tasks@.len() ==> #[trigger] sound_task(s.tasks@, i)
    &&& f.fence_error is None
    &&& s.env.origin matches Some(o) ==> crate::operator_laws::is_place(o.lat_deg, o.lon_deg)
    &&& forall|i: int| 0 <= i < s.events@.len() ==> sound_event(#[trigger] s.events@[i], count)
    &&& forall|i: int|
        0 <= i < s.vehicle_overrides@.len() ==> (#[trigger] s.vehicle_overrides@[i]).index < count
    &&& s.success.max_time_s matches Some(t) ==> !(f64_ranked(t) && f64_rank(t) <= 0)
    &&& forall|i: int|
        0 <= i < s.success.fsm_trace@.len() ==> sound_trace(
            #[trigger] s.success.fsm_trace@[i],
            count,
        )
}

proof fn sound_tasks_have_no_fault(tasks: Seq<TaskSpec>, n: nat)
    requires
        n <= tasks.len(),
    ensures
        tasks_fault(tasks, n) is None <==> forall|i: int|
            0 <= i < n ==> #[trigger] sound_task(tasks, i),
    decreases n,
{
    if n > 0 {
        sound_tasks_have_no_fault(tasks, (n - 1) as nat);
        f32_order_is_by_rank(tasks[n - 1].hover_s, 0);
        assert(task_fault(tasks, n - 1) is None <==> sound_task(tasks, n - 1));
    }
}

proof fn sound_events_have_no_fault(events: Seq<EventSpec>, count: u8, n: nat)
    requires
        n <= events.len(),
    ensures
        events_fault(events, count, n) is None <==> forall|i: int|
            0 <= i < n ==> sound_event(#[trigger] events[i], count),
    decreases n,
{
    if n > 0 {
        sound_events_have_no_fault(events, count, (n - 1) as nat);
        reveal_strlit("link_loss");
        reveal_strlit("fault");
        reveal_strlit("estop");
        assert("link_loss"@.len() == 9 && "fault"@[0] == 'f' && "estop"@[0] == 'e');
        assert(event_fault(events[n - 1], count) is None <==> sound_event(events[n - 1], count));
    }
}

proof fn sound_overrides_have_no_fault(list: Seq<VehicleOverride>, count: u8, n: nat)
    requires
        n <= list.len(),
    ensures
        overrides_fault(list, count, n) is None <==> forall|i: int|
            0 <= i < n ==> (#[trigger] list[i]).index < count,
    decreases n,
{
    if n > 0 {
        sound_overrides_have_no_fault(list, count, (n - 1) as nat);
    }
}

proof fn every_state_is_in_the_list(s: FsmState)
    ensures
        0 <= s.rank() < 8,
        ALL_STATES@[s.rank()] == s,
{
}

proof fn every_cause_is_in_the_list(c: FsmCause)
    ensures
        0 <= c.rank() < 21,
        CAUSES@[c.rank()] == c,
{
}

proof fn names_mean_states_and_causes(s: Seq<char>)
    ensures
        names_a_state(s) <==> exists|x: FsmState| #[trigger] x.text() == s,
        names_a_cause(s) <==> exists|x: FsmCause| #[trigger] x.text() == s,
{
    if exists|x: FsmState| #[trigger] x.text() == s {
        let x = choose|x: FsmState| #[trigger] x.text() == s;
        every_state_is_in_the_list(x);
        assert(ALL_STATES@[x.rank()].text() == s);
    }
    if exists|x: FsmCause| #[trigger] x.text() == s {
        let x = choose|x: FsmCause| #[trigger] x.text() == s;
        every_cause_is_in_the_list(x);
        assert(CAUSES@[x.rank()].text() == s);
    }
}

proof fn sound_traces_have_no_fault(list: Seq<FsmTraceSpec>, count: u8, n: nat)
    requires
        n <= list.len(),
    ensures
        traces_fault(list, count, n) is None <==> forall|i: int|
            0 <= i < n ==> sound_trace(#[trigger] list[i], count),
    decreases n,
{
    if n > 0 {
        sound_traces_have_no_fault(list, count, (n - 1) as nat);
        let t = list[n - 1];
        names_mean_states_and_causes(t.from@);
        names_mean_states_and_causes(t.to@);
        names_mean_states_and_causes(t.cause@);
        assert(trace_fault(t, count) is None <==> sound_trace(t, count));
    }
}

/// A scenario is accepted exactly where it can be run.
pub proof fn accepted_means_sound(s: Scenario, f: ScenarioFacts)
    ensures
        scenario_fault(s, f) is None <==> sound_scenario(s, f),
{
    let n = vehicle_count(s);
    sound_tasks_have_no_fault(s.tasks@, s.tasks@.len());
    sound_events_have_no_fault(s.events@, n, s.events@.len());
    sound_overrides_have_no_fault(s.vehicle_overrides@, n, s.vehicle_overrides@.len());
    sound_traces_have_no_fault(s.success.fsm_trace@, n, s.success.fsm_trace@.len());
    if let Some(o) = s.env.origin {
        crate::operator_laws::places_are_on_the_globe(o.lat_deg, o.lon_deg);
    }
    if let Some(t) = s.success.max_time_s {
        f64_order_is_by_rank(t, 0);
    }
}

} // verus!
