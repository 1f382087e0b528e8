//! Starting and stopping the fleet process on demand.
//!
//! The process itself is the caller's: it is looked at, spawned and killed
//! outside, and what came of that is taken in here.

use vstd::prelude::*;
use crate::fleet::opt_text;
use crate::json::json_numbers_at;
#[allow(unused_imports)]
use crate::json::{json_numbers, opt_numbers};
use crate::listing::{extension_is, order_by};
#[allow(unused_imports)]
use crate::listing::{has_extension, in_order, numbers, ranked};
use crate::text::{join_path, joined, push_decimal, read_body};
#[allow(unused_imports)]
use crate::text::{body_text, decimal, opt_view, path_joined, texts};

verus! {

/// How long a started fleet has to answer, and the pause between two looks.
pub const START_TIMEOUT_MS: u64 = 120_000;

pub const START_POLL_MS: u64 = 500;

/// Where the fleet's control plane listens.
pub const FLEET_API_PORT: u16 = 8400;

/// A request that failed.
#[derive(Debug, Clone, PartialEq, Eq)]
pub enum SitlError {
    Running,
    NotRunning,
    ScenarioNotFound { name: String, path: String },
    BinaryMissing { path: String },
    LogCreate { path: String, error: String },
    LogOpen { path: String, error: String },
    Spawn { error: String },
    StartTimeout { pid: Option<u32>, last_error: String },
}

#[verifier::ext_equal]
pub enum SitlFault {
    Running,
    NotRunning,
    ScenarioNotFound { name: Seq<char>, path: Seq<char> },
    BinaryMissing { path: Seq<char> },
    LogCreate { path: Seq<char>, error: Seq<char> },
    LogOpen { path: Seq<char>, error: Seq<char> },
    Spawn { error: Seq<char> },
    StartTimeout { pid: Option<u32>, last_error: Seq<char> },
}

impl View for SitlError {
    type V = SitlFault;

    open spec fn view(&self) -> SitlFault {
        match self {
            SitlError::Running => SitlFault::Running,
            SitlError::NotRunning => SitlFault::NotRunning,
            SitlError::ScenarioNotFound { name, path } => SitlFault::ScenarioNotFound {
                name: name@,
                path: path@,
            },
            SitlError::BinaryMissing { path } => SitlFault::BinaryMissing { path: path@ },
            SitlError::LogCreate { path, error } => SitlFault::LogCreate {
                path: path@,
                error: error@,
            },
            SitlError::LogOpen { path, error } => SitlFault::LogOpen {
                path: path@,
                error: error@,
            },
            SitlError::Spawn { error } => SitlFault::Spawn { error: error@ },
            SitlError::StartTimeout { pid, last_error } => SitlFault::StartTimeout {
                pid: *pid,
                last_error: last_error@,
            },
        }
    }
}

pub open spec fn fault_status(e: SitlFault) -> u16 {
    match e {
        SitlFault::Running => 409,
        SitlFault::NotRunning => 409,
        SitlFault::ScenarioNotFound { .. } => 404,
        SitlFault::BinaryMissing { .. } => 500,
        SitlFault::LogCreate { .. } => 500,
        SitlFault::LogOpen { .. } => 500,
        SitlFault::Spawn { .. } => 500,
        SitlFault::StartTimeout { .. } => 408,
    }
}

pub open spec fn fault_code(e: SitlFault) -> Seq<char> {
    match e {
        SitlFault::Running => "SITL_RUNNING"@,
        SitlFault::NotRunning => "SITL_NOT_RUNNING"@,
        SitlFault::ScenarioNotFound { .. } => "SCENARIO_NOT_FOUND"@,
        SitlFault::BinaryMissing { .. } => "MAVFLEET_BINARY_MISSING"@,
        SitlFault::LogCreate { .. } => "LOG_CREATE_FAILED"@,
        SitlFault::LogOpen { .. } => "LOG_OPEN_FAILED"@,
        SitlFault::Spawn { .. } => "SPAWN_FAILED"@,
        SitlFault::StartTimeout { .. } => "FLEET_START_TIMEOUT"@,
    }
}

pub open spec fn pid_text(pid: Option<u32>) -> Seq<char> {
    match pid {
        Some(p) => "Some("@ + decimal(p as nat) + ")"@,
        None => "None"@,
    }
}

pub open spec fn fault_message(e: SitlFault) -> Seq<char> {
    match e {
        SitlFault::Running => "SITL is already running; stop it first"@,
        SitlFault::NotRunning => "SITL is not running"@,
        SitlFault::ScenarioNotFound { name, path } => "scenario '"@ + name + "' not found at "@
            + path,
        SitlFault::BinaryMissing { path } => "mavfleet binary not found at "@ + path,
        SitlFault::LogCreate { path, error } => "could not create log file "@ + path + ": "@
            + error,
        SitlFault::LogOpen { path, error } => "could not open log file "@ + path + ": "@ + error,
        SitlFault::Spawn { error } => "could not spawn mavfleet: "@ + error,
        SitlFault::StartTimeout { pid, last_error } => "mavfleet spawned (pid "@ + pid_text(pid)
            + ") but did not answer on :8400 within 120s; last error: "@ + last_error,
    }
}

impl SitlError {
    /// The HTTP status of the answer.
    pub fn http_status(&self) -> (r: u16)
        ensures
            r == fault_status(self@),
    {
        match self {
            SitlError::Running => 409,
            SitlError::NotRunning => 409,
            SitlError::ScenarioNotFound { .. } => 404,
            SitlError::BinaryMissing { .. } => 500,
            SitlError::LogCreate { .. } => 500,
            SitlError::LogOpen { .. } => 500,
            SitlError::Spawn { .. } => 500,
            SitlError::StartTimeout { .. } => 408,
        }
    }

    pub fn code(&self) -> (r: &'static str)
        ensures
            r@ == fault_code(self@),
    {
        match self {
            SitlError::Running => "SITL_RUNNING",
            SitlError::NotRunning => "SITL_NOT_RUNNING",
            SitlError::ScenarioNotFound { .. } => "SCENARIO_NOT_FOUND",
            SitlError::BinaryMissing { .. } => "MAVFLEET_BINARY_MISSING",
            SitlError::LogCreate { .. } => "LOG_CREATE_FAILED",
            SitlError::LogOpen { .. } => "LOG_OPEN_FAILED",
            SitlError::Spawn { .. } => "SPAWN_FAILED",
            SitlError::StartTimeout { .. } => "FLEET_START_TIMEOUT",
        }
    }

    pub fn message(&self) -> (r: String)
        ensures
            r@ == fault_message(self@),
    {
        match self {
            SitlError::Running => String::from_str("SITL is already running; stop it first"),
            SitlError::NotRunning => String::from_str("SITL is not running"),
            SitlError::ScenarioNotFound { name, path } => {
                let mut s = joined("scenario '", name.as_str());
                s.append("' not found at ");
                s.append(path.as_str());
                s
            },
            SitlError::BinaryMissing { path } => joined(
                "mavfleet binary not found at ",
                path.as_str(),
            ),
            SitlError::LogCreate { path, error } => {
                let mut s = joined("could not create log file ", path.as_str());
                s.append(": ");
                s.append(error.as_str());
                s
            },
            SitlError::LogOpen { path, error } => {
                let mut s = joined("could not open log file ", path.as_str());
                s.append(": ");
                s.append(error.as_str());
                s
            },
            SitlError::Spawn { error } => joined("could not spawn mavfleet: ", error.as_str()),
            SitlError::StartTimeout { pid, last_error } => {
                let mut s = String::from_str("mavfleet spawned (pid ");
                match pid {
                    Some(p) => {
                        s.append("Some(");
                        push_decimal(&mut s, *p as u64);
                        s.append(")");
                    },
                    None => s.append("None"),
                }
                s.append(") but did not answer on :8400 within 120s; last error: ");
                s.append(last_error.as_str());
                assert(s@ =~= fault_message(self@));
                s
            },
        }
    }
}

/// What is known of the fleet process.
#[derive(Debug, Clone)]
pub struct Sitl {
    /// Whether a process was spawned and not yet found gone.
    child: bool,
    pid: Option<u32>,
    started_at_ms: Option<u64>,
    run_dir: Option<String>,
    scenario: Option<String>,
    fleet_dir: String,
    default_scenario: String,
}

#[verifier::ext_equal]
pub struct SitlModel {
    pub child: bool,
    pub pid: Option<u32>,
    pub started_at_ms: Option<u64>,
    pub run_dir: Option<Seq<char>>,
    pub scenario: Option<Seq<char>>,
    pub fleet_dir: Seq<char>,
    pub default_scenario: Seq<char>,
}

impl View for Sitl {
    type V = SitlModel;

    closed spec fn view(&self) -> SitlModel {
        SitlModel {
            child: self.child,
            pid: self.pid,
            started_at_ms: self.started_at_ms,
            run_dir: opt_text(self.run_dir),
            scenario: opt_text(self.scenario),
            fleet_dir: self.fleet_dir@,
            default_scenario: self.default_scenario@,
        }
    }
}

/// What a client is told of the fleet process.
#[derive(Debug, Clone, PartialEq, Eq)]
pub struct SitlStatus {
    pub running: bool,
    pub vehicle_count: usize,
    pub pid: Option<u32>,
    pub started_at_ms: Option<u64>,
    pub run_dir: Option<String>,
    pub scenario: Option<String>,
}

#[verifier::ext_equal]
pub struct StatusModel {
    pub running: bool,
    pub vehicle_count: nat,
    pub pid: Option<u32>,
    pub started_at_ms: Option<u64>,
    pub run_dir: Option<Seq<char>>,
    pub scenario: Option<Seq<char>>,
}

impl View for SitlStatus {
    type V = StatusModel;

    open spec fn view(&self) -> StatusModel {
        StatusModel {
            running: self.running,
            vehicle_count: self.vehicle_count as nat,
            pid: self.pid,
            started_at_ms: self.started_at_ms,
            run_dir: opt_text(self.run_dir),
            scenario: opt_text(self.scenario),
        }
    }
}

/// How many vehicles the fleet's answer lists; none where it does not.
pub open spec fn vehicles_in(list: Option<Seq<Option<u64>>>) -> nat {
    match list {
        Some(l) => l.len(),
        None => 0,
    }
}

/// The vehicles the fleet's answer lists.
pub open spec fn vehicles_of(reply: Option<Seq<char>>) -> nat {
    match reply {
        Some(text) => vehicles_in(json_numbers(text, "/data/vehicles"@)),
        None => 0,
    }
}

fn count_vehicles(reply: Option<&[u8]>) -> (r: usize)
    ensures
        r == vehicles_of(body_text(reply)),
{
    match read_body(reply) {
        Some(text) => listed_vehicles(&json_numbers_at(text.as_str(), "/data/vehicles")),
        None => 0,
    }
}

/// The length of the list of vehicles in the fleet's answer.
pub fn listed_vehicles(list: &Option<Vec<Option<u64>>>) -> (r: usize)
    ensures
        r == vehicles_in(opt_numbers(*list)),
{
    match list {
        Some(l) => l.len(),
        None => 0,
    }
}

/// What is told of a process, given whether it lives and what the fleet
/// answered: a process that is gone shows nothing of its run.
pub open spec fn status_shown(m: SitlModel, alive: bool, reply: Option<Seq<char>>) -> StatusModel {
    if m.child && alive {
        StatusModel {
            running: true,
            vehicle_count: vehicles_of(reply),
            pid: m.pid,
            started_at_ms: m.started_at_ms,
            run_dir: m.run_dir,
            scenario: m.scenario,
        }
    } else {
        StatusModel {
            running: false,
            vehicle_count: 0,
            pid: None,
            started_at_ms: None,
            run_dir: None,
            scenario: None,
        }
    }
}

/// A process found gone is let go of.
pub open spec fn looked_at(m: SitlModel, alive: bool) -> SitlModel {
    SitlModel { child: m.child && alive, ..m }
}

/// Nothing of a run is left.
pub open spec fn forgotten(m: SitlModel) -> SitlModel {
    SitlModel {
        child: false,
        pid: None,
        started_at_ms: None,
        run_dir: None,
        scenario: None,
        ..m
    }
}

/// A process was spawned.
pub open spec fn started(
    m: SitlModel,
    pid: Option<u32>,
    now_ms: u64,
    run_dir: Seq<char>,
    scenario: Seq<char>,
) -> SitlModel {
    SitlModel {
        child: true,
        pid,
        started_at_ms: Some(now_ms),
        run_dir: Some(run_dir),
        scenario: Some(scenario),
        ..m
    }
}

/// What a start will run.
#[derive(Debug, Clone, PartialEq, Eq)]
pub struct StartPlan {
    pub scenario: String,
    pub scenario_path: String,
}

pub open spec fn plan_of(m: SitlModel, asked: Option<Seq<char>>) -> (Seq<char>, Seq<char>) {
    let name = match asked {
        Some(n) => n,
        None => m.default_scenario,
    };
    (name, path_joined(path_joined(m.fleet_dir, "tests"@), name))
}

/// The answer to a request to start: the plan, unless a process lives.
pub open spec fn start_answer(m: SitlModel, alive: bool, asked: Option<Seq<char>>) -> Result<
    (Seq<char>, Seq<char>),
    SitlFault,
> {
    if m.child && alive {
        Err(SitlFault::Running)
    } else {
        Ok(plan_of(m, asked))
    }
}

/// The answer to a request to stop: what is left to do, if there was a run.
pub open spec fn stop_answer(m: SitlModel, exited: bool) -> Result<StopStep, SitlFault> {
    if !m.child {
        Err(SitlFault::NotRunning)
    } else if exited {
        Ok(StopStep::AlreadyExited)
    } else {
        Ok(StopStep::Kill)
    }
}

pub open spec fn after_stop(m: SitlModel) -> SitlModel {
    if m.child {
        forgotten(m)
    } else {
        m
    }
}

/// What a stop has to do.
#[derive(Debug, Clone, Copy, PartialEq, Eq, Structural)]
pub enum StopStep {
    /// The process is gone already.
    AlreadyExited,
    /// The process is to be killed, and what it may have left behind.
    Kill,
}

impl Sitl {
    pub fn new(fleet_dir: String, default_scenario: String) -> (r: Self)
        ensures
            r@ == (SitlModel {
                child: false,
                pid: None,
                started_at_ms: None,
                run_dir: None,
                scenario: None,
                fleet_dir: fleet_dir@,
                default_scenario: default_scenario@,
            }),
    {
        Sitl {
            child: false,
            pid: None,
            started_at_ms: None,
            run_dir: None,
            scenario: None,
            fleet_dir,
            default_scenario,
        }
    }

    /// What a client is told, given whether the process lives and the bytes of
    /// the fleet's answer, if there was one.
    pub fn status(&mut self, alive: bool, reply: Option<&[u8]>) -> (r: SitlStatus)
        ensures
            final(self)@ == looked_at(old(self)@, alive),
            r@ == status_shown(old(self)@, alive, body_text(reply)),
    {
        self.child = self.child && alive;
        if self.child {
            SitlStatus {
                running: true,
                vehicle_count: count_vehicles(reply),
                pid: self.pid,
                started_at_ms: self.started_at_ms,
                run_dir: self.run_dir.clone(),
                scenario: self.scenario.clone(),
            }
        } else {
            SitlStatus {
                running: false,
                vehicle_count: 0,
                pid: None,
                started_at_ms: None,
                run_dir: None,
                scenario: None,
            }
        }
    }

    /// Begin a start: refused while a process lives. Gives the scenario and
    /// where it is looked for.
    pub fn begin_start(&mut self, alive: bool, asked: Option<String>) -> (r: Result<
        StartPlan,
        SitlError,
    >)
        ensures
            final(self)@ == looked_at(old(self)@, alive),
            (match r {
                Ok(p) => Ok((p.scenario@, p.scenario_path@)),
                Err(e) => Err(e@),
            }) == (if old(self)@.child && alive {
                Err(SitlFault::Running)
            } else {
                Ok(plan_of(old(self)@, opt_text(asked)))
            }),
            (match r {
                Ok(p) => Ok((p.scenario@, p.scenario_path@)),
                Err(e) => Err(e@),
            }) == start_answer(old(self)@, alive, opt_text(asked)),
    {
        self.child = self.child && alive;
        if self.child {
            return Err(SitlError::Running);
        }
        let scenario = match asked {
            Some(n) => n,
            None => self.default_scenario.clone(),
        };
        let tests = join_path(self.fleet_dir.as_str(), "tests");
        let scenario_path = join_path(tests.as_str(), scenario.as_str());
        Ok(StartPlan { scenario, scenario_path })
    }

    /// Take in a spawned process.
    pub fn note_started(
        &mut self,
        pid: Option<u32>,
        now_ms: u64,
        run_dir: String,
        scenario: String,
    )
        ensures
            final(self)@ == started(old(self)@, pid, now_ms, run_dir@, scenario@),
    {
        self.child = true;
        self.pid = pid;
        self.started_at_ms = Some(now_ms);
        self.run_dir = Some(run_dir);
        self.scenario = Some(scenario);
    }

    /// Stop the process, given whether it is gone already. Nothing of the run
    /// is left afterwards.
    pub fn stop(&mut self, exited: bool) -> (r: Result<StopStep, SitlError>)
        ensures
            (match r {
                Ok(s) => Ok(s),
                Err(e) => Err(e@),
            }) == (if !old(self)@.child {
                Err(SitlFault::NotRunning)
            } else if exited {
                Ok(StopStep::AlreadyExited)
            } else {
                Ok(StopStep::Kill)
            }),
            final(self)@ == (if old(self)@.child {
                forgotten(old(self)@)
            } else {
                old(self)@
            }),
            (match r {
                Ok(s) => Ok(s),
                Err(e) => Err(e@),
            }) == stop_answer(old(self)@, exited),
            final(self)@ == after_stop(old(self)@),
    {
        if !self.child {
            return Err(SitlError::NotRunning);
        }
        self.child = false;
        self.pid = None;
        self.started_at_ms = None;
        self.run_dir = None;
        self.scenario = None;
        if exited {
            Ok(StopStep::AlreadyExited)
        } else {
            Ok(StopStep::Kill)
        }
    }
}

/// Whether the scenario is there.
pub fn check_scenario(plan: &StartPlan, exists: bool) -> (r: Result<(), SitlError>)
    ensures
        (match r {
            Ok(_) => None,
            Err(e) => Some(e@),
        }) == (if exists {
            None
        } else {
            Some(
                SitlFault::ScenarioNotFound { name: plan.scenario@, path: plan.scenario_path@ },
            )
        }),
{
    if exists {
        Ok(())
    } else {
        Err(
            SitlError::ScenarioNotFound {
                name: plan.scenario.clone(),
                path: plan.scenario_path.clone(),
            },
        )
    }
}

/// Whether the fleet's binary is there.
pub fn check_binary(path: &str, exists: bool) -> (r: Result<(), SitlError>)
    ensures
        (match r {
            Ok(_) => None,
            Err(e) => Some(e@),
        }) == (if exists {
            None
        } else {
            Some(SitlFault::BinaryMissing { path: path@ })
        }),
{
    if exists {
        Ok(())
    } else {
        Err(SitlError::BinaryMissing { path: String::from_str(path) })
    }
}

/// The directory of a run: under the scratch directory beside the fleet's,
/// named by the time in seconds. `parent` is the directory that holds the
/// fleet's, where it has one.
pub open spec fn run_dir_of(fleet_dir: Seq<char>, parent: Option<Seq<char>>, secs: u64) -> Seq<
    char,
> {
    let base = match parent {
        Some(p) => p,
        None => fleet_dir,
    };
    path_joined(path_joined(base, "scratch"@), "fleet-run-"@ + decimal(secs as nat))
}

/// The directory of a run.
pub fn run_dir(fleet_dir: &str, parent: Option<&str>, secs: u64) -> (r: String)
    ensures
        r@ == run_dir_of(fleet_dir@, opt_view(parent), secs),
{
    let base = match parent {
        Some(p) => p,
        None => fleet_dir,
    };
    let scratch = join_path(base, "scratch");
    let mut name = String::from_str("fleet-run-");
    push_decimal(&mut name, secs);
    join_path(scratch.as_str(), name.as_str())
}

/// The autopilot's directory: as the environment says, else beside the
/// directories that hold the fleet's.
pub fn px4_dir(env: Option<&str>, fleet_dir: &str, grandparent: Option<&str>) -> (r: String)
    ensures
        r@ == (match opt_view(env) {
            Some(d) => d,
            None => path_joined(
                match opt_view(grandparent) {
                    Some(g) => g,
                    None => fleet_dir@,
                },
                "PX4-Autopilot"@,
            ),
        }),
{
    match env {
        Some(d) => String::from_str(d),
        None => join_path(
            match grandparent {
                Some(g) => g,
                None => fleet_dir,
            },
            "PX4-Autopilot",
        ),
    }
}

/// The simulators' configuration directory: as the environment says, else
/// under the fleet's scratch directory.
pub fn sim_cfg_dir(env: Option<&str>, fleet_dir: &str) -> (r: String)
    ensures
        r@ == (match opt_view(env) {
            Some(d) => d,
            None => path_joined(path_joined(fleet_dir@, "scratch"@), "vsims"@),
        }),
{
    match env {
        Some(d) => String::from_str(d),
        None => {
            let scratch = join_path(fleet_dir, "scratch");
            join_path(scratch.as_str(), "vsims")
        },
    }
}

/// The arguments the fleet is started with.
pub fn fleet_arguments(scenario_path: &str, run_dir: &str) -> (r: Vec<String>)
    ensures
        texts(r@) == seq![
            "run"@,
            "--fleet"@,
            scenario_path@,
            "--api-port"@,
            "8400"@,
            "--run-dir"@,
            run_dir@,
        ],
{
    let mut r: Vec<String> = Vec::new();
    r.push(String::from_str("run"));
    r.push(String::from_str("--fleet"));
    r.push(String::from_str(scenario_path));
    r.push(String::from_str("--api-port"));
    r.push(String::from_str("8400"));
    r.push(String::from_str("--run-dir"));
    r.push(String::from_str(run_dir));
    assert(texts(r@) =~= seq![
        "run"@,
        "--fleet"@,
        scenario_path@,
        "--api-port"@,
        "8400"@,
        "--run-dir"@,
        run_dir@,
    ]);
    r
}

/// What a look at the starting fleet found.
#[derive(Debug, Clone, PartialEq, Eq)]
pub enum PollReply {
    /// It answered, with success or without.
    Answered { success: bool },
    Failed { error: String },
}

/// Waiting for a started fleet to answer.
#[derive(Debug, Clone)]
pub struct StartWait {
    last_error: String,
}

impl StartWait {
    /// The last failure that was seen; empty where there was none.
    pub closed spec fn failure(&self) -> Seq<char> {
        self.last_error@
    }

    pub fn new() -> (r: Self)
        ensures
            r.failure() == ""@,
    {
        StartWait { last_error: String::from_str("") }
    }

    /// Whether to look again after so much time.
    pub fn goes_on(&self, elapsed_ms: u64) -> (r: bool)
        ensures
            r == (elapsed_ms < START_TIMEOUT_MS),
    {
        elapsed_ms < START_TIMEOUT_MS
    }

    /// Take in what a look found; `true` where the fleet is up.
    pub fn observe(&mut self, reply: PollReply) -> (up: bool)
        ensures
            up == (reply == PollReply::Answered { success: true }),
            final(self).failure() == (match reply {
                PollReply::Failed { error } => error@,
                _ => old(self).failure(),
            }),
    {
        match reply {
            PollReply::Answered { success } => success,
            PollReply::Failed { error } => {
                self.last_error = error;
                false
            },
        }
    }

    /// The fleet did not answer in time.
    pub fn give_up(&self, pid: Option<u32>) -> (r: SitlError)
        ensures
            r@ == (SitlFault::StartTimeout { pid, last_error: self.failure() }),
    {
        SitlError::StartTimeout { pid, last_error: self.last_error.clone() }
    }
}

/// The scenario files among the first `n` names.
pub open spec fn scenario_names(names: Seq<Seq<char>>, n: nat) -> Seq<Seq<char>>
    decreases n,
{
    if n == 0 {
        Seq::empty()
    } else {
        let s = scenario_names(names, (n - 1) as nat);
        if has_extension(names[n - 1], "toml"@) {
            s.push(names[n - 1])
        } else {
            s
        }
    }
}

/// The scenario files of a directory, in the order of their names.
pub fn list_scenarios(names: &Vec<String>) -> (r: Vec<String>)
    ensures
        texts(r@) == ({
            let found = scenario_names(texts(names@), names@.len());
            in_order(found, found, false)
        }),
{
    let ghost all = texts(names@);
    let mut found: Vec<String> = Vec::new();
    let mut i: usize = 0;
    assert(texts(found@) =~= scenario_names(all, 0));
    while i < names.len()
        invariant
            i <= names@.len(),
            all == texts(names@),
            texts(found@) == scenario_names(all, i as nat),
        decreases names@.len() - i,
    {
        assert(all[i as int] == names@[i as int]@);
        if extension_is(names[i].as_str(), "toml") {
            let ghost before = found@;
            found.push(names[i].clone());
            assert(texts(found@) =~= texts(before).push(names@[i as int]@));
        }
        i = i + 1;
    }
    let order = order_by(&found, false);
    let ghost keys = texts(found@);
    let mut r: Vec<String> = Vec::new();
    let mut k: usize = 0;
    while k < order.len()
        invariant
            k <= order@.len(),
            order@.len() == found@.len(),
            keys == texts(found@),
            numbers(order@) == ranked(keys, keys.len(), false),
            forall|j: int| 0 <= j < order@.len() ==> #[trigger] order@[j] < found@.len(),
            r@.len() == k,
            forall|j: int| 0 <= j < k ==> (#[trigger] r@[j])@ == keys[numbers(order@)[j]],
        decreases order@.len() - k,
    {
        assert(numbers(order@)[k as int] == order@[k as int] as int);
        r.push(found[order[k]].clone());
        k = k + 1;
    }
    assert(texts(r@) =~= in_order(keys, keys, false));
    r
}

/// A directory above the program, and what it holds.
#[derive(Debug, Clone, PartialEq, Eq)]
pub struct Ancestor {
    pub path: String,
    pub has_manifest: bool,
    pub has_crates: bool,
    pub has_tests: bool,
}

impl Ancestor {
    /// The root of the fleet workspace holds a manifest, crates and tests.
    pub open spec fn is_root(self) -> bool {
        self.has_manifest && self.has_crates && self.has_tests
    }
}

/// The first workspace root at or behind place `i`, the length where there is
/// none.
pub open spec fn root_from(s: Seq<Ancestor>, i: int) -> int
    decreases s.len() - i,
{
    if i < 0 || i >= s.len() || s[i].is_root() {
        i
    } else {
        root_from(s, i + 1)
    }
}

/// The fleet's directory: as asked, else the nearest workspace root above the
/// program, else the working directory.
pub open spec fn fleet_dir_of(asked: Option<Seq<char>>, above: Seq<Ancestor>) -> Seq<char> {
    match asked {
        Some(d) => d,
        None => if root_from(above, 0) < above.len() {
            above[root_from(above, 0)].path@
        } else {
            "."@
        },
    }
}

/// Find the fleet's directory; `above` are the directories above the program,
/// nearest first.
pub fn resolve_fleet_dir(asked: Option<&str>, above: &Vec<Ancestor>) -> (r: String)
    ensures
        r@ == fleet_dir_of(opt_view(asked), above@),
{
    if let Some(d) = asked {
        return String::from_str(d);
    }
    let mut i: usize = 0;
    while i < above.len()
        invariant
            i <= above@.len(),
            opt_view(asked) is None,
            root_from(above@, 0) == root_from(above@, i as int),
        decreases above@.len() - i,
    {
        if above[i].has_manifest && above[i].has_crates && above[i].has_tests {
            return String::from_str(above[i].path.as_str());
        }
        i = i + 1;
    }
    String::from_str(".")
}

// Laws.

/// A run that was started is shown as it was started, as long as its process
/// lives; once the process is gone or was stopped, nothing of it is shown.
pub proof fn a_run_is_shown_while_it_lives(
    m: SitlModel,
    pid: Option<u32>,
    now_ms: u64,
    run_dir: Seq<char>,
    scenario: Seq<char>,
    reply: Option<Seq<char>>,
    alive: bool,
)
    ensures
        ({
            let s = status_shown(started(m, pid, now_ms, run_dir, scenario), true, reply);
            s.running && s.pid == pid && s.started_at_ms == Some(now_ms) && s.run_dir == Some(
                run_dir,
            ) && s.scenario == Some(scenario)
        }),
        status_shown(looked_at(m, false), alive, reply) == status_shown(
            forgotten(m),
            alive,
            reply,
        ),
        !status_shown(forgotten(m), alive, reply).running,
{
}

/// The directory found is the nearest workspace root: no directory between it
/// and the program is one.
pub proof fn nearest_root_is_found(above: Seq<Ancestor>, k: int)
    requires
        0 <= k < above.len(),
        above[k].is_root(),
        forall|j: int| 0 <= j < k ==> !(#[trigger] above[j]).is_root(),
    ensures
        fleet_dir_of(None, above) == above[k].path@,
{
    root_is_at(above, 0, k);
}

proof fn root_is_at(s: Seq<Ancestor>, i: int, k: int)
    requires
        0 <= i <= k < s.len(),
        s[k].is_root(),
        forall|j: int| i <= j < k ==> !(#[trigger] s[j]).is_root(),
    ensures
        root_from(s, i) == k,
    decreases k - i,
{
    if i < k {
        assert(!s[i].is_root());
        root_is_at(s, i + 1, k);
    }
}

/// A run is started once: while its process lives a second start is refused
/// with 409, and once the process is gone, or was stopped, the next one goes
/// ahead. Without a name the default scenario is started, else the one that is
/// named; either is looked for among the fleet's tests.
pub proof fn one_run_at_a_time(
    m: SitlModel,
    pid: Option<u32>,
    now_ms: u64,
    run_dir: Seq<char>,
    scenario: Seq<char>,
    asked: Option<Seq<char>>,
    alive: bool,
)
    ensures
        ({
            let s = started(m, pid, now_ms, run_dir, scenario);
            &&& start_answer(s, true, asked) is Err
            &&& start_answer(s, true, asked)->Err_0 is Running
            &&& fault_status(start_answer(s, true, asked)->Err_0) == 409
            &&& start_answer(s, false, asked) is Ok
            &&& start_answer(after_stop(s), alive, asked) is Ok
            &&& start_answer(looked_at(s, false), alive, asked) is Ok
            &&& start_answer(s, false, asked)->Ok_0.0 == (match asked {
                Some(n) => n,
                None => m.default_scenario,
            })
            &&& start_answer(s, false, asked)->Ok_0.1 == path_joined(
                path_joined(m.fleet_dir, "tests"@),
                start_answer(s, false, asked)->Ok_0.0,
            )
        }),
{
}

/// A run is stopped once: its process is killed unless it is gone, nothing of
/// the run is kept, and a second stop is refused with 409. Where nothing runs
/// there is nothing to stop.
pub proof fn a_run_is_stopped_once(
    m: SitlModel,
    pid: Option<u32>,
    now_ms: u64,
    run_dir: Seq<char>,
    scenario: Seq<char>,
    exited: bool,
)
    ensures
        ({
            let s = started(m, pid, now_ms, run_dir, scenario);
            let r = after_stop(s);
            &&& stop_answer(s, false) == Ok::<StopStep, SitlFault>(StopStep::Kill)
            &&& stop_answer(s, true) == Ok::<StopStep, SitlFault>(StopStep::AlreadyExited)
            &&& stop_answer(r, exited) is Err
            &&& stop_answer(r, exited)->Err_0 is NotRunning
            &&& fault_status(stop_answer(r, exited)->Err_0) == 409
            &&& after_stop(r) == r
            &&& !r.child
            &&& r.pid is None
            &&& r.started_at_ms is None
            &&& r.run_dir is None
            &&& r.scenario is None
            &&& r.fleet_dir == m.fleet_dir
            &&& r.default_scenario == m.default_scenario
        }),
{
}

/// What a client is told of each failure: 404 for a scenario that is not
/// there, 408 for a fleet that does not answer, 409 for a run that is or is
/// not there, 500 for everything else.
pub proof fn faults_have_their_status(e: SitlFault)
    ensures
        fault_status(e) == (match e {
            SitlFault::Running | SitlFault::NotRunning => 409u16,
            SitlFault::ScenarioNotFound { .. } => 404u16,
            SitlFault::StartTimeout { .. } => 408u16,
            _ => 500u16,
        }),
{
}

/// A run's directory stands under the scratch directory beside the fleet's.
pub proof fn runs_stand_in_scratch(fleet_dir: Seq<char>, parent: Seq<char>, secs: u64)
    ensures
        run_dir_of(fleet_dir, Some(parent), secs) == path_joined(
            path_joined(parent, "scratch"@),
            "fleet-run-"@ + decimal(secs as nat),
        ),
        run_dir_of(fleet_dir, None, secs) == path_joined(
            path_joined(fleet_dir, "scratch"@),
            "fleet-run-"@ + decimal(secs as nat),
        ),
{
}

/// The next name is offered as a scenario where it ends in `.toml`.
pub proof fn toml_files_are_scenarios(names: Seq<Seq<char>>, n: nat)
    requires
        n < names.len(),
    ensures
        ({
            let name = names[n as int];
            let toml = name.len() > 5 && name.subrange(name.len() - 5, name.len() as int)
                == ".toml"@;
            scenario_names(names, n + 1) == (if toml {
                scenario_names(names, n).push(name)
            } else {
                scenario_names(names, n)
            })
        }),
        scenario_names(names, 0).len() == 0,
{
    let name = names[n as int];
    reveal_strlit("toml");
    reveal_strlit(".toml");
    if name.len() > 5 {
        let five = name.subrange(name.len() - 5, name.len() as int);
        let four = name.subrange(name.len() - 4, name.len() as int);
        assert(five =~= seq![name[name.len() - 5]] + four);
        assert(".toml"@ =~= seq!['.'] + "toml"@);
        if five == ".toml"@ {
            assert(five[0] == '.');
            assert(four =~= five.subrange(1, 5));
            assert("toml"@ =~= ".toml"@.subrange(1, 5));
        }
    }
}

/// A look at the process starts nothing: a run is there afterwards only where
/// it was there before and its process lives, and what is known of it stays.
/// Only such a run is shown as running, with as many vehicles as the fleet's
/// answer lists.
pub proof fn a_look_starts_nothing(m: SitlModel, alive: bool, reply: Option<Seq<char>>)
    ensures
        looked_at(m, alive).child <==> m.child && alive,
        looked_at(m, alive).pid == m.pid,
        looked_at(m, alive).started_at_ms == m.started_at_ms,
        looked_at(m, alive).run_dir == m.run_dir,
        looked_at(m, alive).scenario == m.scenario,
        looked_at(m, alive).fleet_dir == m.fleet_dir,
        looked_at(m, alive).default_scenario == m.default_scenario,
        status_shown(m, alive, reply).running <==> m.child && alive,
        m.child && alive ==> status_shown(m, alive, reply).vehicle_count == (match reply {
            Some(text) => match json_numbers(text, "/data/vehicles"@) {
                Some(list) => list.len(),
                None => 0,
            },
            None => 0,
        }),
        !(m.child && alive) ==> status_shown(m, alive, reply).vehicle_count == 0,
{
}

} // verus!
