//! Each vehicle's pair of processes: its simulator and its autopilot.

use vstd::prelude::*;
#[allow(unused_imports)]
use crate::fleet::opt_text;
use crate::supervisor::DeadPair;
use crate::text::{decimal_string, join_path, joined, push_decimal, replace_text, split_words};
#[allow(unused_imports)]
use crate::text::{decimal, opt_view, path_joined, replaced, texts, words};

verus! {

/// The ports of one vehicle: its simulator's, for telemetry, for commands, and
/// for the simulator's control.
pub open spec fn ports_of(instance: u8) -> Seq<int> {
    seq![4560 + instance, 14540 + instance, 14580 + instance, 8200 + instance]
}

/// Port the simulator listens on for its autopilot.
pub fn hil_tcp(instance: u8) -> (r: u16)
    ensures
        r == 4560 + instance,
        r == ports_of(instance)[0],
{
    4560 + instance as u16
}

/// Port telemetry arrives on.
pub fn telemetry_udp(instance: u8) -> (r: u16)
    ensures
        r == 14540 + instance,
        r == ports_of(instance)[1],
{
    14540 + instance as u16
}

/// Port the autopilot takes commands on.
pub fn onboard_udp(instance: u8) -> (r: u16)
    ensures
        r == 14580 + instance,
        r == ports_of(instance)[2],
{
    14580 + instance as u16
}

/// Port of the simulator's control interface.
pub fn sim_api(instance: u8) -> (r: u16)
    ensures
        r == 8200 + instance,
        r == ports_of(instance)[3],
{
    8200 + instance as u16
}

/// Where the autopilot is looked for.
pub const DEFAULT_PX4_DIR: &'static str = "/home/z/my-project/PX4-Autopilot";

/// How long the simulator gets before its autopilot starts.
pub const SIM_SETTLE_MS: u64 = 1500;

/// How processes are started.
#[derive(Debug, Clone)]
pub struct SimCtlConfig {
    pub px4_dir: String,
    /// The simulator's command template, where one is given.
    pub sim_command_template: Option<String>,
    /// Seconds the simulator runs, in whole numbers.
    pub sim_duration_text: String,
    pub sim_settle_ms: u64,
    /// Keep what the processes print.
    pub process_logs: bool,
}

pub open spec fn or_else(a: Option<Seq<char>>, b: Option<Seq<char>>) -> Option<Seq<char>> {
    match a {
        Some(v) => Some(v),
        None => b,
    }
}

impl SimCtlConfig {
    /// From the configuration's template and what the environment sets: the
    /// autopilot's directory and a template of its own.
    pub fn from_env(
        sim_command_template: Option<String>,
        sim_duration_text: String,
        env_px4_dir: Option<&str>,
        env_template: Option<&str>,
    ) -> (r: Self)
        ensures
            r.px4_dir@ == (match opt_view(env_px4_dir) {
                Some(d) => d,
                None => DEFAULT_PX4_DIR@,
            }),
            opt_text(r.sim_command_template) == or_else(
                opt_text(sim_command_template),
                opt_view(env_template),
            ),
            r.sim_duration_text@ == sim_duration_text@,
            r.sim_settle_ms == SIM_SETTLE_MS,
            !r.process_logs,
    {
        let px4_dir = match env_px4_dir {
            Some(d) => String::from_str(d),
            None => String::from_str(DEFAULT_PX4_DIR),
        };
        let template = match sim_command_template {
            Some(t) => Some(t),
            None => match env_template {
                Some(t) => Some(String::from_str(t)),
                None => None,
            },
        };
        SimCtlConfig {
            px4_dir,
            sim_command_template: template,
            sim_duration_text,
            sim_settle_ms: SIM_SETTLE_MS,
            process_logs: false,
        }
    }

    /// The simulator's command template; `script` is the stand-in simulator.
    pub fn sim_template(&self, script: &str) -> (r: String)
        ensures
            r@ == (match opt_text(self.sim_command_template) {
                Some(t) => t,
                None => "python3 "@ + script@ + " {hil_port} {duration_s}"@,
            }),
    {
        match &self.sim_command_template {
            Some(t) => t.clone(),
            None => {
                let mut s = joined("python3 ", script);
                s.append(" {hil_port} {duration_s}");
                s
            },
        }
    }

    /// Where the autopilot's program lies.
    pub fn px4_binary(&self) -> (r: String)
        ensures
            r@ == path_joined(self.px4_dir@, "build/px4_sitl_default/bin/px4"@),
    {
        join_path(self.px4_dir.as_str(), "build/px4_sitl_default/bin/px4")
    }

    /// Where the autopilot's files lie.
    pub fn px4_etc(&self) -> (r: String)
        ensures
            r@ == path_joined(self.px4_dir@, "build/px4_sitl_default/etc"@),
    {
        join_path(self.px4_dir.as_str(), "build/px4_sitl_default/etc")
    }
}

/// Where the simulator's command comes from.
#[derive(Debug, Clone)]
pub enum SimCommand {
    /// This template.
    Template(String),
    /// The environment's template.
    Environment,
    /// The stand-in simulator, under the first of these interpreters that
    /// works.
    Probe(Vec<String>),
}

pub enum SimCommandModel {
    Template(Seq<char>),
    Environment,
    Probe(Seq<Seq<char>>),
}

impl View for SimCommand {
    type V = SimCommandModel;

    open spec fn view(&self) -> SimCommandModel {
        match self {
            SimCommand::Template(t) => SimCommandModel::Template(t@),
            SimCommand::Environment => SimCommandModel::Environment,
            SimCommand::Probe(c) => SimCommandModel::Probe(texts(c@)),
        }
    }
}

/// The interpreters to try: the environment's, then the usual ones.
pub open spec fn interpreters(env_python: Option<Seq<char>>) -> Seq<Seq<char>> {
    match env_python {
        Some(p) => seq![p, "python3.13"@, "python3"@],
        None => seq!["python3.13"@, "python3"@],
    }
}

/// Choose where the simulator's command comes from.
pub fn resolve_sim_command(
    configured: Option<String>,
    env_template: bool,
    env_python: Option<&str>,
) -> (r: SimCommand)
    ensures
        r@ == (match opt_text(configured) {
            Some(t) => SimCommandModel::Template(t),
            None => if env_template {
                SimCommandModel::Environment
            } else {
                SimCommandModel::Probe(interpreters(opt_view(env_python)))
            },
        }),
{
    match configured {
        Some(t) => return SimCommand::Template(t),
        None => {},
    }
    if env_template {
        return SimCommand::Environment;
    }
    let mut c: Vec<String> = Vec::new();
    match env_python {
        Some(p) => {
            c.push(String::from_str(p));
        },
        None => {},
    }
    c.push(String::from_str("python3.13"));
    c.push(String::from_str("python3"));
    assert(texts(c@) =~= interpreters(opt_view(env_python)));
    SimCommand::Probe(c)
}

/// The template for the stand-in simulator under an interpreter.
pub fn interpreter_template(interpreter: &str) -> (r: String)
    ensures
        r@ == interpreter@ + " {sim_script} {hil_port} {duration_s}"@,
{
    joined(interpreter, " {sim_script} {hil_port} {duration_s}")
}

/// A template with its placeholders filled in, one after the other.
pub open spec fn filled(
    template: Seq<char>,
    instance: u8,
    duration: Seq<char>,
    sitsim: Seq<char>,
    script: Seq<char>,
) -> Seq<char> {
    let s = replaced(template, "{hil_port}"@, decimal((4560 + instance) as nat));
    let s = replaced(s, "{instance}"@, decimal(instance as nat));
    let s = replaced(s, "{sysid}"@, decimal((instance + 1) as nat));
    let s = replaced(s, "{duration_s}"@, duration);
    let s = replaced(s, "{sitsim}"@, sitsim);
    replaced(s, "{sim_script}"@, script)
}

/// The simulator's arguments for a vehicle.
pub fn render_template(
    template: &str,
    instance: u8,
    duration_text: &str,
    env_sitsim: Option<&str>,
    sim_script: &str,
) -> (r: Vec<String>)
    requires
        instance < 255,
    ensures
        texts(r@) == words(
            filled(
                template@,
                instance,
                duration_text@,
                match opt_view(env_sitsim) {
                    Some(b) => b,
                    None => "sitsim-cli"@,
                },
                sim_script@,
            ),
        ),
{
    proof {
        reveal_strlit("{hil_port}");
        reveal_strlit("{instance}");
        reveal_strlit("{sysid}");
        reveal_strlit("{duration_s}");
        reveal_strlit("{sitsim}");
        reveal_strlit("{sim_script}");
    }
    let sitsim = match env_sitsim {
        Some(b) => b,
        None => "sitsim-cli",
    };
    let port = decimal_string(hil_tcp(instance) as u64);
    let number = decimal_string(instance as u64);
    let sysid = decimal_string(instance as u64 + 1);
    let s = replace_text(template, "{hil_port}", port.as_str());
    let s = replace_text(s.as_str(), "{instance}", number.as_str());
    let s = replace_text(s.as_str(), "{sysid}", sysid.as_str());
    let s = replace_text(s.as_str(), "{duration_s}", duration_text);
    let s = replace_text(s.as_str(), "{sitsim}", sitsim);
    let s = replace_text(s.as_str(), "{sim_script}", sim_script);
    split_words(s.as_str())
}

/// Why a pair of processes could not be started.
#[derive(Debug, Clone, PartialEq, Eq)]
pub enum SpawnError {
    Io(String),
    /// The autopilot's program is not where it should be.
    MissingPx4(String),
}

impl SpawnError {
    /// What the log is told.
    pub fn text(&self) -> (r: String)
        ensures
            r@ == (match *self {
                SpawnError::Io(e) => "spawn io error: "@ + e@,
                SpawnError::MissingPx4(p) => "px4 binary not found at "@ + p@
                    + " (set FLEET_PX4_DIR)"@,
            }),
    {
        match self {
            SpawnError::Io(e) => joined("spawn io error: ", e.as_str()),
            SpawnError::MissingPx4(p) => {
                let mut s = joined("px4 binary not found at ", p.as_str());
                s.append(" (set FLEET_PX4_DIR)");
                s
            },
        }
    }
}

/// The vehicles whose pairs are looked after, in the order they were started.
pub struct SimCtl {
    vehicles: Vec<u8>,
}

impl View for SimCtl {
    type V = Seq<u8>;

    closed spec fn view(&self) -> Seq<u8> {
        self.vehicles@
    }
}

/// How far a pair's processes have ended.
#[derive(Debug, Clone, Copy, PartialEq, Eq, Structural)]
pub struct PairExit {
    pub sim: bool,
    pub px4: bool,
}

/// The pairs among the first `n` of which one or both have ended.
pub open spec fn dead_among(vehicles: Seq<u8>, exits: Seq<PairExit>, n: nat) -> Seq<DeadPair>
    decreases n,
{
    if n == 0 {
        Seq::empty()
    } else {
        let s = dead_among(vehicles, exits, (n - 1) as nat);
        if exits[n - 1].sim || exits[n - 1].px4 {
            s.push(
                DeadPair {
                    index: vehicles[n - 1],
                    sim_dead: exits[n - 1].sim,
                    px4_dead: exits[n - 1].px4,
                },
            )
        } else {
            s
        }
    }
}

/// The vehicles without one of them.
pub open spec fn without(vehicles: Seq<u8>, instance: u8) -> Seq<u8>
    decreases vehicles.len(),
{
    if vehicles.len() == 0 {
        Seq::empty()
    } else {
        let s = without(vehicles.drop_last(), instance);
        if vehicles.last() == instance {
            s
        } else {
            s.push(vehicles.last())
        }
    }
}

/// The first place from `i` on of a vehicle.
pub open spec fn place_of(vehicles: Seq<u8>, instance: u8, i: int) -> int
    decreases vehicles.len() - i,
{
    if i >= vehicles.len() || vehicles[i] == instance {
        i
    } else {
        place_of(vehicles, instance, i + 1)
    }
}

impl SimCtl {
    pub fn new() -> (r: Self)
        ensures
            r@ == Seq::<u8>::empty(),
    {
        SimCtl { vehicles: Vec::new() }
    }

    pub fn len(&self) -> (r: usize)
        ensures
            r == self@.len(),
    {
        self.vehicles.len()
    }

    pub fn is_empty(&self) -> (r: bool)
        ensures
            r == (self@.len() == 0),
    {
        self.vehicles.len() == 0
    }

    /// A vehicle's pair was started.
    pub fn add_vehicle(&mut self, instance: u8)
        ensures
            final(self)@ == old(self)@.push(instance),
    {
        self.vehicles.push(instance);
    }

    /// The pairs of which one or both have ended; `exits` tells of each pair.
    pub fn dead_vehicles(&self, exits: &Vec<PairExit>) -> (r: Vec<DeadPair>)
        requires
            exits@.len() == self@.len(),
        ensures
            r@ == dead_among(self@, exits@, exits@.len()),
    {
        let mut r: Vec<DeadPair> = Vec::new();
        let mut i: usize = 0;
        while i < exits.len()
            invariant
                i <= exits@.len(),
                exits@.len() == self.vehicles@.len(),
                r@ == dead_among(self.vehicles@, exits@, i as nat),
            decreases exits@.len() - i,
        {
            if exits[i].sim || exits[i].px4 {
                r.push(
                    DeadPair {
                        index: self.vehicles[i],
                        sim_dead: exits[i].sim,
                        px4_dead: exits[i].px4,
                    },
                );
            }
            i = i + 1;
        }
        r
    }

    /// Look after a vehicle no more.
    pub fn drop_vehicle(&mut self, instance: u8)
        ensures
            final(self)@ == without(old(self)@, instance),
    {
        let mut kept: Vec<u8> = Vec::new();
        let mut i: usize = 0;
        let ghost all = self.vehicles@;
        assert(all.subrange(0, 0) =~= Seq::<u8>::empty());
        while i < self.vehicles.len()
            invariant
                i <= self.vehicles@.len(),
                all == self.vehicles@,
                kept@ == without(all.subrange(0, i as int), instance),
            decreases self.vehicles@.len() - i,
        {
            proof {
                let head = all.subrange(0, i + 1);
                assert(head.drop_last() =~= all.subrange(0, i as int));
                assert(head.last() == all[i as int]);
            }
            if self.vehicles[i] != instance {
                kept.push(self.vehicles[i]);
            }
            i = i + 1;
        }
        assert(all.subrange(0, all.len() as int) =~= all);
        self.vehicles = kept;
    }

    /// Take a vehicle out of the list before its pair is stopped on purpose;
    /// tells where it stood.
    pub fn take_vehicle(&mut self, instance: u8) -> (r: Option<usize>)
        ensures
            ({
                let p = place_of(old(self)@, instance, 0);
                if p < old(self)@.len() {
                    r == Some(p as usize) && final(self)@ == old(self)@.remove(p)
                } else {
                    r is None && final(self)@ == old(self)@
                }
            }),
    {
        let mut i: usize = 0;
        while i < self.vehicles.len()
            invariant
                i <= self.vehicles@.len(),
                self.vehicles@ == old(self)@,
                place_of(old(self)@, instance, 0) == place_of(old(self)@, instance, i as int),
            decreases self.vehicles@.len() - i,
        {
            if self.vehicles[i] == instance {
                let _ = self.vehicles.remove(i);
                return Some(i);
            }
            i = i + 1;
        }
        None
    }

    /// Every pair was stopped.
    pub fn clear(&mut self)
        ensures
            final(self)@ == Seq::<u8>::empty(),
    {
        self.vehicles = Vec::new();
    }
}

/// What a look at a vehicle's ports found.
#[derive(Debug, Clone, Copy, PartialEq, Eq, Structural)]
pub struct PortProbe {
    /// Something still answers on the simulator's port.
    pub hil_accepts: bool,
    pub telemetry_free: bool,
    pub onboard_free: bool,
}

pub open spec fn hil_failure(i: u8) -> Seq<char> {
    "tcp "@ + decimal((4560 + i) as nat) + " still accepting"@
}

pub open spec fn telemetry_failure(i: u8) -> Seq<char> {
    "udp telemetry "@ + decimal((14540 + i) as nat) + " still bound"@
}

pub open spec fn onboard_failure(i: u8) -> Seq<char> {
    "udp onboard "@ + decimal((14580 + i) as nat) + " still bound"@
}

pub open spec fn one_if(found: bool, t: Seq<char>) -> Seq<Seq<char>> {
    if found {
        seq![t]
    } else {
        Seq::empty()
    }
}

/// The ports of the first `n` vehicles that are not free.
pub open spec fn still_bound(instances: Seq<u8>, probes: Seq<PortProbe>, n: nat) -> Seq<Seq<char>>
    decreases n,
{
    if n == 0 {
        Seq::empty()
    } else {
        let i = instances[n - 1];
        let p = probes[n - 1];
        still_bound(instances, probes, (n - 1) as nat) + one_if(p.hil_accepts, hil_failure(i))
            + one_if(!p.telemetry_free, telemetry_failure(i)) + one_if(
            !p.onboard_free,
            onboard_failure(i),
        )
    }
}

fn port_failure(head: &str, port: u16, tail: &str) -> (r: String)
    ensures
        r@ == head@ + decimal(port as nat) + tail@,
{
    let mut s = String::from_str(head);
    push_decimal(&mut s, port as u64);
    s.append(tail);
    s
}

fn push_if(list: &mut Vec<String>, found: bool, t: String)
    ensures
        texts(final(list)@) == texts(old(list)@) + one_if(found, t@),
{
    if found {
        list.push(t);
    }
    assert(texts(list@) =~= texts(old(list)@) + one_if(found, t@));
}

/// Whether every port of the vehicles is free, and which are not.
pub fn ports_free(instances: &Vec<u8>, probes: &Vec<PortProbe>) -> (r: (bool, Vec<String>))
    requires
        instances@.len() == probes@.len(),
    ensures
        texts(r.1@) == still_bound(instances@, probes@, probes@.len()),
        r.0 == (r.1@.len() == 0),
{
    let mut failures: Vec<String> = Vec::new();
    let mut k: usize = 0;
    assert(texts(failures@) =~= Seq::<Seq<char>>::empty());
    while k < probes.len()
        invariant
            k <= probes@.len(),
            instances@.len() == probes@.len(),
            texts(failures@) == still_bound(instances@, probes@, k as nat),
        decreases probes@.len() - k,
    {
        let i: u8 = instances[k];
        let p: PortProbe = probes[k];
        push_if(
            &mut failures,
            p.hil_accepts,
            port_failure("tcp ", hil_tcp(i), " still accepting"),
        );
        push_if(
            &mut failures,
            !p.telemetry_free,
            port_failure("udp telemetry ", telemetry_udp(i), " still bound"),
        );
        push_if(
            &mut failures,
            !p.onboard_free,
            port_failure("udp onboard ", onboard_udp(i), " still bound"),
        );
        k = k + 1;
    }
    let free: bool = failures.len() == 0;
    (free, failures)
}

// Laws.

/// No two vehicles of a fleet share a port, and no port serves two purposes.
pub proof fn ports_differ(a: u8, b: u8, x: int, y: int)
    requires
        a < 8,
        b < 8,
        0 <= x < ports_of(a).len(),
        0 <= y < ports_of(b).len(),
        a != b || x != y,
    ensures
        ports_of(a)[x] != ports_of(b)[y],
{
}

/// A vehicle that is dropped is looked after no more; the others are.
pub proof fn dropped_vehicle_is_gone(vehicles: Seq<u8>, instance: u8, other: u8)
    ensures
        !without(vehicles, instance).contains(instance),
        other != instance && vehicles.contains(other) ==> without(vehicles, instance).contains(
            other,
        ),
    decreases vehicles.len(),
{
    if vehicles.len() > 0 {
        let rest = vehicles.drop_last();
        dropped_vehicle_is_gone(rest, instance, other);
        let s = without(rest, instance);
        let r = without(vehicles, instance);
        if vehicles.last() != instance {
            assert(r == s.push(vehicles.last()));
            assert(r[s.len() as int] == vehicles.last());
            if s.contains(other) {
                let k = choose|k: int| 0 <= k < s.len() && s[k] == other;
                assert(r[k] == other);
            }
        }
        if other != instance && vehicles.contains(other) && vehicles.last() != other {
            let k = choose|k: int| 0 <= k < vehicles.len() && vehicles[k] == other;
            assert(rest[k] == other);
        }
    }
}

/// A vehicle has four ports, each at its own base plus the vehicle's index.
pub proof fn ports_follow_the_index(instance: u8)
    ensures
        ports_of(instance).len() == 4,
        ports_of(instance)[0] == 4560 + instance,
        ports_of(instance)[1] == 14540 + instance,
        ports_of(instance)[2] == 14580 + instance,
        ports_of(instance)[3] == 8200 + instance,
{
}

/// The next pair is reported dead where either of its processes has exited,
/// under its vehicle's index and with which of them it was.
pub proof fn exited_pairs_are_reported(vehicles: Seq<u8>, exits: Seq<PairExit>, n: nat)
    requires
        n < vehicles.len(),
        n < exits.len(),
    ensures
        ({
            let b = dead_among(vehicles, exits, n);
            let r = dead_among(vehicles, exits, n + 1);
            let e = exits[n as int];
            &&& !e.sim && !e.px4 ==> r == b
            &&& e.sim || e.px4 ==> r.len() == b.len() + 1 && r.drop_last() == b && r.last().index
                == vehicles[n as int] && r.last().sim_dead == e.sim && r.last().px4_dead == e.px4
            &&& dead_among(vehicles, exits, 0).len() == 0
        }),
{
    let b = dead_among(vehicles, exits, n);
    let r = dead_among(vehicles, exits, n + 1);
    if exits[n as int].sim || exits[n as int].px4 {
        assert(r.drop_last() =~= b);
    }
}

/// A vehicle is found at its first place, and not found only where it has
/// none.
pub proof fn vehicles_are_found(vehicles: Seq<u8>, instance: u8, from: int)
    requires
        0 <= from <= vehicles.len(),
    ensures
        ({
            let k = place_of(vehicles, instance, from);
            &&& from <= k <= vehicles.len()
            &&& k < vehicles.len() ==> vehicles[k] == instance
            &&& forall|j: int| from <= j < k ==> #[trigger] vehicles[j] != instance
        }),
    decreases vehicles.len() - from,
{
    if from < vehicles.len() && vehicles[from] != instance {
        vehicles_are_found(vehicles, instance, from + 1);
    }
}

/// The next instance adds one complaint for each of its ports that is still in
/// use, and none where all three are free.
pub proof fn bound_ports_are_reported(instances: Seq<u8>, probes: Seq<PortProbe>, n: nat)
    requires
        n < instances.len(),
        n < probes.len(),
    ensures
        ({
            let b = still_bound(instances, probes, n);
            let r = still_bound(instances, probes, n + 1);
            let p = probes[n as int];
            let i = instances[n as int];
            let taken = (if p.hil_accepts {
                1int
            } else {
                0
            }) + (if p.telemetry_free {
                0int
            } else {
                1
            }) + (if p.onboard_free {
                0int
            } else {
                1
            });
            &&& r.len() == b.len() + taken
            &&& r.subrange(0, b.len() as int) == b
            &&& p.hil_accepts ==> r[b.len() as int] == "tcp "@ + decimal((4560 + i) as nat)
                + " still accepting"@
            &&& !p.onboard_free ==> r.last() == "udp onboard "@ + decimal((14580 + i) as nat)
                + " still bound"@
            &&& !p.telemetry_free && p.onboard_free ==> r.last() == "udp telemetry "@ + decimal(
                (14540 + i) as nat,
            ) + " still bound"@
            &&& still_bound(instances, probes, 0).len() == 0
        }),
{
    let b = still_bound(instances, probes, n);
    let r = still_bound(instances, probes, n + 1);
    assert(r.subrange(0, b.len() as int) =~= b);
}

} // verus!
