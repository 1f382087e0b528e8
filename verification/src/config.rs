//! What a run takes from its configuration.

use vstd::prelude::*;
#[allow(unused_imports)]
use crate::fleet::opt_text;
use crate::messages::Vec3;
pub use crate::scenario::{GeofenceSpec, OriginSpec};
#[allow(unused_imports)]
use crate::scenario::{ORIGIN_ALT, ORIGIN_LAT, ORIGIN_LON};

verus! {

#[derive(Debug, Clone, PartialEq, Eq)]
pub struct FleetSection {
    pub count: Option<u8>,
    /// The fleet boots and holds: vehicles stay disarmed for configuration.
    pub hold_for_setup: bool,
}

#[derive(Debug, Clone)]
pub struct EnvSection {
    pub geofence: Option<GeofenceSpec>,
    /// Metres per second.
    pub wind_steady_ms: Vec3,
    pub turbulence: String,
    pub origin: Option<OriginSpec>,
}

#[derive(Debug, Clone)]
pub struct SimSection {
    /// The simulator's command template.
    pub command: Option<String>,
    /// Seconds, double precision.
    pub duration_s: u64,
}

/// The configuration of a run.
#[derive(Debug, Clone)]
pub struct FleetConfig {
    pub fleet: FleetSection,
    pub env: EnvSection,
    pub sim: SimSection,
}

impl FleetConfig {
    /// Number of vehicles; one where none is given.
    pub fn count(&self) -> (r: u8)
        ensures
            r == (match self.fleet.count {
                Some(n) => n,
                None => 1u8,
            }),
    {
        match self.fleet.count {
            Some(n) => n,
            None => 1,
        }
    }

    /// The origin of the local frame.
    pub fn geo_origin(&self) -> (r: OriginSpec)
        ensures
            r == (match self.env.origin {
                Some(o) => o,
                None => OriginSpec { lat_deg: ORIGIN_LAT, lon_deg: ORIGIN_LON, alt_m: ORIGIN_ALT },
            }),
    {
        match self.env.origin {
            Some(o) => o,
            None => OriginSpec::default(),
        }
    }

    /// The simulator's command template.
    pub fn sim_command(&self) -> (r: Option<String>)
        ensures
            opt_text(r) == opt_text(self.sim.command),
    {
        match &self.sim.command {
            Some(c) => Some(c.clone()),
            None => None,
        }
    }

    /// Seconds the simulator runs, double precision.
    pub fn sim_duration_s(&self) -> (r: u64)
        ensures
            r == self.sim.duration_s,
    {
        self.sim.duration_s
    }

    pub fn hold_for_setup(&self) -> (r: bool)
        ensures
            r == self.fleet.hold_for_setup,
    {
        self.fleet.hold_for_setup
    }

    pub fn wind_steady_ms(&self) -> (r: Vec3)
        ensures
            r == self.env.wind_steady_ms,
    {
        self.env.wind_steady_ms
    }

    pub fn turbulence(&self) -> (r: &str)
        ensures
            r@ == self.env.turbulence@,
    {
        self.env.turbulence.as_str()
    }
}

/// How a run is started.
#[derive(Debug, Clone, PartialEq, Eq)]
pub struct RunArgs {
    /// Path of the configuration.
    pub fleet: String,
    pub api_port: u16,
    /// Where the run keeps its files.
    pub run_dir: Option<String>,
}

impl RunArgs {
    /// Where the run keeps its files: as given, or under the second it began.
    pub fn run_directory(&self, now_secs: u64) -> (r: String)
        ensures
            r@ == (match opt_text(self.run_dir) {
                Some(d) => d,
                None => "fleet-runs/fleet-run-"@ + crate::text::decimal(now_secs as nat),
            }),
    {
        match &self.run_dir {
            Some(d) => d.clone(),
            None => {
                let mut s = String::from_str("fleet-runs/fleet-run-");
                crate::text::push_decimal(&mut s, now_secs);
                s
            },
        }
    }
}

} // verus!
