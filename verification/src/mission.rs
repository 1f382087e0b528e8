//! Mission files as values. Coordinates, altitudes and parameters are held as
//! the bit patterns of their floating-point numbers.

use vstd::prelude::*;

verus! {

/// A saved mission.
#[derive(Debug, Clone)]
pub struct MissionFile {
    pub mission: MissionMeta,
    pub waypoints: Vec<Waypoint>,
    pub geofence: Geofence,
    pub rally: Vec<RallyPoint>,
}

/// What the catalog knows of a mission.
#[derive(Debug, Clone, PartialEq, Eq)]
pub struct MissionMeta {
    /// Twenty-six characters, sortable by creation time.
    pub id: String,
    /// The operator's name for it.
    pub name: String,
    /// Starts at one and grows with every update.
    pub version: u32,
    pub created_at: String,
    pub updated_at: String,
    /// quad, fixed, vtol or rover.
    pub vehicle_type: String,
    /// The autopilot version the mission was written for.
    pub px4_version: String,
}

/// The vehicle type of a mission that names none.
pub fn default_vehicle_type() -> (r: String)
    ensures
        r@ == "quad"@,
{
    String::from_str("quad")
}

/// The autopilot version of a mission that names none.
pub fn default_px4_version() -> (r: String)
    ensures
        r@ == "v1.16.2"@,
{
    String::from_str("v1.16.2")
}

/// One waypoint of the flight plan.
#[derive(Debug, Clone, Copy, PartialEq, Eq)]
pub struct Waypoint {
    pub seq: u16,
    pub frame: u8,
    pub command: u16,
    /// Latitude, double precision.
    pub x: u64,
    /// Longitude, double precision.
    pub y: u64,
    /// Altitude in metres.
    pub z: u32,
    pub param1: u32,
    pub param2: u32,
    pub param3: u32,
    pub param4: u32,
}

/// A latitude and a longitude in degrees, double precision.
#[derive(Debug, Clone, Copy, PartialEq, Eq)]
pub struct LatLon {
    pub lat: u64,
    pub lon: u64,
}

/// The fence of a mission; an empty inclusion polygon is no fence.
#[derive(Debug, Clone)]
pub struct Geofence {
    pub ceiling_m: u32,
    pub floor_m: u32,
    pub inclusion: Vec<LatLon>,
    pub exclusion: Vec<Vec<LatLon>>,
}

/// A safe landing point.
#[derive(Debug, Clone, Copy, PartialEq, Eq)]
pub struct RallyPoint {
    pub seq: u16,
    pub lat: u64,
    pub lon: u64,
    pub alt_m: u32,
}

// Models.

#[verifier::ext_equal]
pub struct MissionMetaModel {
    pub id: Seq<char>,
    pub name: Seq<char>,
    pub version: u32,
    pub created_at: Seq<char>,
    pub updated_at: Seq<char>,
    pub vehicle_type: Seq<char>,
    pub px4_version: Seq<char>,
}

impl View for MissionMeta {
    type V = MissionMetaModel;

    open spec fn view(&self) -> MissionMetaModel {
        MissionMetaModel {
            id: self.id@,
            name: self.name@,
            version: self.version,
            created_at: self.created_at@,
            updated_at: self.updated_at@,
            vehicle_type: self.vehicle_type@,
            px4_version: self.px4_version@,
        }
    }
}

#[verifier::ext_equal]
pub struct GeofenceModel {
    pub ceiling_m: u32,
    pub floor_m: u32,
    pub inclusion: Seq<LatLon>,
    pub exclusion: Seq<Seq<LatLon>>,
}

pub open spec fn polygons_of(s: Seq<Vec<LatLon>>) -> Seq<Seq<LatLon>> {
    Seq::new(s.len(), |i: int| s[i]@)
}

impl View for Geofence {
    type V = GeofenceModel;

    open spec fn view(&self) -> GeofenceModel {
        GeofenceModel {
            ceiling_m: self.ceiling_m,
            floor_m: self.floor_m,
            inclusion: self.inclusion@,
            exclusion: polygons_of(self.exclusion@),
        }
    }
}

#[verifier::ext_equal]
pub struct MissionFileModel {
    pub mission: MissionMetaModel,
    pub waypoints: Seq<Waypoint>,
    pub geofence: GeofenceModel,
    pub rally: Seq<RallyPoint>,
}

impl View for MissionFile {
    type V = MissionFileModel;

    open spec fn view(&self) -> MissionFileModel {
        MissionFileModel {
            mission: self.mission@,
            waypoints: self.waypoints@,
            geofence: self.geofence@,
            rally: self.rally@,
        }
    }
}

fn copy_items<T: Copy>(list: &Vec<T>) -> (r: Vec<T>)
    ensures
        r@ == list@,
{
    let mut r: Vec<T> = Vec::new();
    let mut i: usize = 0;
    while i < list.len()
        invariant
            i <= list@.len(),
            r@ == list@.subrange(0, i as int),
        decreases list@.len() - i,
    {
        r.push(list[i]);
        i = i + 1;
        assert(r@ =~= list@.subrange(0, i as int));
    }
    assert(r@ =~= list@);
    r
}

impl MissionFile {
    /// A copy of the mission.
    pub fn copied(&self) -> (r: MissionFile)
        ensures
            r@ == self@,
    {
        let m = &self.mission;
        let mission = MissionMeta {
            id: m.id.clone(),
            name: m.name.clone(),
            version: m.version,
            created_at: m.created_at.clone(),
            updated_at: m.updated_at.clone(),
            vehicle_type: m.vehicle_type.clone(),
            px4_version: m.px4_version.clone(),
        };
        let mut exclusion: Vec<Vec<LatLon>> = Vec::new();
        let mut i: usize = 0;
        while i < self.geofence.exclusion.len()
            invariant
                i <= self.geofence.exclusion@.len(),
                exclusion@.len() == i,
                forall|k: int|
                    0 <= k < i ==> (#[trigger] exclusion@[k])@ == self.geofence.exclusion@[k]@,
            decreases self.geofence.exclusion@.len() - i,
        {
            exclusion.push(copy_items(&self.geofence.exclusion[i]));
            i = i + 1;
        }
        assert(polygons_of(exclusion@) =~= polygons_of(self.geofence.exclusion@));
        MissionFile {
            mission,
            waypoints: copy_items(&self.waypoints),
            geofence: Geofence {
                ceiling_m: self.geofence.ceiling_m,
                floor_m: self.geofence.floor_m,
                inclusion: copy_items(&self.geofence.inclusion),
                exclusion,
            },
            rally: copy_items(&self.rally),
        }
    }
}

} // verus!
