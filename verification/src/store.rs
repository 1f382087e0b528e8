//! The catalog: missions with all their versions, and parameter presets.
//!
//! The catalog is a directory tree that the application reads and writes. Here
//! it is a value: what was found in the tree, what each operation answers, and
//! what the tree holds afterwards. Times and identifiers come from the
//! application, which has a clock.

use vstd::prelude::*;
use crate::listing::order_by;
#[allow(unused_imports)]
use crate::listing::{in_order, numbers, ranked};
use crate::mission::MissionFile;
#[allow(unused_imports)]
use crate::mission::{MissionFileModel, MissionMetaModel};
use crate::text::{
    chars_of, is_alphanumeric, join_path, joined, longer_than, push_decimal, same,
};
#[allow(unused_imports)]
use crate::text::{alphanumeric, byte_len, decimal, path_joined, texts};

verus! {

/// Why the catalog cannot do as asked.
#[derive(Debug, Clone, PartialEq, Eq)]
pub enum StoreError {
    Io(String),
    TomlSerialize(String),
    TomlDeserialize(String),
    NotFound(String),
    AlreadyExists(String),
    InvalidId(String),
}

pub enum StoreErrorModel {
    Io(Seq<char>),
    TomlSerialize(Seq<char>),
    TomlDeserialize(Seq<char>),
    NotFound(Seq<char>),
    AlreadyExists(Seq<char>),
    InvalidId(Seq<char>),
}

impl View for StoreError {
    type V = StoreErrorModel;

    open spec fn view(&self) -> StoreErrorModel {
        match self {
            StoreError::Io(s) => StoreErrorModel::Io(s@),
            StoreError::TomlSerialize(s) => StoreErrorModel::TomlSerialize(s@),
            StoreError::TomlDeserialize(s) => StoreErrorModel::TomlDeserialize(s@),
            StoreError::NotFound(s) => StoreErrorModel::NotFound(s@),
            StoreError::AlreadyExists(s) => StoreErrorModel::AlreadyExists(s@),
            StoreError::InvalidId(s) => StoreErrorModel::InvalidId(s@),
        }
    }
}

pub open spec fn store_error_text(e: StoreErrorModel) -> Seq<char> {
    match e {
        StoreErrorModel::Io(e) => "io: "@ + e,
        StoreErrorModel::TomlSerialize(e) => "toml serialize: "@ + e,
        StoreErrorModel::TomlDeserialize(e) => "toml deserialize: "@ + e,
        StoreErrorModel::NotFound(id) => "mission "@ + id + " not found"@,
        StoreErrorModel::AlreadyExists(id) => "mission "@ + id + " already exists"@,
        StoreErrorModel::InvalidId(id) => "invalid mission id '"@ + id + "'"@,
    }
}

impl StoreError {
    /// What a client is told.
    pub fn text(&self) -> (r: String)
        ensures
            r@ == store_error_text(self@),
    {
        match self {
            StoreError::Io(e) => joined("io: ", e.as_str()),
            StoreError::TomlSerialize(e) => joined("toml serialize: ", e.as_str()),
            StoreError::TomlDeserialize(e) => joined("toml deserialize: ", e.as_str()),
            StoreError::NotFound(id) => {
                let mut s = joined("mission ", id.as_str());
                s.append(" not found");
                s
            },
            StoreError::AlreadyExists(id) => {
                let mut s = joined("mission ", id.as_str());
                s.append(" already exists");
                s
            },
            StoreError::InvalidId(id) => {
                let mut s = joined("invalid mission id '", id.as_str());
                s.append("'");
                s
            },
        }
    }
}

// What the tree holds.

/// The catalog's note on a mission.
#[derive(Debug, Clone, PartialEq, Eq)]
pub struct MetaFile {
    pub name: String,
    pub created_at: String,
    pub updated_at: String,
    pub current_version: u32,
    pub deleted: bool,
}

#[verifier::ext_equal]
pub struct MetaModel {
    pub name: Seq<char>,
    pub created_at: Seq<char>,
    pub updated_at: Seq<char>,
    pub current_version: u32,
    pub deleted: bool,
}

impl View for MetaFile {
    type V = MetaModel;

    open spec fn view(&self) -> MetaModel {
        MetaModel {
            name: self.name@,
            created_at: self.created_at@,
            updated_at: self.updated_at@,
            current_version: self.current_version,
            deleted: self.deleted,
        }
    }
}

/// The note's file.
#[derive(Debug, Clone)]
pub enum MetaState {
    /// Not there, or not readable.
    Missing,
    /// Not a note, and why.
    Broken(String),
    Read(MetaFile),
}

#[verifier::ext_equal]
pub enum MetaStateModel {
    Missing,
    Broken(Seq<char>),
    Read(MetaModel),
}

impl View for MetaState {
    type V = MetaStateModel;

    open spec fn view(&self) -> MetaStateModel {
        match self {
            MetaState::Missing => MetaStateModel::Missing,
            MetaState::Broken(e) => MetaStateModel::Broken(e@),
            MetaState::Read(m) => MetaStateModel::Read(m@),
        }
    }
}

/// The file of one version.
#[derive(Debug, Clone)]
pub enum VersionState {
    /// Not a mission, and why.
    Broken(String),
    Parsed(MissionFile),
}

#[verifier::ext_equal]
pub enum VersionModel {
    Broken(Seq<char>),
    Parsed(MissionFileModel),
}

impl View for VersionState {
    type V = VersionModel;

    open spec fn view(&self) -> VersionModel {
        match self {
            VersionState::Broken(e) => VersionModel::Broken(e@),
            VersionState::Parsed(m) => VersionModel::Parsed(m@),
        }
    }
}

#[derive(Debug, Clone)]
pub struct StoredVersion {
    pub number: u32,
    pub content: VersionState,
}

/// What lies where an id leads to.
#[derive(Debug, Clone)]
pub struct StoredMission {
    /// The id that leads there: as a rule the name of the mission's own
    /// directory.
    pub id: String,
    /// The catalog holds it as a directory of that name. What an id only leads
    /// to, such as a directory elsewhere that is linked to, can be worked on
    /// but shows in no list.
    pub listed: bool,
    pub meta: MetaState,
    /// The mission was deleted.
    pub tombstoned: bool,
    pub versions: Vec<StoredVersion>,
}

#[verifier::ext_equal]
pub struct EntryModel {
    pub id: Seq<char>,
    pub listed: bool,
    pub meta: MetaStateModel,
    pub tombstoned: bool,
    pub versions: Seq<(u32, VersionModel)>,
}

pub open spec fn versions_of(s: Seq<StoredVersion>) -> Seq<(u32, VersionModel)> {
    Seq::new(s.len(), |i: int| (s[i].number, s[i].content@))
}

impl View for StoredMission {
    type V = EntryModel;

    open spec fn view(&self) -> EntryModel {
        EntryModel {
            id: self.id@,
            listed: self.listed,
            meta: self.meta@,
            tombstoned: self.tombstoned,
            versions: versions_of(self.versions@),
        }
    }
}

pub open spec fn entries_of(s: Seq<StoredMission>) -> Seq<EntryModel> {
    Seq::new(s.len(), |i: int| s[i]@)
}

/// One saved parameter.
#[derive(Debug, Clone, PartialEq, Eq)]
pub struct PresetParam {
    pub id: String,
    /// Double precision.
    pub value: u64,
    /// The wire's type number.
    pub param_type: u8,
}

#[verifier::ext_equal]
pub struct PresetParamModel {
    pub id: Seq<char>,
    pub value: u64,
    pub param_type: u8,
}

impl View for PresetParam {
    type V = PresetParamModel;

    open spec fn view(&self) -> PresetParamModel {
        PresetParamModel { id: self.id@, value: self.value, param_type: self.param_type }
    }
}

/// Parameters saved under a name.
#[derive(Debug, Clone)]
pub struct PresetFile {
    pub name: String,
    pub created_at: String,
    /// The vehicle it was saved for.
    pub vehicle_id: u8,
    pub params: Vec<PresetParam>,
}

#[verifier::ext_equal]
pub struct PresetModel {
    pub name: Seq<char>,
    pub created_at: Seq<char>,
    pub vehicle_id: u8,
    pub params: Seq<PresetParamModel>,
}

pub open spec fn params_of(s: Seq<PresetParam>) -> Seq<PresetParamModel> {
    Seq::new(s.len(), |i: int| s[i]@)
}

impl View for PresetFile {
    type V = PresetModel;

    open spec fn view(&self) -> PresetModel {
        PresetModel {
            name: self.name@,
            created_at: self.created_at@,
            vehicle_id: self.vehicle_id,
            params: params_of(self.params@),
        }
    }
}

fn copy_params(list: &Vec<PresetParam>) -> (r: Vec<PresetParam>)
    ensures
        params_of(r@) == params_of(list@),
{
    let mut r: Vec<PresetParam> = Vec::new();
    let mut i: usize = 0;
    while i < list.len()
        invariant
            i <= list@.len(),
            r@.len() == i,
            forall|k: int| 0 <= k < i ==> (#[trigger] r@[k])@ == list@[k]@,
        decreases list@.len() - i,
    {
        let p = &list[i];
        r.push(PresetParam { id: p.id.clone(), value: p.value, param_type: p.param_type });
        i = i + 1;
    }
    assert(params_of(r@) =~= params_of(list@));
    r
}

impl PresetFile {
    /// A copy of the preset.
    pub fn copied(&self) -> (r: PresetFile)
        ensures
            r@ == self@,
    {
        PresetFile {
            name: self.name.clone(),
            created_at: self.created_at.clone(),
            vehicle_id: self.vehicle_id,
            params: copy_params(&self.params),
        }
    }
}

/// A preset's file.
#[derive(Debug, Clone)]
pub enum PresetState {
    /// Not a preset, and why.
    Broken(String),
    Parsed(PresetFile),
}

#[verifier::ext_equal]
pub enum PresetStateModel {
    Broken(Seq<char>),
    Parsed(PresetModel),
}

impl View for PresetState {
    type V = PresetStateModel;

    open spec fn view(&self) -> PresetStateModel {
        match self {
            PresetState::Broken(e) => PresetStateModel::Broken(e@),
            PresetState::Parsed(p) => PresetStateModel::Parsed(p@),
        }
    }
}

/// A readable preset file of a vehicle, by the name in front of `.toml`.
#[derive(Debug, Clone)]
pub struct StoredPreset {
    pub vehicle_id: u8,
    pub stem: String,
    pub content: PresetState,
}

#[verifier::ext_equal]
pub struct StoredPresetModel {
    pub vehicle_id: u8,
    pub stem: Seq<char>,
    pub content: PresetStateModel,
}

impl View for StoredPreset {
    type V = StoredPresetModel;

    open spec fn view(&self) -> StoredPresetModel {
        StoredPresetModel {
            vehicle_id: self.vehicle_id,
            stem: self.stem@,
            content: self.content@,
        }
    }
}

pub open spec fn presets_of(s: Seq<StoredPreset>) -> Seq<StoredPresetModel> {
    Seq::new(s.len(), |i: int| s[i]@)
}

/// The catalog.
pub struct Store {
    root: String,
    missions: Vec<StoredMission>,
    presets: Vec<StoredPreset>,
}

#[verifier::ext_equal]
pub struct StoreModel {
    pub root: Seq<char>,
    pub missions: Seq<EntryModel>,
    pub presets: Seq<StoredPresetModel>,
}

impl View for Store {
    type V = StoreModel;

    closed spec fn view(&self) -> StoreModel {
        StoreModel {
            root: self.root@,
            missions: entries_of(self.missions@),
            presets: presets_of(self.presets@),
        }
    }
}

// Looking up.

/// The first mission from `i` on with the id; the number of missions where
/// there is none.
pub open spec fn mission_from(s: Seq<EntryModel>, id: Seq<char>, i: int) -> int
    decreases s.len() - i,
{
    if i >= s.len() || s[i].id == id {
        i
    } else {
        mission_from(s, id, i + 1)
    }
}

pub open spec fn mission_at(m: StoreModel, id: Seq<char>) -> int {
    mission_from(m.missions, id, 0)
}

pub open spec fn has_mission(m: StoreModel, id: Seq<char>) -> bool {
    mission_at(m, id) < m.missions.len()
}

/// The first entry from `i` on of a version; the number of versions where
/// there is none.
pub open spec fn version_from(s: Seq<(u32, VersionModel)>, n: u32, i: int) -> int
    decreases s.len() - i,
{
    if i >= s.len() || s[i].0 == n {
        i
    } else {
        version_from(s, n, i + 1)
    }
}

pub open spec fn version_found(s: Seq<(u32, VersionModel)>, n: u32) -> Option<VersionModel> {
    let i = version_from(s, n, 0);
    if i < s.len() {
        Some(s[i].1)
    } else {
        None
    }
}

/// The note on a mission.
pub open spec fn meta_read(m: StoreModel, id: Seq<char>) -> Result<MetaModel, StoreErrorModel> {
    if has_mission(m, id) {
        match m.missions[mission_at(m, id)].meta {
            MetaStateModel::Missing => Err(StoreErrorModel::NotFound(id)),
            MetaStateModel::Broken(e) => Err(StoreErrorModel::Io(e)),
            MetaStateModel::Read(meta) => Ok(meta),
        }
    } else {
        Err(StoreErrorModel::NotFound(id))
    }
}

pub open spec fn version_read(m: StoreModel, id: Seq<char>, n: u32) -> Option<VersionModel> {
    if has_mission(m, id) {
        version_found(m.missions[mission_at(m, id)].versions, n)
    } else {
        None
    }
}

/// A mission's latest version.
pub open spec fn mission_read(m: StoreModel, id: Seq<char>) -> Result<
    MissionFileModel,
    StoreErrorModel,
> {
    match meta_read(m, id) {
        Err(e) => Err(e),
        Ok(meta) => match version_read(m, id, meta.current_version) {
            None => Err(StoreErrorModel::NotFound(id)),
            Some(VersionModel::Broken(e)) => Err(StoreErrorModel::TomlDeserialize(e)),
            Some(VersionModel::Parsed(f)) => Ok(f),
        },
    }
}

pub open spec fn version_label(id: Seq<char>, n: u32) -> Seq<char> {
    id + " v"@ + decimal(n as nat)
}

/// One version of a mission.
pub open spec fn mission_version(m: StoreModel, id: Seq<char>, n: u32) -> Result<
    MissionFileModel,
    StoreErrorModel,
> {
    match version_read(m, id, n) {
        None => Err(StoreErrorModel::NotFound(version_label(id, n))),
        Some(VersionModel::Broken(e)) => Err(StoreErrorModel::TomlDeserialize(e)),
        Some(VersionModel::Parsed(f)) => Ok(f),
    }
}

// Writing.

/// A version's file is written, in place of one that was there.
pub open spec fn version_put(
    s: Seq<(u32, VersionModel)>,
    n: u32,
    f: MissionFileModel,
) -> Seq<(u32, VersionModel)> {
    let i = version_from(s, n, 0);
    if i < s.len() {
        s.update(i, (n, VersionModel::Parsed(f)))
    } else {
        s.push((n, VersionModel::Parsed(f)))
    }
}

/// The note on a mission, as its latest version has it.
pub open spec fn meta_for(f: MissionFileModel) -> MetaModel {
    MetaModel {
        name: f.mission.name,
        created_at: f.mission.created_at,
        updated_at: f.mission.updated_at,
        current_version: f.mission.version,
        deleted: false,
    }
}

pub open spec fn fresh_entry(id: Seq<char>) -> EntryModel {
    EntryModel {
        id,
        listed: true,
        meta: MetaStateModel::Missing,
        tombstoned: false,
        versions: Seq::empty(),
    }
}

/// A mission is written as the version it names, and becomes the latest.
pub open spec fn mission_put(m: StoreModel, f: MissionFileModel) -> StoreModel {
    let i = mission_at(m, f.mission.id);
    let e = if i < m.missions.len() {
        m.missions[i]
    } else {
        fresh_entry(f.mission.id)
    };
    let written = EntryModel {
        meta: MetaStateModel::Read(meta_for(f)),
        versions: version_put(e.versions, f.mission.version, f),
        ..e
    };
    StoreModel {
        missions: if i < m.missions.len() {
            m.missions.update(i, written)
        } else {
            m.missions.push(written)
        },
        ..m
    }
}

/// A mission with its identity set by the catalog.
pub open spec fn identified(
    f: MissionFileModel,
    id: Seq<char>,
    version: u32,
    created_at: Seq<char>,
    updated_at: Seq<char>,
) -> MissionFileModel {
    MissionFileModel {
        mission: MissionMetaModel { id, version, created_at, updated_at, ..f.mission },
        ..f
    }
}

/// A new mission: version one.
pub open spec fn new_mission(f: MissionFileModel, id: Seq<char>, now: Seq<char>) -> MissionFileModel {
    identified(f, id, 1, now, now)
}

/// The next version of a mission, and the catalog with it.
pub open spec fn mission_updated(
    m: StoreModel,
    id: Seq<char>,
    f: MissionFileModel,
    now: Seq<char>,
) -> (StoreModel, Result<MissionFileModel, StoreErrorModel>) {
    match meta_read(m, id) {
        Err(e) => (m, Err(e)),
        Ok(meta) => if m.missions[mission_at(m, id)].tombstoned {
            (m, Err(StoreErrorModel::NotFound(id)))
        } else {
            let next = identified(
                f,
                id,
                meta.current_version.wrapping_add(1),
                meta.created_at,
                now,
            );
            (mission_put(m, next), Ok(next))
        },
    }
}

pub open spec fn mission_deleted(m: StoreModel, id: Seq<char>) -> (
    StoreModel,
    Result<(), StoreErrorModel>,
) {
    let i = mission_at(m, id);
    if i < m.missions.len() {
        (
            StoreModel {
                missions: m.missions.update(
                    i,
                    EntryModel { tombstoned: true, ..m.missions[i] },
                ),
                ..m
            },
            Ok(()),
        )
    } else {
        (m, Err(StoreErrorModel::NotFound(id)))
    }
}

pub open spec fn mission_rolled_back(m: StoreModel, id: Seq<char>, to: u32, now: Seq<char>) -> (
    StoreModel,
    Result<MissionFileModel, StoreErrorModel>,
) {
    match mission_version(m, id, to) {
        Err(e) => (m, Err(e)),
        Ok(f) => mission_updated(m, id, f, now),
    }
}

// Lists.

/// A mission in a list.
#[derive(Debug, Clone, PartialEq, Eq)]
pub struct MissionSummary {
    pub id: String,
    pub name: String,
    pub version: u32,
    pub updated_at: String,
    pub waypoint_count: usize,
    pub fence_count: usize,
    pub rally_count: usize,
    pub deleted: bool,
}

#[verifier::ext_equal]
pub struct MissionSummaryModel {
    pub id: Seq<char>,
    pub name: Seq<char>,
    pub version: u32,
    pub updated_at: Seq<char>,
    pub waypoint_count: nat,
    pub fence_count: nat,
    pub rally_count: nat,
    pub deleted: bool,
}

impl View for MissionSummary {
    type V = MissionSummaryModel;

    open spec fn view(&self) -> MissionSummaryModel {
        MissionSummaryModel {
            id: self.id@,
            name: self.name@,
            version: self.version,
            updated_at: self.updated_at@,
            waypoint_count: self.waypoint_count as nat,
            fence_count: self.fence_count as nat,
            rally_count: self.rally_count as nat,
            deleted: self.deleted,
        }
    }
}

pub open spec fn mission_summaries(s: Seq<MissionSummary>) -> Seq<MissionSummaryModel> {
    Seq::new(s.len(), |i: int| s[i]@)
}

/// How a live mission is listed: with the sizes of its latest version, or with
/// none where that cannot be read.
pub open spec fn live_summary(e: EntryModel, meta: MetaModel) -> MissionSummaryModel {
    let (w, f, r) = match version_found(e.versions, meta.current_version) {
        Some(VersionModel::Parsed(m)) => (
            m.waypoints.len(),
            m.geofence.inclusion.len(),
            m.rally.len(),
        ),
        _ => (0nat, 0nat, 0nat),
    };
    MissionSummaryModel {
        id: e.id,
        name: meta.name,
        version: meta.current_version,
        updated_at: meta.updated_at,
        waypoint_count: w,
        fence_count: f,
        rally_count: r,
        deleted: false,
    }
}

pub open spec fn deleted_summary(e: EntryModel, meta: MetaModel) -> MissionSummaryModel {
    MissionSummaryModel {
        id: e.id,
        name: meta.name,
        version: meta.current_version,
        updated_at: meta.updated_at,
        waypoint_count: 0,
        fence_count: 0,
        rally_count: 0,
        deleted: true,
    }
}

/// The live, or the deleted, ones among the first `n` missions, of those that
/// are listed; a mission whose note cannot be read is left out.
pub open spec fn summarized(s: Seq<EntryModel>, deleted: bool, n: nat) -> Seq<MissionSummaryModel>
    decreases n,
{
    if n == 0 {
        Seq::empty()
    } else {
        let r = summarized(s, deleted, (n - 1) as nat);
        let e = s[n - 1];
        match e.meta {
            MetaStateModel::Read(meta) => if !e.listed || e.tombstoned != deleted {
                r
            } else if deleted {
                r.push(deleted_summary(e, meta))
            } else {
                r.push(live_summary(e, meta))
            },
            _ => r,
        }
    }
}

pub open spec fn update_times(s: Seq<MissionSummaryModel>) -> Seq<Seq<char>> {
    Seq::new(s.len(), |i: int| s[i].updated_at)
}

/// The live missions, most recently updated first.
pub open spec fn live_missions(m: StoreModel) -> Seq<MissionSummaryModel> {
    let s = summarized(m.missions, false, m.missions.len());
    in_order(s, update_times(s), true)
}

/// The live missions, then the deleted ones.
pub open spec fn all_missions(m: StoreModel) -> Seq<MissionSummaryModel> {
    live_missions(m) + summarized(m.missions, true, m.missions.len())
}

// Presets.

/// A preset in a list.
#[derive(Debug, Clone, PartialEq, Eq)]
pub struct PresetSummary {
    pub name: String,
    pub created_at: String,
    pub param_count: usize,
}

#[verifier::ext_equal]
pub struct PresetSummaryModel {
    pub name: Seq<char>,
    pub created_at: Seq<char>,
    pub param_count: nat,
}

impl View for PresetSummary {
    type V = PresetSummaryModel;

    open spec fn view(&self) -> PresetSummaryModel {
        PresetSummaryModel {
            name: self.name@,
            created_at: self.created_at@,
            param_count: self.param_count as nat,
        }
    }
}

pub open spec fn preset_summaries(s: Seq<PresetSummary>) -> Seq<PresetSummaryModel> {
    Seq::new(s.len(), |i: int| s[i]@)
}

pub open spec fn preset_char(c: char) -> bool {
    alphanumeric(c) || c == '_' || c == '-'
}

/// What is wrong with a preset's name, if anything.
pub open spec fn preset_name_fault(name: Seq<char>) -> Option<Seq<char>> {
    if name.len() == 0 || byte_len(name) > 64 {
        Some("preset name '"@ + name + "' must be 1..=64 chars"@)
    } else if exists|i: int| 0 <= i < name.len() && !preset_char(#[trigger] name[i]) {
        Some("preset name '"@ + name + "' must match [A-Za-z0-9_-]+"@)
    } else {
        None
    }
}

/// The first preset from `i` on of a vehicle under a name.
pub open spec fn preset_from(
    s: Seq<StoredPresetModel>,
    vehicle: u8,
    stem: Seq<char>,
    i: int,
) -> int
    decreases s.len() - i,
{
    if i >= s.len() || (s[i].vehicle_id == vehicle && s[i].stem == stem) {
        i
    } else {
        preset_from(s, vehicle, stem, i + 1)
    }
}

pub open spec fn preset_at(m: StoreModel, vehicle: u8, stem: Seq<char>) -> int {
    preset_from(m.presets, vehicle, stem, 0)
}

pub open spec fn missing_preset(name: Seq<char>) -> StoreErrorModel {
    StoreErrorModel::NotFound("preset '"@ + name + "'"@)
}

/// The presets of a vehicle among the first `n` files, under the names they
/// give themselves; files that hold none are left out.
pub open spec fn presets_listed(s: Seq<StoredPresetModel>, vehicle: u8, n: nat) -> Seq<
    PresetSummaryModel,
>
    decreases n,
{
    if n == 0 {
        Seq::empty()
    } else {
        let r = presets_listed(s, vehicle, (n - 1) as nat);
        match s[n - 1].content {
            PresetStateModel::Parsed(p) => if s[n - 1].vehicle_id == vehicle {
                r.push(
                    PresetSummaryModel {
                        name: p.name,
                        created_at: p.created_at,
                        param_count: p.params.len(),
                    },
                )
            } else {
                r
            },
            PresetStateModel::Broken(_) => r,
        }
    }
}

pub open spec fn preset_names(s: Seq<PresetSummaryModel>) -> Seq<Seq<char>> {
    Seq::new(s.len(), |i: int| s[i].name)
}

/// A vehicle's presets, by name.
pub open spec fn vehicle_presets(m: StoreModel, vehicle: u8) -> Seq<PresetSummaryModel> {
    let s = presets_listed(m.presets, vehicle, m.presets.len());
    in_order(s, preset_names(s), false)
}

/// A preset is written, in place of one that was there.
pub open spec fn preset_put(m: StoreModel, p: PresetModel) -> StoreModel {
    let i = preset_at(m, p.vehicle_id, p.name);
    let written = StoredPresetModel {
        vehicle_id: p.vehicle_id,
        stem: p.name,
        content: PresetStateModel::Parsed(p),
    };
    StoreModel {
        presets: if i < m.presets.len() {
            m.presets.update(i, written)
        } else {
            m.presets.push(written)
        },
        ..m
    }
}

pub open spec fn preset_saved(
    m: StoreModel,
    vehicle: u8,
    name: Seq<char>,
    params: Seq<PresetParamModel>,
    now: Seq<char>,
) -> (StoreModel, Result<PresetModel, StoreErrorModel>) {
    match preset_name_fault(name) {
        Some(e) => (m, Err(StoreErrorModel::InvalidId(e))),
        None => {
            let p = PresetModel { name, created_at: now, vehicle_id: vehicle, params };
            (preset_put(m, p), Ok(p))
        },
    }
}

pub open spec fn preset_read(m: StoreModel, vehicle: u8, name: Seq<char>) -> Result<
    PresetModel,
    StoreErrorModel,
> {
    match preset_name_fault(name) {
        Some(e) => Err(StoreErrorModel::InvalidId(e)),
        None => {
            let i = preset_at(m, vehicle, name);
            if i < m.presets.len() {
                match m.presets[i].content {
                    PresetStateModel::Broken(e) => Err(StoreErrorModel::TomlDeserialize(e)),
                    PresetStateModel::Parsed(p) => Ok(p),
                }
            } else {
                Err(missing_preset(name))
            }
        },
    }
}

pub open spec fn preset_removed(m: StoreModel, vehicle: u8, name: Seq<char>) -> (
    StoreModel,
    Result<(), StoreErrorModel>,
) {
    match preset_name_fault(name) {
        Some(e) => (m, Err(StoreErrorModel::InvalidId(e))),
        None => {
            let i = preset_at(m, vehicle, name);
            if i < m.presets.len() {
                (StoreModel { presets: m.presets.remove(i), ..m }, Ok(()))
            } else {
                (m, Err(missing_preset(name)))
            }
        },
    }
}

// Operations.

pub open spec fn mission_result(r: Result<MissionFile, StoreError>) -> Result<
    MissionFileModel,
    StoreErrorModel,
> {
    match r {
        Ok(f) => Ok(f@),
        Err(e) => Err(e@),
    }
}

pub open spec fn done_result(r: Result<(), StoreError>) -> Result<(), StoreErrorModel> {
    match r {
        Ok(_) => Ok(()),
        Err(e) => Err(e@),
    }
}

pub open spec fn preset_result(r: Result<PresetFile, StoreError>) -> Result<
    PresetModel,
    StoreErrorModel,
> {
    match r {
        Ok(f) => Ok(f@),
        Err(e) => Err(e@),
    }
}

/// Check a preset's name.
pub fn validate_preset_name(name: &str) -> (r: Result<(), StoreError>)
    ensures
        done_result(r) == (match preset_name_fault(name@) {
            Some(e) => Err(StoreErrorModel::InvalidId(e)),
            None => Ok(()),
        }),
{
    let c = chars_of(name);
    if c.len() == 0 || longer_than(name, 64) {
        let mut s = joined("preset name '", name);
        s.append("' must be 1..=64 chars");
        return Err(StoreError::InvalidId(s));
    }
    let mut i: usize = 0;
    while i < c.len()
        invariant
            i <= c@.len(),
            c@ == name@,
            name@.len() > 0,
            byte_len(name@) <= 64,
            forall|k: int| 0 <= k < i ==> preset_char(#[trigger] name@[k]),
        decreases c@.len() - i,
    {
        if !(is_alphanumeric(c[i]) || c[i] == '_' || c[i] == '-') {
            assert(!preset_char(name@[i as int]));
            let mut s = joined("preset name '", name);
            s.append("' must match [A-Za-z0-9_-]+");
            return Err(StoreError::InvalidId(s));
        }
        i = i + 1;
    }
    Ok(())
}

fn no_preset(name: &str) -> (r: StoreError)
    ensures
        r@ == missing_preset(name@),
{
    let mut s = joined("preset '", name);
    s.append("'");
    StoreError::NotFound(s)
}

fn find_version(versions: &Vec<StoredVersion>, n: u32) -> (r: usize)
    ensures
        r == version_from(versions_of(versions@), n, 0),
        r <= versions@.len(),
{
    let ghost s = versions_of(versions@);
    let mut i: usize = 0;
    while i < versions.len()
        invariant
            i <= versions@.len(),
            s == versions_of(versions@),
            version_from(s, n, 0) == version_from(s, n, i as int),
        decreases versions@.len() - i,
    {
        assert(s[i as int].0 == versions@[i as int].number);
        if versions[i].number == n {
            return i;
        }
        i = i + 1;
    }
    i
}

fn put_version(versions: &mut Vec<StoredVersion>, n: u32, f: MissionFile)
    ensures
        versions_of(final(versions)@) == version_put(versions_of(old(versions)@), n, f@),
{
    let i: usize = find_version(versions, n);
    let v = StoredVersion { number: n, content: VersionState::Parsed(f) };
    if i < versions.len() {
        versions.set(i, v);
    } else {
        versions.push(v);
    }
    assert(versions_of(versions@) =~= version_put(versions_of(old(versions)@), n, f@));
}

fn note_on(f: &MissionFile) -> (r: MetaFile)
    ensures
        r@ == meta_for(f@),
{
    MetaFile {
        name: f.mission.name.clone(),
        created_at: f.mission.created_at.clone(),
        updated_at: f.mission.updated_at.clone(),
        current_version: f.mission.version,
        deleted: false,
    }
}

/// A mission's directory in a catalog.
pub open spec fn mission_place(root: Seq<char>, id: Seq<char>) -> Seq<char> {
    path_joined(path_joined(root, "missions"@), id)
}

/// The directory of a vehicle's presets in a catalog.
pub open spec fn presets_place(root: Seq<char>, vehicle_id: u8) -> Seq<char> {
    path_joined(
        path_joined(root, "presets"@),
        "vehicle_"@ + decimal(vehicle_id as nat),
    )
}

impl Store {
    /// An empty catalog.
    pub fn new(root: &str) -> (r: Self)
        ensures
            r@ == (StoreModel { root: root@, missions: Seq::empty(), presets: Seq::empty() }),
    {
        let r = Store {
            root: String::from_str(root),
            missions: Vec::new(),
            presets: Vec::new(),
        };
        assert(r@ =~= (StoreModel { root: root@, missions: Seq::empty(), presets: Seq::empty() }));
        r
    }

    /// The catalog that a tree holds.
    pub fn load(
        root: &str,
        missions: Vec<StoredMission>,
        presets: Vec<StoredPreset>,
    ) -> (r: Self)
        ensures
            r@ == (StoreModel {
                root: root@,
                missions: entries_of(missions@),
                presets: presets_of(presets@),
            }),
    {
        Store { root: String::from_str(root), missions, presets }
    }

    /// Where the missions lie.
    pub fn missions_dir(&self) -> (r: String)
        ensures
            r@ == path_joined(self@.root, "missions"@),
    {
        join_path(self.root.as_str(), "missions")
    }

    /// Where a mission lies.
    pub fn mission_dir(&self, id: &str) -> (r: String)
        ensures
            r@ == mission_place(self@.root, id@),
    {
        join_path(self.missions_dir().as_str(), id)
    }

    /// Where a version of a mission lies.
    pub fn version_path(&self, id: &str, version: u32) -> (r: String)
        ensures
            r@ == path_joined(
                mission_place(self@.root, id@),
                "v"@ + decimal(version as nat) + ".toml"@,
            ),
    {
        let mut file = String::from_str("v");
        push_decimal(&mut file, version as u64);
        file.append(".toml");
        join_path(self.mission_dir(id).as_str(), file.as_str())
    }

    /// Where the note on a mission lies.
    pub fn meta_path(&self, id: &str) -> (r: String)
        ensures
            r@ == path_joined(mission_place(self@.root, id@), "meta.json"@),
    {
        join_path(self.mission_dir(id).as_str(), "meta.json")
    }

    /// The file that marks a mission as deleted.
    pub fn tombstone_path(&self, id: &str) -> (r: String)
        ensures
            r@ == path_joined(mission_place(self@.root, id@), ".tombstone"@),
    {
        join_path(self.mission_dir(id).as_str(), ".tombstone")
    }

    /// Where a vehicle's presets lie.
    pub fn presets_dir(&self, vehicle_id: u8) -> (r: String)
        ensures
            r@ == presets_place(self@.root, vehicle_id),
    {
        let mut name = String::from_str("vehicle_");
        push_decimal(&mut name, vehicle_id as u64);
        join_path(join_path(self.root.as_str(), "presets").as_str(), name.as_str())
    }

    /// Where a preset lies.
    pub fn preset_path(&self, vehicle_id: u8, name: &str) -> (r: String)
        ensures
            r@ == path_joined(presets_place(self@.root, vehicle_id), name@ + ".toml"@),
    {
        let file = joined(name, ".toml");
        join_path(self.presets_dir(vehicle_id).as_str(), file.as_str())
    }

    /// Where flight logs lie.
    pub fn ulogs_dir(&self) -> (r: String)
        ensures
            r@ == path_joined(self@.root, "ulogs"@),
    {
        join_path(self.root.as_str(), "ulogs")
    }

    fn find(&self, id: &str) -> (r: usize)
        ensures
            r == mission_at(self@, id@),
            r <= self.missions@.len(),
    {
        let ghost s = entries_of(self.missions@);
        let mut i: usize = 0;
        while i < self.missions.len()
            invariant
                i <= self.missions@.len(),
                s == entries_of(self.missions@),
                mission_from(s, id@, 0) == mission_from(s, id@, i as int),
            decreases self.missions@.len() - i,
        {
            assert(s[i as int].id == self.missions@[i as int].id@);
            if same(self.missions[i].id.as_str(), id) {
                return i;
            }
            i = i + 1;
        }
        i
    }

    fn read_meta(&self, id: &str) -> (r: Result<MetaFile, StoreError>)
        ensures
            (match r {
                Ok(m) => Ok(m@),
                Err(e) => Err(e@),
            }) == meta_read(self@, id@),
    {
        let i: usize = self.find(id);
        if i >= self.missions.len() {
            return Err(StoreError::NotFound(String::from_str(id)));
        }
        assert(self@.missions[i as int] == self.missions@[i as int]@);
        match &self.missions[i].meta {
            MetaState::Missing => Err(StoreError::NotFound(String::from_str(id))),
            MetaState::Broken(e) => Err(StoreError::Io(e.clone())),
            MetaState::Read(m) => Ok(
                MetaFile {
                    name: m.name.clone(),
                    created_at: m.created_at.clone(),
                    updated_at: m.updated_at.clone(),
                    current_version: m.current_version,
                    deleted: m.deleted,
                },
            ),
        }
    }

    fn read_version(&self, id: &str, n: u32) -> (r: Option<&VersionState>)
        ensures
            (match r {
                Some(v) => Some(v@),
                None => None,
            }) == version_read(self@, id@, n),
    {
        let i: usize = self.find(id);
        if i >= self.missions.len() {
            return None;
        }
        assert(self@.missions[i as int] == self.missions@[i as int]@);
        let k: usize = find_version(&self.missions[i].versions, n);
        if k < self.missions[i].versions.len() {
            assert(self@.missions[i as int].versions[k as int].1
                == self.missions@[i as int].versions@[k as int].content@);
            Some(&self.missions[i].versions[k].content)
        } else {
            None
        }
    }

    fn put(&mut self, f: &MissionFile)
        ensures
            final(self)@ == mission_put(old(self)@, f@),
    {
        let i: usize = self.find(f.mission.id.as_str());
        let ghost before = self@;
        if i < self.missions.len() {
            assert(before.missions[i as int] == self.missions@[i as int]@);
            put_version(&mut self.missions[i].versions, f.mission.version, f.copied());
            self.missions[i].meta = MetaState::Read(note_on(f));
            assert(self@ =~= mission_put(before, f@));
        } else {
            let mut versions: Vec<StoredVersion> = Vec::new();
            assert(versions_of(versions@) =~= Seq::<(u32, VersionModel)>::empty());
            put_version(&mut versions, f.mission.version, f.copied());
            let e = StoredMission {
                id: f.mission.id.clone(),
                listed: true,
                meta: MetaState::Read(note_on(f)),
                tombstoned: false,
                versions,
            };
            self.missions.push(e);
            assert(self@ =~= mission_put(before, f@));
        }
    }

    /// Add a mission under a new id.
    pub fn create(&mut self, mission: &MissionFile, id: &str, now: &str) -> (r: MissionFile)
        ensures
            r@ == new_mission(mission@, id@, now@),
            final(self)@ == mission_put(old(self)@, r@),
    {
        let mut f = mission.copied();
        f.mission.id = String::from_str(id);
        f.mission.version = 1;
        f.mission.created_at = String::from_str(now);
        f.mission.updated_at = String::from_str(now);
        self.put(&f);
        f
    }

    /// A mission's latest version.
    pub fn get(&self, id: &str) -> (r: Result<MissionFile, StoreError>)
        ensures
            mission_result(r) == mission_read(self@, id@),
    {
        match self.read_meta(id) {
            Err(e) => Err(e),
            Ok(meta) => match self.read_version(id, meta.current_version) {
                None => Err(StoreError::NotFound(String::from_str(id))),
                Some(v) => match v {
                    VersionState::Broken(e) => Err(StoreError::TomlDeserialize(e.clone())),
                    VersionState::Parsed(f) => Ok(f.copied()),
                },
            },
        }
    }

    /// One version of a mission.
    pub fn get_version(&self, id: &str, version: u32) -> (r: Result<MissionFile, StoreError>)
        ensures
            mission_result(r) == mission_version(self@, id@, version),
    {
        match self.read_version(id, version) {
            None => {
                let mut s = joined(id, " v");
                push_decimal(&mut s, version as u64);
                Err(StoreError::NotFound(s))
            },
            Some(v) => match v {
                VersionState::Broken(e) => Err(StoreError::TomlDeserialize(e.clone())),
                VersionState::Parsed(f) => Ok(f.copied()),
            },
        }
    }

    /// Add a version to a mission.
    pub fn update(&mut self, id: &str, mission: &MissionFile, now: &str) -> (r: Result<
        MissionFile,
        StoreError,
    >)
        ensures
            (final(self)@, mission_result(r)) == mission_updated(old(self)@, id@, mission@, now@),
    {
        let meta = match self.read_meta(id) {
            Ok(m) => m,
            Err(e) => return Err(e),
        };
        let i: usize = self.find(id);
        assert(self@.missions[i as int] == self.missions@[i as int]@);
        if self.missions[i].tombstoned {
            return Err(StoreError::NotFound(String::from_str(id)));
        }
        let mut f = mission.copied();
        f.mission.id = String::from_str(id);
        f.mission.version = meta.current_version.wrapping_add(1);
        f.mission.created_at = meta.created_at;
        f.mission.updated_at = String::from_str(now);
        self.put(&f);
        Ok(f)
    }

    /// Delete a mission: it is only marked, its versions stay.
    pub fn delete(&mut self, id: &str) -> (r: Result<(), StoreError>)
        ensures
            (final(self)@, done_result(r)) == mission_deleted(old(self)@, id@),
    {
        let i: usize = self.find(id);
        if i >= self.missions.len() {
            return Err(StoreError::NotFound(String::from_str(id)));
        }
        let ghost before = self@;
        assert(before.missions[i as int] == self.missions@[i as int]@);
        self.missions[i].tombstoned = true;
        assert(self@ =~= mission_deleted(before, id@).0);
        Ok(())
    }

    /// Make an earlier version the latest again, as a new version.
    pub fn rollback(&mut self, id: &str, to_version: u32, now: &str) -> (r: Result<
        MissionFile,
        StoreError,
    >)
        ensures
            (final(self)@, mission_result(r)) == mission_rolled_back(
                old(self)@,
                id@,
                to_version,
                now@,
            ),
    {
        match self.get_version(id, to_version) {
            Err(e) => Err(e),
            Ok(f) => self.update(id, &f, now),
        }
    }

    fn summarize(&self, deleted: bool) -> (r: Vec<MissionSummary>)
        ensures
            mission_summaries(r@) == summarized(self@.missions, deleted, self@.missions.len()),
    {
        let ghost all = entries_of(self.missions@);
        let mut r: Vec<MissionSummary> = Vec::new();
        let mut i: usize = 0;
        assert(mission_summaries(r@) =~= Seq::<MissionSummaryModel>::empty());
        while i < self.missions.len()
            invariant
                i <= self.missions@.len(),
                all == entries_of(self.missions@),
                mission_summaries(r@) == summarized(all, deleted, i as nat),
            decreases self.missions@.len() - i,
        {
            let e = &self.missions[i];
            let ghost em = all[i as int];
            assert(em == e@);
            let ghost before = r@;
            match &e.meta {
                MetaState::Read(meta) => {
                    if e.listed && e.tombstoned == deleted {
                        let mut waypoint_count: usize = 0;
                        let mut fence_count: usize = 0;
                        let mut rally_count: usize = 0;
                        if !deleted {
                            let k: usize = find_version(&e.versions, meta.current_version);
                            if k < e.versions.len() {
                                assert(em.versions[k as int].1 == e.versions@[k as int].content@);
                                match &e.versions[k].content {
                                    VersionState::Parsed(m) => {
                                        waypoint_count = m.waypoints.len();
                                        fence_count = m.geofence.inclusion.len();
                                        rally_count = m.rally.len();
                                    },
                                    VersionState::Broken(_) => {},
                                }
                            }
                        }
                        let s = MissionSummary {
                            id: e.id.clone(),
                            name: meta.name.clone(),
                            version: meta.current_version,
                            updated_at: meta.updated_at.clone(),
                            waypoint_count,
                            fence_count,
                            rally_count,
                            deleted,
                        };
                        assert(s@ =~= if deleted {
                            deleted_summary(em, meta@)
                        } else {
                            live_summary(em, meta@)
                        });
                        r.push(s);
                        assert(mission_summaries(r@) =~= mission_summaries(before).push(s@));
                    }
                },
                _ => {},
            }
            i = i + 1;
        }
        r
    }

    /// The live missions, most recently updated first.
    pub fn list(&self) -> (r: Vec<MissionSummary>)
        ensures
            mission_summaries(r@) == live_missions(self@),
    {
        let found = self.summarize(false);
        let ghost all = mission_summaries(found@);
        let mut keys: Vec<String> = Vec::new();
        let mut i: usize = 0;
        while i < found.len()
            invariant
                i <= found@.len(),
                keys@.len() == i,
                forall|k: int| 0 <= k < i ==> (#[trigger] keys@[k])@ == found@[k].updated_at@,
            decreases found@.len() - i,
        {
            keys.push(found[i].updated_at.clone());
            i = i + 1;
        }
        assert(texts(keys@) =~= update_times(all));
        let order = order_by(&keys, true);
        let mut r: Vec<MissionSummary> = Vec::new();
        let mut k: usize = 0;
        while k < order.len()
            invariant
                k <= order@.len(),
                order@.len() == found@.len(),
                all == mission_summaries(found@),
                forall|j: int| 0 <= j < order@.len() ==> #[trigger] order@[j] < found@.len(),
                r@.len() == k,
                forall|j: int| 0 <= j < k ==> (#[trigger] r@[j])@ == all[order@[j] as int],
            decreases order@.len() - k,
        {
            assert(order@[k as int] < found@.len());
            let s = &found[order[k]];
            r.push(
                MissionSummary {
                    id: s.id.clone(),
                    name: s.name.clone(),
                    version: s.version,
                    updated_at: s.updated_at.clone(),
                    waypoint_count: s.waypoint_count,
                    fence_count: s.fence_count,
                    rally_count: s.rally_count,
                    deleted: s.deleted,
                },
            );
            assert(r@[k as int]@ =~= all[order@[k as int] as int]);
            k = k + 1;
        }
        proof {
            let q = ranked(update_times(all), all.len(), true);
            assert(numbers(order@) == q);
            assert forall|j: int| 0 <= j < r@.len() implies #[trigger] mission_summaries(r@)[j]
                == in_order(all, update_times(all), true)[j] by {
                assert(r@[j]@ == all[order@[j] as int]);
                assert(numbers(order@)[j] == q[j]);
            }
            assert(mission_summaries(r@) =~= in_order(all, update_times(all), true));
        }
        r
    }

    /// The live missions, then the deleted ones.
    pub fn list_all(&self) -> (r: Vec<MissionSummary>)
        ensures
            mission_summaries(r@) == all_missions(self@),
    {
        let mut r = self.list();
        let mut gone = self.summarize(true);
        let ghost a = r@;
        let ghost b = gone@;
        r.append(&mut gone);
        assert(mission_summaries(r@) =~= mission_summaries(a) + mission_summaries(b));
        r
    }

    fn find_preset(&self, vehicle_id: u8, name: &str) -> (r: usize)
        ensures
            r == preset_at(self@, vehicle_id, name@),
            r <= self.presets@.len(),
    {
        let ghost s = presets_of(self.presets@);
        let mut i: usize = 0;
        while i < self.presets.len()
            invariant
                i <= self.presets@.len(),
                s == presets_of(self.presets@),
                preset_from(s, vehicle_id, name@, 0) == preset_from(
                    s,
                    vehicle_id,
                    name@,
                    i as int,
                ),
            decreases self.presets@.len() - i,
        {
            assert(s[i as int] == self.presets@[i as int]@);
            if self.presets[i].vehicle_id == vehicle_id && same(
                self.presets[i].stem.as_str(),
                name,
            ) {
                return i;
            }
            i = i + 1;
        }
        i
    }

    /// A vehicle's presets, by name.
    pub fn list_presets(&self, vehicle_id: u8) -> (r: Vec<PresetSummary>)
        ensures
            preset_summaries(r@) == vehicle_presets(self@, vehicle_id),
    {
        let ghost files = presets_of(self.presets@);
        let mut found: Vec<PresetSummary> = Vec::new();
        let mut keys: Vec<String> = Vec::new();
        let mut i: usize = 0;
        assert(preset_summaries(found@) =~= Seq::<PresetSummaryModel>::empty());
        while i < self.presets.len()
            invariant
                i <= self.presets@.len(),
                files == presets_of(self.presets@),
                preset_summaries(found@) == presets_listed(files, vehicle_id, i as nat),
                keys@.len() == found@.len(),
                forall|k: int| 0 <= k < keys@.len() ==> (#[trigger] keys@[k])@ == found@[k].name@,
            decreases self.presets@.len() - i,
        {
            let e = &self.presets[i];
            assert(files[i as int] == e@);
            let ghost before = found@;
            match &e.content {
                PresetState::Parsed(p) => {
                    if e.vehicle_id == vehicle_id {
                        keys.push(p.name.clone());
                        let s = PresetSummary {
                            name: p.name.clone(),
                            created_at: p.created_at.clone(),
                            param_count: p.params.len(),
                        };
                        found.push(s);
                        assert(preset_summaries(found@) =~= preset_summaries(before).push(s@));
                    }
                },
                PresetState::Broken(_) => {},
            }
            i = i + 1;
        }
        let ghost all = preset_summaries(found@);
        assert(texts(keys@) =~= preset_names(all));
        let order = order_by(&keys, false);
        let mut r: Vec<PresetSummary> = Vec::new();
        let mut k: usize = 0;
        while k < order.len()
            invariant
                k <= order@.len(),
                order@.len() == found@.len(),
                all == preset_summaries(found@),
                forall|j: int| 0 <= j < order@.len() ==> #[trigger] order@[j] < found@.len(),
                r@.len() == k,
                forall|j: int| 0 <= j < k ==> (#[trigger] r@[j])@ == all[order@[j] as int],
            decreases order@.len() - k,
        {
            assert(order@[k as int] < found@.len());
            let s = &found[order[k]];
            r.push(
                PresetSummary {
                    name: s.name.clone(),
                    created_at: s.created_at.clone(),
                    param_count: s.param_count,
                },
            );
            assert(r@[k as int]@ =~= all[order@[k as int] as int]);
            k = k + 1;
        }
        proof {
            let q = ranked(preset_names(all), all.len(), false);
            assert(numbers(order@) == q);
            assert forall|j: int| 0 <= j < r@.len() implies #[trigger] preset_summaries(r@)[j]
                == in_order(all, preset_names(all), false)[j] by {
                assert(r@[j]@ == all[order@[j] as int]);
                assert(numbers(order@)[j] == q[j]);
            }
            assert(preset_summaries(r@) =~= in_order(all, preset_names(all), false));
        }
        r
    }

    /// Save a preset, in place of one of the same name.
    pub fn save_preset(
        &mut self,
        vehicle_id: u8,
        name: &str,
        params: &Vec<PresetParam>,
        now: &str,
    ) -> (r: Result<PresetFile, StoreError>)
        ensures
            (final(self)@, preset_result(r)) == preset_saved(
                old(self)@,
                vehicle_id,
                name@,
                params_of(params@),
                now@,
            ),
    {
        match validate_preset_name(name) {
            Ok(_) => {},
            Err(e) => return Err(e),
        }
        let p = PresetFile {
            name: String::from_str(name),
            created_at: String::from_str(now),
            vehicle_id,
            params: copy_params(params),
        };
        let i: usize = self.find_preset(vehicle_id, name);
        let ghost before = self@;
        let e = StoredPreset {
            vehicle_id,
            stem: String::from_str(name),
            content: PresetState::Parsed(p.copied()),
        };
        if i < self.presets.len() {
            self.presets.set(i, e);
        } else {
            self.presets.push(e);
        }
        assert(self@ =~= preset_put(before, p@));
        Ok(p)
    }

    /// A preset by its name.
    pub fn load_preset(&self, vehicle_id: u8, name: &str) -> (r: Result<PresetFile, StoreError>)
        ensures
            preset_result(r) == preset_read(self@, vehicle_id, name@),
    {
        match validate_preset_name(name) {
            Ok(_) => {},
            Err(e) => return Err(e),
        }
        let i: usize = self.find_preset(vehicle_id, name);
        if i >= self.presets.len() {
            return Err(no_preset(name));
        }
        assert(self@.presets[i as int] == self.presets@[i as int]@);
        match &self.presets[i].content {
            PresetState::Broken(e) => Err(StoreError::TomlDeserialize(e.clone())),
            PresetState::Parsed(p) => Ok(p.copied()),
        }
    }

    /// Delete a preset.
    pub fn delete_preset(&mut self, vehicle_id: u8, name: &str) -> (r: Result<(), StoreError>)
        ensures
            (final(self)@, done_result(r)) == preset_removed(old(self)@, vehicle_id, name@),
    {
        match validate_preset_name(name) {
            Ok(_) => {},
            Err(e) => return Err(e),
        }
        let i: usize = self.find_preset(vehicle_id, name);
        if i >= self.presets.len() {
            return Err(no_preset(name));
        }
        let ghost before = self@;
        let _ = self.presets.remove(i);
        assert(self@ =~= preset_removed(before, vehicle_id, name@).0);
        Ok(())
    }
}

} // verus!
