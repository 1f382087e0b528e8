//! What a stored mission's history shows, and how missions and presets are
//! listed.

use vstd::prelude::*;
#[allow(unused_imports)]
use crate::catalog::{changed, created};
#[allow(unused_imports)]
use crate::listing::{order_is_stable, ranked};
#[allow(unused_imports)]
use crate::mission::MissionFileModel;
#[allow(unused_imports)]
use crate::store::{
    live_missions, meta_for, meta_read, mission_at, mission_read, mission_updated, new_mission,
    preset_char, preset_names, preset_read, preset_saved, presets_listed, summarized, update_times,
    vehicle_presets, version_found, EntryModel, MetaStateModel, MissionSummaryModel,
    PresetParamModel, PresetStateModel, StoreErrorModel, StoreModel, VersionModel,
};
#[allow(unused_imports)]
use crate::store_laws::{entry_summary, live_list_holds, written_mission_is_read_back};
#[allow(unused_imports)]
use crate::text::{byte_len, precedes};

verus! {

// Order of texts.

/// Two texts agree up to place `i`, where the first ends or has the smaller
/// character.
pub open spec fn smaller_at(a: Seq<char>, b: Seq<char>, i: int) -> bool {
    &&& 0 <= i <= a.len()
    &&& i < b.len()
    &&& forall|k: int| 0 <= k < i ==> #[trigger] a[k] == b[k]
    &&& i == a.len() || (a[i] as int) < (b[i] as int)
}

/// A text comes before another where at the first place at which they differ
/// it has ended or has the smaller character.
pub proof fn dictionary_order(a: Seq<char>, b: Seq<char>)
    ensures
        precedes(a, b) <==> exists|i: int| smaller_at(a, b, i),
    decreases a.len(),
{
    if b.len() > 0 && a.len() == 0 {
        assert(smaller_at(a, b, 0));
    } else if b.len() > 0 && a[0] != b[0] {
        if (a[0] as int) < (b[0] as int) {
            assert(smaller_at(a, b, 0));
        }
        if exists|i: int| smaller_at(a, b, i) {
            let i = choose|i: int| smaller_at(a, b, i);
            if i > 0 {
                assert(a[0] == b[0]);
            }
        }
    } else if b.len() > 0 {
        let x = a.drop_first();
        let y = b.drop_first();
        dictionary_order(x, y);
        if precedes(x, y) {
            let i = choose|i: int| smaller_at(x, y, i);
            assert forall|k: int| 0 <= k < i + 1 implies #[trigger] a[k] == b[k] by {
                if k > 0 {
                    assert(x[k - 1] == y[k - 1]);
                }
            }
            assert(i < x.len() ==> x[i] == a[i + 1] && y[i] == b[i + 1]);
            assert(smaller_at(a, b, i + 1));
        }
        if exists|i: int| smaller_at(a, b, i) {
            let i = choose|i: int| smaller_at(a, b, i);
            assert(i > 0);
            assert forall|k: int| 0 <= k < i - 1 implies #[trigger] x[k] == y[k] by {
                assert(a[k + 1] == b[k + 1]);
            }
            assert(smaller_at(x, y, i - 1));
        }
    }
}

// Versions.

/// A created mission is the given one under its new id: version one, created
/// and updated now. Everything else is as given.
pub proof fn creation_stamps_the_mission(f: MissionFileModel, id: Seq<char>, now: Seq<char>)
    ensures
        ({
            let c = new_mission(f, id, now);
            &&& c.mission.id == id
            &&& c.mission.version == 1
            &&& c.mission.created_at == now
            &&& c.mission.updated_at == now
            &&& c.mission.name == f.mission.name
            &&& c.mission.vehicle_type == f.mission.vehicle_type
            &&& c.mission.px4_version == f.mission.px4_version
            &&& c.waypoints == f.waypoints
            &&& c.geofence == f.geofence
            &&& c.rally == f.rally
        }),
{
}

/// An updated mission is the given one under the id it is stored under: one
/// version on, created when it was created and updated now. Everything else
/// is as given. The note beside it says the same.
pub proof fn update_stamps_the_mission(
    m: StoreModel,
    id: Seq<char>,
    f: MissionFileModel,
    now: Seq<char>,
)
    requires
        mission_updated(m, id, f, now).1 is Ok,
        meta_read(m, id)->Ok_0.current_version < u32::MAX,
    ensures
        ({
            let c = mission_updated(m, id, f, now).1->Ok_0;
            let meta = meta_read(m, id)->Ok_0;
            let note = meta_for(c);
            &&& c.mission.id == id
            &&& c.mission.version == meta.current_version + 1
            &&& c.mission.created_at == meta.created_at
            &&& c.mission.updated_at == now
            &&& c.mission.name == f.mission.name
            &&& c.mission.vehicle_type == f.mission.vehicle_type
            &&& c.mission.px4_version == f.mission.px4_version
            &&& c.waypoints == f.waypoints
            &&& c.geofence == f.geofence
            &&& c.rally == f.rally
            &&& note.name == f.mission.name
            &&& note.created_at == meta.created_at
            &&& note.updated_at == now
            &&& note.current_version == meta.current_version + 1
            &&& !note.deleted
        }),
{
}

// Lists.

/// What the list shows of an entry: its id, the name, version and time of its
/// note, and the sizes of the version that is current.
pub open spec fn shows(x: MissionSummaryModel, e: EntryModel) -> bool {
    e.meta matches MetaStateModel::Read(meta) && {
        &&& x.id == e.id
        &&& x.name == meta.name
        &&& x.version == meta.current_version
        &&& x.updated_at == meta.updated_at
        &&& !x.deleted
        &&& match version_found(e.versions, meta.current_version) {
            Some(VersionModel::Parsed(f)) => x.waypoint_count == f.waypoints.len() && x.fence_count
                == f.geofence.inclusion.len() && x.rally_count == f.rally.len(),
            _ => x.waypoint_count == 0 && x.fence_count == 0 && x.rally_count == 0,
        }
    }
}

/// Every mission that is listed, not deleted and has a note is in the list,
/// shown as it is; and the list shows no others.
pub proof fn list_shows_the_live_missions(m: StoreModel, x: MissionSummaryModel)
    ensures
        live_missions(m).contains(x) <==> exists|i: int|
            0 <= i < m.missions.len() && (#[trigger] m.missions[i]).listed
                && !m.missions[i].tombstoned && shows(x, m.missions[i]),
{
    live_list_holds(m, x);
    if live_missions(m).contains(x) {
        let i = choose|i: int|
            0 <= i < m.missions.len() && entry_summary(#[trigger] m.missions[i], false) == Some(x);
        assert(shows(x, m.missions[i]));
    }
    if exists|i: int|
        0 <= i < m.missions.len() && (#[trigger] m.missions[i]).listed && !m.missions[i].tombstoned
            && shows(x, m.missions[i]) {
        let i = choose|i: int|
            0 <= i < m.missions.len() && (#[trigger] m.missions[i]).listed
                && !m.missions[i].tombstoned && shows(x, m.missions[i]);
        assert(entry_summary(m.missions[i], false) == Some(x));
    }
}

/// The list has the mission that was updated last first.
pub proof fn latest_update_comes_first(m: StoreModel, j: int, k: int)
    requires
        0 <= j < k < live_missions(m).len(),
    ensures
        ({
            let a = live_missions(m)[j].updated_at;
            let b = live_missions(m)[k].updated_at;
            a == b || exists|i: int| smaller_at(b, a, i)
        }),
{
    let s = summarized(m.missions, false, m.missions.len());
    let times = update_times(s);
    order_is_stable(times, s.len(), true);
    let r = ranked(times, s.len(), true);
    assert(crate::listing::well_placed(times, r[j], r[k], true));
    dictionary_order(live_missions(m)[k].updated_at, live_missions(m)[j].updated_at);
}

/// Presets of a vehicle are listed by name.
pub proof fn presets_are_listed_by_name(m: StoreModel, vehicle: u8, j: int, k: int)
    requires
        0 <= j < k < vehicle_presets(m, vehicle).len(),
    ensures
        ({
            let a = vehicle_presets(m, vehicle)[j].name;
            let b = vehicle_presets(m, vehicle)[k].name;
            a == b || exists|i: int| smaller_at(a, b, i)
        }),
{
    let s = presets_listed(m.presets, vehicle, m.presets.len());
    let names = preset_names(s);
    order_is_stable(names, s.len(), false);
    let r = ranked(names, s.len(), false);
    assert(crate::listing::well_placed(names, r[j], r[k], false));
    dictionary_order(vehicle_presets(m, vehicle)[j].name, vehicle_presets(m, vehicle)[k].name);
}

/// The next preset file adds one line to the list of its own vehicle, with its
/// name, its time and the number of its parameters, where it can be read; to
/// no other list, and none where it cannot.
pub proof fn readable_presets_are_listed(
    s: Seq<crate::store::StoredPresetModel>,
    vehicle: u8,
    n: nat,
)
    requires
        n < s.len(),
    ensures
        ({
            let before = presets_listed(s, vehicle, n);
            let r = presets_listed(s, vehicle, n + 1);
            match s[n as int].content {
                PresetStateModel::Parsed(p) => if s[n as int].vehicle_id == vehicle {
                    &&& r.len() == before.len() + 1
                    &&& r.drop_last() == before
                    &&& r.last().name == p.name
                    &&& r.last().created_at == p.created_at
                    &&& r.last().param_count == p.params.len()
                } else {
                    r == before
                },
                PresetStateModel::Broken(_) => r == before,
            }
        }),
        presets_listed(s, vehicle, 0).len() == 0,
{
    let before = presets_listed(s, vehicle, n);
    let r = presets_listed(s, vehicle, n + 1);
    if r.len() > before.len() {
        assert(r.drop_last() =~= before);
    }
}

/// A preset's name has one to 64 bytes, all of them letters, digits,
/// underscores or hyphens; any other name is refused, and nothing is saved.
pub proof fn preset_names_are_checked(
    m: StoreModel,
    vehicle: u8,
    name: Seq<char>,
    params: Seq<PresetParamModel>,
    now: Seq<char>,
)
    ensures
        ({
            let good = 1 <= name.len() && byte_len(name) <= 64 && forall|i: int|
                0 <= i < name.len() ==> {
                    let c = (#[trigger] name[i]) as int;
                    48 <= c <= 57 || 65 <= c <= 90 || 97 <= c <= 122 || c == 95 || c == 45
                };
            let (r, saved) = preset_saved(m, vehicle, name, params, now);
            &&& saved is Ok <==> good
            &&& !good ==> r == m && saved->Err_0 is InvalidId && preset_read(m, vehicle, name) is Err
            &&& saved matches Ok(p) ==> p.name == name && p.created_at == now && p.vehicle_id
                == vehicle && p.params == params
        }),
{
    assert forall|i: int| 0 <= i < name.len() implies preset_char(#[trigger] name[i]) == ({
        let c = name[i] as int;
        48 <= c <= 57 || 65 <= c <= 90 || 97 <= c <= 122 || c == 95 || c == 45
    }) by {}
}

// Requests.

/// A mission that could be read is stored under its new id and answered as it
/// is stored; reading it back gives that answer. One that could not is refused
/// with 400, and nothing is stored.
pub proof fn creation_stores_the_mission(
    m: StoreModel,
    f: MissionFileModel,
    id: Seq<char>,
    now: Seq<char>,
    fault: Seq<char>,
)
    ensures
        ({
            let (r, c) = created(m, Ok(f), id, now);
            &&& c is Ok
            &&& c->Ok_0.mission.id == id
            &&& c->Ok_0.waypoints == f.waypoints
            &&& mission_read(r, id) == Ok::<MissionFileModel, StoreErrorModel>(c->Ok_0)
            &&& r.presets == m.presets
        }),
        created(m, Err(fault), id, now).0 == m,
        created(m, Err(fault), id, now).1 is Err,
        created(m, Err(fault), id, now).1->Err_0.status == 400,
{
    written_mission_is_read_back(m, new_mission(f, id, now), 1);
}

/// A change of a mission that is there is stored as its next version and
/// answered as it is stored; one of a mission that is not there is refused
/// with 404, one that could not be read with 400, and nothing is stored.
pub proof fn change_stores_the_next_version(
    m: StoreModel,
    f: MissionFileModel,
    id: Seq<char>,
    now: Seq<char>,
    fault: Seq<char>,
)
    ensures
        ({
            let (r, c) = changed(m, Ok(f), id, now);
            let there = meta_read(m, id) is Ok && !m.missions[mission_at(m, id)].tombstoned;
            &&& c is Ok <==> there
            &&& there ==> mission_read(r, id) == Ok::<MissionFileModel, StoreErrorModel>(c->Ok_0)
                && c->Ok_0.waypoints == f.waypoints && c->Ok_0.mission.updated_at == now
            &&& !there ==> r == m && c->Err_0.status == 404
        }),
        changed(m, Err(fault), id, now).0 == m,
        changed(m, Err(fault), id, now).1 is Err,
        changed(m, Err(fault), id, now).1->Err_0.status == 400,
{
    if meta_read(m, id) is Ok && !m.missions[mission_at(m, id)].tombstoned {
        let next = mission_updated(m, id, f, now).1->Ok_0;
        written_mission_is_read_back(m, next, 1);
    }
}

} // verus!
