//! What the catalog keeps.

use vstd::prelude::*;
#[allow(unused_imports)]
use crate::mission::MissionFileModel;
#[allow(unused_imports)]
use crate::store::{
    all_missions, deleted_summary, has_mission, live_missions, live_summary, meta_read, mission_at, mission_deleted, mission_from,
    mission_put, mission_read, mission_rolled_back, mission_updated, mission_version, new_mission,
    preset_at, preset_char, preset_from, preset_name_fault, preset_read, preset_removed, preset_saved,
    summarized, version_found, version_from, version_put, EntryModel, MetaStateModel,
    MissionSummaryModel, PresetParamModel, StoreErrorModel, StoreModel, StoredPresetModel, VersionModel,
};

verus! {

// Lookups.

proof fn version_lookup(s: Seq<(u32, VersionModel)>, n: u32, i: int)
    requires
        0 <= i <= s.len(),
    ensures
        i <= version_from(s, n, i) <= s.len(),
        version_from(s, n, i) < s.len() ==> s[version_from(s, n, i)].0 == n,
        forall|k: int| i <= k < version_from(s, n, i) ==> (#[trigger] s[k]).0 != n,
    decreases s.len() - i,
{
    if i < s.len() && s[i].0 != n {
        version_lookup(s, n, i + 1);
    }
}

proof fn version_lookup_is(s: Seq<(u32, VersionModel)>, n: u32, i: int, p: int)
    requires
        0 <= i <= p <= s.len(),
        p < s.len() ==> s[p].0 == n,
        forall|k: int| i <= k < p ==> (#[trigger] s[k]).0 != n,
    ensures
        version_from(s, n, i) == p,
    decreases p - i,
{
    if i < p {
        assert(s[i].0 != n);
        version_lookup_is(s, n, i + 1, p);
    }
}

proof fn put_version_reads(s: Seq<(u32, VersionModel)>, n: u32, f: MissionFileModel, other: u32)
    ensures
        version_found(version_put(s, n, f), n) == Some(VersionModel::Parsed(f)),
        other != n ==> version_found(version_put(s, n, f), other) == version_found(s, other),
{
    let t = version_put(s, n, f);
    version_lookup(s, n, 0);
    let i = version_from(s, n, 0);
    assert forall|k: int| 0 <= k < i implies (#[trigger] t[k]).0 != n by {
        assert(t[k] == s[k]);
    }
    version_lookup_is(t, n, 0, i);
    if other != n {
        version_lookup(s, other, 0);
        let j = version_from(s, other, 0);
        if j < s.len() {
            assert forall|k: int| 0 <= k < j implies (#[trigger] t[k]).0 != other by {
                assert(s[k].0 != other);
                if k != i {
                    assert(t[k] == s[k]);
                }
            }
            assert(t[j] == s[j]);
            version_lookup_is(t, other, 0, j);
        } else {
            assert forall|k: int| 0 <= k < t.len() implies (#[trigger] t[k]).0 != other by {
                if k != i {
                    assert(t[k] == s[k]);
                }
            }
            version_lookup_is(t, other, 0, t.len() as int);
        }
    }
}

proof fn mission_lookup(s: Seq<EntryModel>, id: Seq<char>, i: int)
    requires
        0 <= i <= s.len(),
    ensures
        i <= mission_from(s, id, i) <= s.len(),
        mission_from(s, id, i) < s.len() ==> s[mission_from(s, id, i)].id == id,
        forall|k: int| i <= k < mission_from(s, id, i) ==> (#[trigger] s[k]).id != id,
    decreases s.len() - i,
{
    if i < s.len() && s[i].id != id {
        mission_lookup(s, id, i + 1);
    }
}

proof fn mission_lookup_is(s: Seq<EntryModel>, id: Seq<char>, i: int, p: int)
    requires
        0 <= i <= p <= s.len(),
        p < s.len() ==> s[p].id == id,
        forall|k: int| i <= k < p ==> (#[trigger] s[k]).id != id,
    ensures
        mission_from(s, id, i) == p,
    decreases p - i,
{
    if i < p {
        assert(s[i].id != id);
        mission_lookup_is(s, id, i + 1, p);
    }
}

/// Lookups after one entry was replaced by another of the same id, or added.
proof fn mission_lookup_after(s: Seq<EntryModel>, t: Seq<EntryModel>, i: int, id: Seq<char>)
    requires
        0 <= i <= s.len(),
        i == mission_from(s, id, 0),
        i < s.len() ==> t.len() == s.len(),
        i == s.len() ==> t.len() == s.len() + 1,
        t[i].id == id,
        forall|k: int| 0 <= k < s.len() && k != i ==> #[trigger] t[k] == s[k],
    ensures
        mission_from(t, id, 0) == i,
        forall|other: Seq<char>|
            other != id ==> {
                let j = #[trigger] mission_from(s, other, 0);
                let q = mission_from(t, other, 0);
                &&& j < s.len() <==> q < t.len()
                &&& j < s.len() ==> q == j && t[q] == s[j]
            },
{
    mission_lookup(s, id, 0);
    assert forall|k: int| 0 <= k < i implies (#[trigger] t[k]).id != id by {
        assert(t[k] == s[k]);
    }
    mission_lookup_is(t, id, 0, i);
    assert forall|other: Seq<char>| other != id implies ({
        let j = #[trigger] mission_from(s, other, 0);
        let q = mission_from(t, other, 0);
        &&& j < s.len() <==> q < t.len()
        &&& j < s.len() ==> q == j && t[q] == s[j]
    }) by {
        mission_lookup(s, other, 0);
        let j = mission_from(s, other, 0);
        if j < s.len() {
            assert forall|k: int| 0 <= k < j implies (#[trigger] t[k]).id != other by {
                assert(s[k].id != other);
                if k != i {
                    assert(t[k] == s[k]);
                }
            }
            assert(j != i);
            assert(t[j] == s[j]);
            mission_lookup_is(t, other, 0, j);
        } else {
            assert forall|k: int| 0 <= k < t.len() implies (#[trigger] t[k]).id != other by {
                if k != i {
                    assert(t[k] == s[k]);
                }
            }
            mission_lookup_is(t, other, 0, t.len() as int);
        }
    }
}

// Laws of missions.

/// A mission that was written reads back as it was written, as the latest
/// version and under its number; its other versions are as they were.
pub proof fn written_mission_is_read_back(m: StoreModel, f: MissionFileModel, other: u32)
    ensures
        mission_read(mission_put(m, f), f.mission.id) == Ok::<MissionFileModel, StoreErrorModel>(f),
        mission_version(mission_put(m, f), f.mission.id, f.mission.version) == Ok::<
            MissionFileModel,
            StoreErrorModel,
        >(f),
        other != f.mission.version ==> mission_version(mission_put(m, f), f.mission.id, other)
            == mission_version(m, f.mission.id, other),
{
    let id = f.mission.id;
    let r = mission_put(m, f);
    let i = mission_at(m, id);
    mission_lookup(m.missions, id, 0);
    mission_lookup_after(m.missions, r.missions, i, id);
    let before = if i < m.missions.len() {
        m.missions[i].versions
    } else {
        Seq::empty()
    };
    put_version_reads(before, f.mission.version, f, other);
    assert(r.missions[i].versions == version_put(before, f.mission.version, f));
    if i >= m.missions.len() {
        assert(version_found(before, other) is None);
    }
}

/// Writing a mission leaves every other mission as it was.
pub proof fn other_missions_are_untouched(m: StoreModel, f: MissionFileModel, id: Seq<char>, n: u32)
    requires
        id != f.mission.id,
    ensures
        mission_read(mission_put(m, f), id) == mission_read(m, id),
        mission_version(mission_put(m, f), id, n) == mission_version(m, id, n),
        mission_put(m, f).presets == m.presets,
{
    let r = mission_put(m, f);
    let i = mission_at(m, f.mission.id);
    mission_lookup(m.missions, f.mission.id, 0);
    mission_lookup_after(m.missions, r.missions, i, f.mission.id);
    let j = mission_from(m.missions, id, 0);
    assert(j == mission_at(m, id));
}

/// A mission that was created reads back with its content, as version one.
pub proof fn created_mission_is_read_back(
    m: StoreModel,
    f: MissionFileModel,
    id: Seq<char>,
    now: Seq<char>,
)
    ensures
        ({
            let c = new_mission(f, id, now);
            let r = mission_put(m, c);
            &&& mission_read(r, id) == Ok::<MissionFileModel, StoreErrorModel>(c)
            &&& c.mission.version == 1
            &&& c.mission.name == f.mission.name
            &&& c.waypoints == f.waypoints
            &&& c.geofence == f.geofence
            &&& c.rally == f.rally
        }),
{
    written_mission_is_read_back(m, new_mission(f, id, now), 1);
}

/// An update adds the next version and keeps every earlier one.
pub proof fn update_keeps_earlier_versions(
    m: StoreModel,
    id: Seq<char>,
    f: MissionFileModel,
    now: Seq<char>,
    n: u32,
)
    requires
        mission_updated(m, id, f, now).1 is Ok,
    ensures
        ({
            let (r, u) = mission_updated(m, id, f, now);
            let latest = meta_read(m, id)->Ok_0.current_version;
            &&& mission_read(r, id) == u
            &&& u->Ok_0.mission.version == latest.wrapping_add(1)
            &&& u->Ok_0.waypoints == f.waypoints
            &&& u->Ok_0.mission.created_at == meta_read(m, id)->Ok_0.created_at
            &&& n != latest.wrapping_add(1) ==> mission_version(r, id, n) == mission_version(
                m,
                id,
                n,
            )
        }),
{
    let next = mission_updated(m, id, f, now).1->Ok_0;
    written_mission_is_read_back(m, next, n);
}

/// A rollback makes a new version with the content of an earlier one, and
/// keeps that one.
pub proof fn rollback_restores_content(m: StoreModel, id: Seq<char>, to: u32, now: Seq<char>)
    requires
        mission_rolled_back(m, id, to, now).1 is Ok,
    ensures
        ({
            let (r, u) = mission_rolled_back(m, id, to, now);
            let earlier = mission_version(m, id, to)->Ok_0;
            let latest = meta_read(m, id)->Ok_0.current_version;
            &&& mission_version(m, id, to) is Ok
            &&& mission_read(r, id) == u
            &&& u->Ok_0.mission.version == latest.wrapping_add(1)
            &&& u->Ok_0.mission.name == earlier.mission.name
            &&& u->Ok_0.waypoints == earlier.waypoints
            &&& u->Ok_0.geofence == earlier.geofence
            &&& u->Ok_0.rally == earlier.rally
            &&& to != latest.wrapping_add(1) ==> mission_version(r, id, to) == mission_version(
                m,
                id,
                to,
            )
        }),
{
    update_keeps_earlier_versions(m, id, mission_version(m, id, to)->Ok_0, now, to);
}

/// A mission in the list is live: some listed entry under its id is not
/// deleted.
pub proof fn listed_missions_are_live(m: StoreModel, k: int)
    requires
        0 <= k < live_missions(m).len(),
    ensures
        exists|i: int|
            0 <= i < m.missions.len() && (#[trigger] m.missions[i]).id == live_missions(m)[k].id
                && m.missions[i].listed && !m.missions[i].tombstoned,
{
    let s = summarized(m.missions, false, m.missions.len());
    crate::listing::order_is_stable(crate::store::update_times(s), s.len(), true);
    let r = crate::listing::ranked(crate::store::update_times(s), s.len(), true);
    assert(live_missions(m)[k] == s[r[k]]);
    summary_has_its_entry(m.missions, false, m.missions.len(), r[k]);
}

/// Deleting marks the mission and nothing else: an update finds it no more, but
/// its versions stay readable.
pub proof fn deleted_mission_stays_readable(
    m: StoreModel,
    id: Seq<char>,
    f: MissionFileModel,
    now: Seq<char>,
    n: u32,
)
    requires
        has_mission(m, id),
    ensures
        ({
            let (r, d) = mission_deleted(m, id);
            &&& d is Ok
            &&& r.missions[mission_at(r, id)].tombstoned
            &&& mission_read(r, id) == mission_read(m, id)
            &&& mission_version(r, id, n) == mission_version(m, id, n)
            &&& mission_updated(r, id, f, now).1 is Err
            &&& meta_read(m, id) is Ok ==> mission_updated(r, id, f, now).1 == Err::<
                MissionFileModel,
                StoreErrorModel,
            >(StoreErrorModel::NotFound(id))
            &&& mission_updated(r, id, f, now).0 == r
        }),
{
    let r = mission_deleted(m, id).0;
    let i = mission_at(m, id);
    mission_lookup(m.missions, id, 0);
    mission_lookup_after(m.missions, r.missions, i, id);
}

/// No two missions share a directory.
pub open spec fn mission_ids_differ(m: StoreModel) -> bool {
    forall|i: int, j: int|
        0 <= i < j < m.missions.len() ==> (#[trigger] m.missions[i]).id != (
        #[trigger] m.missions[j]).id
}

/// Writing or deleting a mission leaves no two missions in one directory.
pub proof fn mission_ids_stay_apart(m: StoreModel, f: MissionFileModel, id: Seq<char>)
    requires
        mission_ids_differ(m),
    ensures
        mission_ids_differ(mission_put(m, f)),
        mission_ids_differ(mission_deleted(m, id).0),
{
    mission_lookup(m.missions, f.mission.id, 0);
    mission_lookup(m.missions, id, 0);
    let at = mission_at(m, f.mission.id);
    let r = mission_put(m, f);
    assert forall|i: int, j: int| 0 <= i < j < r.missions.len() implies (
    #[trigger] r.missions[i]).id != (#[trigger] r.missions[j]).id by {
        assert(i < m.missions.len() ==> r.missions[i].id == m.missions[i].id);
        assert(j < m.missions.len() ==> r.missions[j].id == m.missions[j].id);
        if j == m.missions.len() {
            assert(at == j);
            assert(m.missions[i].id != f.mission.id);
        }
    }
    let d = mission_deleted(m, id).0;
    assert forall|i: int, j: int| 0 <= i < j < d.missions.len() implies (
    #[trigger] d.missions[i]).id != (#[trigger] d.missions[j]).id by {
        assert(d.missions[i].id == m.missions[i].id);
        assert(d.missions[j].id == m.missions[j].id);
    }
}

/// How an entry is listed among the live ones, or among the deleted ones.
pub open spec fn entry_summary(e: EntryModel, deleted: bool) -> Option<MissionSummaryModel> {
    match e.meta {
        MetaStateModel::Read(meta) => if !e.listed || e.tombstoned != deleted {
            None
        } else if deleted {
            Some(deleted_summary(e, meta))
        } else {
            Some(live_summary(e, meta))
        },
        _ => None,
    }
}

proof fn summary_has_its_entry(s: Seq<EntryModel>, deleted: bool, n: nat, k: int)
    requires
        n <= s.len(),
        0 <= k < summarized(s, deleted, n).len(),
    ensures
        exists|i: int|
            0 <= i < n && entry_summary(#[trigger] s[i], deleted) == Some(
                summarized(s, deleted, n)[k],
            ),
    decreases n,
{
    let m = (n - 1) as nat;
    let before = summarized(s, deleted, m);
    if k < before.len() {
        summary_has_its_entry(s, deleted, m, k);
        let i = choose|i: int|
            0 <= i < m && entry_summary(#[trigger] s[i], deleted) == Some(before[k]);
        assert(entry_summary(s[i], deleted) == Some(summarized(s, deleted, n)[k]));
    } else {
        assert(entry_summary(s[m as int], deleted) == Some(summarized(s, deleted, n)[k]));
    }
}

proof fn entry_has_its_summary(s: Seq<EntryModel>, deleted: bool, n: nat, i: int)
    requires
        0 <= i < n <= s.len(),
        entry_summary(s[i], deleted) is Some,
    ensures
        summarized(s, deleted, n).contains(entry_summary(s[i], deleted)->0),
    decreases n,
{
    let m = (n - 1) as nat;
    let before = summarized(s, deleted, m);
    let after = summarized(s, deleted, n);
    if i < m {
        entry_has_its_summary(s, deleted, m, i);
        let k = choose|k: int|
            0 <= k < before.len() && before[k] == entry_summary(s[i], deleted)->0;
        assert(after[k] == before[k]);
    } else {
        assert(after[after.len() - 1] == entry_summary(s[i], deleted)->0);
    }
}

proof fn summarized_ids_differ(s: Seq<EntryModel>, deleted: bool, n: nat)
    requires
        n <= s.len(),
        forall|i: int, j: int|
            0 <= i < j < s.len() ==> (#[trigger] s[i]).id != (#[trigger] s[j]).id,
    ensures
        forall|j: int, k: int|
            0 <= j < k < summarized(s, deleted, n).len() ==> (
            #[trigger] summarized(s, deleted, n)[j]).id != (#[trigger] summarized(
                s,
                deleted,
                n,
            )[k]).id,
    decreases n,
{
    if n > 0 {
        let m = (n - 1) as nat;
        let before = summarized(s, deleted, m);
        let after = summarized(s, deleted, n);
        summarized_ids_differ(s, deleted, m);
        assert forall|j: int, k: int| 0 <= j < k < after.len() implies (#[trigger] after[j]).id != (
        #[trigger] after[k]).id by {
            assert(after[j] == before[j]);
            if k < before.len() {
                assert(after[k] == before[k]);
            } else {
                summary_has_its_entry(s, deleted, m, j);
                let i = choose|i: int|
                    0 <= i < m && entry_summary(#[trigger] s[i], deleted) == Some(before[j]);
                assert(s[i].id != s[m as int].id);
            }
        }
    }
}

/// A list of live missions holds the summaries of the live entries.
pub proof fn live_list_holds(m: StoreModel, x: MissionSummaryModel)
    ensures
        live_missions(m).contains(x) <==> exists|i: int|
            0 <= i < m.missions.len() && entry_summary(#[trigger] m.missions[i], false) == Some(x),
{
    let s = summarized(m.missions, false, m.missions.len());
    let times = crate::store::update_times(s);
    crate::listing::order_is_stable(times, s.len(), true);
    let r = crate::listing::ranked(times, s.len(), true);
    if live_missions(m).contains(x) {
        let k = choose|k: int| 0 <= k < live_missions(m).len() && live_missions(m)[k] == x;
        assert(live_missions(m)[k] == s[r[k]]);
        summary_has_its_entry(m.missions, false, m.missions.len(), r[k]);
    }
    if exists|i: int|
        0 <= i < m.missions.len() && entry_summary(#[trigger] m.missions[i], false) == Some(x) {
        let i = choose|i: int|
            0 <= i < m.missions.len() && entry_summary(#[trigger] m.missions[i], false) == Some(x);
        entry_has_its_summary(m.missions, false, m.missions.len(), i);
        let p = choose|p: int| 0 <= p < s.len() && s[p] == x;
        assert(r.contains(p));
        let k = choose|k: int| 0 <= k < r.len() && r[k] == p;
        assert(live_missions(m)[k] == s[r[k]]);
    }
}

proof fn deleted_list_holds(m: StoreModel, x: MissionSummaryModel)
    ensures
        summarized(m.missions, true, m.missions.len()).contains(x) <==> exists|i: int|
            0 <= i < m.missions.len() && entry_summary(#[trigger] m.missions[i], true) == Some(x),
{
    let s = summarized(m.missions, true, m.missions.len());
    if s.contains(x) {
        let k = choose|k: int| 0 <= k < s.len() && s[k] == x;
        summary_has_its_entry(m.missions, true, m.missions.len(), k);
    }
    if exists|i: int|
        0 <= i < m.missions.len() && entry_summary(#[trigger] m.missions[i], true) == Some(x) {
        let i = choose|i: int|
            0 <= i < m.missions.len() && entry_summary(#[trigger] m.missions[i], true) == Some(x);
        entry_has_its_summary(m.missions, true, m.missions.len(), i);
    }
}

/// A deleted mission leaves the list of live ones.
pub proof fn deleted_mission_is_not_listed(m: StoreModel, id: Seq<char>)
    requires
        has_mission(m, id),
        mission_ids_differ(m),
    ensures
        forall|k: int|
            0 <= k < live_missions(mission_deleted(m, id).0).len() ==> (
            #[trigger] live_missions(mission_deleted(m, id).0)[k]).id != id,
{
    let r = mission_deleted(m, id).0;
    let i = mission_at(m, id);
    mission_lookup(m.missions, id, 0);
    assert forall|k: int| 0 <= k < live_missions(r).len() implies (
    #[trigger] live_missions(r)[k]).id != id by {
        listed_missions_are_live(r, k);
        let j = choose|j: int|
            0 <= j < r.missions.len() && (#[trigger] r.missions[j]).id == live_missions(r)[k].id
                && !r.missions[j].tombstoned;
        if live_missions(r)[k].id == id {
            assert(j != i);
            assert(r.missions[j] == m.missions[j]);
            assert(m.missions[j].id == m.missions[i].id);
        }
    }
}

/// A deleted mission that is listed, and whose note can be read, stands in the
/// full list exactly once, as deleted.
pub proof fn deleted_mission_is_listed_once(m: StoreModel, id: Seq<char>)
    requires
        has_mission(m, id),
        mission_ids_differ(m),
        m.missions[mission_at(m, id)].listed,
        m.missions[mission_at(m, id)].meta is Read,
    ensures
        ({
            let all = all_missions(mission_deleted(m, id).0);
            exists|k: int|
                0 <= k < all.len() && (#[trigger] all[k]).id == id && all[k].deleted && forall|j: int|
                    0 <= j < all.len() && j != k ==> (#[trigger] all[j]).id != id
        }),
{
    let r = mission_deleted(m, id).0;
    let i = mission_at(m, id);
    mission_lookup(m.missions, id, 0);
    mission_ids_stay_apart(m, arbitrary(), id);
    deleted_mission_is_not_listed(m, id);
    let live = live_missions(r);
    let gone = summarized(r.missions, true, r.missions.len());
    let all = all_missions(r);
    entry_has_its_summary(r.missions, true, r.missions.len(), i);
    let k = choose|k: int| 0 <= k < gone.len() && gone[k] == entry_summary(r.missions[i], true)->0;
    summarized_ids_differ(r.missions, true, r.missions.len());
    let at = live.len() + k;
    assert(all[at] == gone[k]);
    assert forall|j: int| 0 <= j < all.len() && j != at implies (#[trigger] all[j]).id != id by {
        if j < live.len() {
            assert(all[j] == live[j]);
        } else {
            let p = j - live.len();
            assert(all[j] == gone[p]);
            if p < k {
                assert(gone[p].id != gone[k].id);
            } else {
                assert(gone[k].id != gone[p].id);
            }
        }
    }
}

/// Deleting a mission leaves every other mission, its versions and how it is
/// listed, and every preset, as they were.
pub proof fn deletion_leaves_other_missions(
    m: StoreModel,
    id: Seq<char>,
    other: Seq<char>,
    n: u32,
    x: MissionSummaryModel,
)
    requires
        other != id,
        x.id == other,
    ensures
        ({
            let r = mission_deleted(m, id).0;
            &&& has_mission(r, other) == has_mission(m, other)
            &&& mission_read(r, other) == mission_read(m, other)
            &&& mission_version(r, other, n) == mission_version(m, other, n)
            &&& live_missions(r).contains(x) <==> live_missions(m).contains(x)
            &&& all_missions(r).contains(x) <==> all_missions(m).contains(x)
            &&& r.presets == m.presets
        }),
{
    let r = mission_deleted(m, id).0;
    let i = mission_at(m, id);
    mission_lookup(m.missions, id, 0);
    if i < m.missions.len() {
        mission_lookup_after(m.missions, r.missions, i, id);
        let j = mission_from(m.missions, other, 0);
        assert(j == mission_at(m, other));
        live_list_holds(m, x);
        live_list_holds(r, x);
        deleted_list_holds(m, x);
        deleted_list_holds(r, x);
        assert forall|k: int, d: bool|
            0 <= k < m.missions.len() && #[trigger] entry_summary(m.missions[k], d) == Some(
                x,
            ) implies r.missions[k] == m.missions[k] by {
            assert(m.missions[k].id == other);
        }
        assert forall|k: int, d: bool|
            0 <= k < m.missions.len() && #[trigger] entry_summary(r.missions[k], d) == Some(
                x,
            ) implies r.missions[k] == m.missions[k] by {
            assert(r.missions[k].id == other);
        }
        joined_holds(live_missions(m), summarized(m.missions, true, m.missions.len()), x);
        joined_holds(live_missions(r), summarized(r.missions, true, r.missions.len()), x);
    }
}

proof fn joined_holds(a: Seq<MissionSummaryModel>, b: Seq<MissionSummaryModel>, x: MissionSummaryModel)
    ensures
        (a + b).contains(x) <==> a.contains(x) || b.contains(x),
{
    if a.contains(x) {
        let k = choose|k: int| 0 <= k < a.len() && a[k] == x;
        assert((a + b)[k] == x);
    }
    if b.contains(x) {
        let k = choose|k: int| 0 <= k < b.len() && b[k] == x;
        assert((a + b)[a.len() + k] == x);
    }
}

/// What an id leads to without being listed is read, updated and deleted like
/// any other mission, and shows in no list before or after.
pub proof fn unlisted_missions_show_in_no_list(
    m: StoreModel,
    id: Seq<char>,
    f: MissionFileModel,
    now: Seq<char>,
)
    requires
        has_mission(m, id),
        mission_ids_differ(m),
        !m.missions[mission_at(m, id)].listed,
    ensures
        no_summary_of(m, id),
        no_summary_of(mission_deleted(m, id).0, id),
        no_summary_of(mission_updated(m, id, f, now).0, id),
{
    unlisted_entry_is_hidden(m, id);
    mission_lookup(m.missions, id, 0);
    let i = mission_at(m, id);
    let d = mission_deleted(m, id).0;
    mission_lookup_after(m.missions, d.missions, i, id);
    mission_ids_stay_apart(m, f, id);
    unlisted_entry_is_hidden(d, id);
    if mission_updated(m, id, f, now).1 is Ok {
        let next = mission_updated(m, id, f, now).1->Ok_0;
        let u = mission_put(m, next);
        mission_ids_stay_apart(m, next, id);
        mission_lookup_after(m.missions, u.missions, i, id);
        unlisted_entry_is_hidden(u, id);
    }
}

/// Neither list shows the id.
pub open spec fn no_summary_of(m: StoreModel, id: Seq<char>) -> bool {
    forall|k: int| 0 <= k < all_missions(m).len() ==> (#[trigger] all_missions(m)[k]).id != id
}

proof fn unlisted_entry_is_hidden(m: StoreModel, id: Seq<char>)
    requires
        has_mission(m, id),
        mission_ids_differ(m),
        !m.missions[mission_at(m, id)].listed,
    ensures
        no_summary_of(m, id),
{
    mission_lookup(m.missions, id, 0);
    let at = mission_at(m, id);
    let live = live_missions(m);
    let gone = summarized(m.missions, true, m.missions.len());
    assert forall|k: int| 0 <= k < all_missions(m).len() implies (
    #[trigger] all_missions(m)[k]).id != id by {
        let x = all_missions(m)[k];
        if k < live.len() {
            assert(live[k] == x);
            live_list_holds(m, x);
            let i = choose|i: int|
                0 <= i < m.missions.len() && entry_summary(#[trigger] m.missions[i], false) == Some(x);
            assert(i != at);
            assert(m.missions[i].id != m.missions[at].id);
        } else {
            assert(gone[k - live.len()] == x);
            deleted_list_holds(m, x);
            let i = choose|i: int|
                0 <= i < m.missions.len() && entry_summary(#[trigger] m.missions[i], true) == Some(x);
            assert(i != at);
            assert(m.missions[i].id != m.missions[at].id);
        }
    }
}

/// An id without a mission cannot be deleted.
pub proof fn missing_mission_is_not_deleted(m: StoreModel, id: Seq<char>)
    requires
        !has_mission(m, id),
    ensures
        mission_deleted(m, id) == (m, Err::<(), StoreErrorModel>(StoreErrorModel::NotFound(id))),
{
    mission_lookup(m.missions, id, 0);
}

// Laws of presets.

proof fn preset_lookup(s: Seq<StoredPresetModel>, v: u8, stem: Seq<char>, i: int)
    requires
        0 <= i <= s.len(),
    ensures
        ({
            let p = preset_from(s, v, stem, i);
            &&& i <= p <= s.len()
            &&& p < s.len() ==> s[p].vehicle_id == v && s[p].stem == stem
            &&& forall|k: int|
                i <= k < p ==> !((#[trigger] s[k]).vehicle_id == v && s[k].stem == stem)
        }),
    decreases s.len() - i,
{
    if i < s.len() && !(s[i].vehicle_id == v && s[i].stem == stem) {
        preset_lookup(s, v, stem, i + 1);
    }
}

proof fn preset_lookup_is(s: Seq<StoredPresetModel>, v: u8, stem: Seq<char>, i: int, p: int)
    requires
        0 <= i <= p <= s.len(),
        p < s.len() ==> s[p].vehicle_id == v && s[p].stem == stem,
        forall|k: int| i <= k < p ==> !((#[trigger] s[k]).vehicle_id == v && s[k].stem == stem),
    ensures
        preset_from(s, v, stem, i) == p,
    decreases p - i,
{
    if i < p {
        assert(!(s[i].vehicle_id == v && s[i].stem == stem));
        preset_lookup_is(s, v, stem, i + 1, p);
    }
}

/// A preset that was saved is loaded as it was saved, whatever was there
/// before.
pub proof fn saved_preset_is_loaded(
    m: StoreModel,
    vehicle: u8,
    name: Seq<char>,
    params: Seq<PresetParamModel>,
    now: Seq<char>,
)
    requires
        preset_name_fault(name) is None,
    ensures
        ({
            let (r, p) = preset_saved(m, vehicle, name, params, now);
            &&& p is Ok
            &&& preset_read(r, vehicle, name) == p
            &&& p->Ok_0.params == params
            &&& p->Ok_0.vehicle_id == vehicle
        }),
{
    let r = preset_saved(m, vehicle, name, params, now).0;
    preset_lookup(m.presets, vehicle, name, 0);
    let i = preset_at(m, vehicle, name);
    assert forall|k: int| 0 <= k < i implies !((#[trigger] r.presets[k]).vehicle_id == vehicle
        && r.presets[k].stem == name) by {
        assert(r.presets[k] == m.presets[k]);
    }
    preset_lookup_is(r.presets, vehicle, name, 0, i);
}

/// Saving a preset changes none of another name or another vehicle.
pub proof fn other_presets_are_untouched(
    m: StoreModel,
    vehicle: u8,
    name: Seq<char>,
    params: Seq<PresetParamModel>,
    now: Seq<char>,
    v: u8,
    other: Seq<char>,
)
    requires
        v != vehicle || other != name,
    ensures
        preset_read(preset_saved(m, vehicle, name, params, now).0, v, other) == preset_read(
            m,
            v,
            other,
        ),
        preset_saved(m, vehicle, name, params, now).0.missions == m.missions,
{
    let r = preset_saved(m, vehicle, name, params, now).0;
    if preset_name_fault(name) is None {
        preset_lookup(m.presets, vehicle, name, 0);
        let i = preset_at(m, vehicle, name);
        preset_lookup(m.presets, v, other, 0);
        let j = preset_at(m, v, other);
        if j < m.presets.len() {
            assert forall|k: int| 0 <= k < j implies !((#[trigger] r.presets[k]).vehicle_id == v
                && r.presets[k].stem == other) by {
                if k != i {
                    assert(r.presets[k] == m.presets[k]);
                }
            }
            assert(r.presets[j] == m.presets[j]);
            preset_lookup_is(r.presets, v, other, 0, j);
        } else {
            assert forall|k: int| 0 <= k < r.presets.len() implies !((
            #[trigger] r.presets[k]).vehicle_id == v && r.presets[k].stem == other) by {
                if k != i {
                    assert(r.presets[k] == m.presets[k]);
                }
            }
            preset_lookup_is(r.presets, v, other, 0, r.presets.len() as int);
        }
    }
}

/// No two presets of a vehicle share a file.
pub open spec fn preset_files_differ(m: StoreModel) -> bool {
    forall|i: int, j: int|
        0 <= i < j < m.presets.len() ==> !((#[trigger] m.presets[i]).vehicle_id == (
        #[trigger] m.presets[j]).vehicle_id && m.presets[i].stem == m.presets[j].stem)
}

/// A preset that was deleted is gone; deleting it again says so.
pub proof fn deleted_preset_is_gone(m: StoreModel, vehicle: u8, name: Seq<char>)
    requires
        preset_files_differ(m),
        preset_removed(m, vehicle, name).1 is Ok,
    ensures
        ({
            let r = preset_removed(m, vehicle, name).0;
            &&& preset_read(r, vehicle, name) is Err
            &&& preset_removed(r, vehicle, name).1 is Err
            &&& preset_files_differ(r)
        }),
{
    let r = preset_removed(m, vehicle, name).0;
    preset_lookup(m.presets, vehicle, name, 0);
    let i = preset_at(m, vehicle, name);
    assert forall|k: int| 0 <= k < r.presets.len() implies !((
    #[trigger] r.presets[k]).vehicle_id == vehicle && r.presets[k].stem == name) by {
        if k < i {
            assert(r.presets[k] == m.presets[k]);
        } else {
            assert(r.presets[k] == m.presets[k + 1]);
            assert(m.presets[i].vehicle_id == vehicle);
        }
    }
    preset_lookup_is(r.presets, vehicle, name, 0, r.presets.len() as int);
    assert forall|a: int, b: int| 0 <= a < b < r.presets.len() implies !((
    #[trigger] r.presets[a]).vehicle_id == (#[trigger] r.presets[b]).vehicle_id
        && r.presets[a].stem == r.presets[b].stem) by {
        let x = if a < i {
            a
        } else {
            a + 1
        };
        let y = if b < i {
            b
        } else {
            b + 1
        };
        assert(r.presets[a] == m.presets[x]);
        assert(r.presets[b] == m.presets[y]);
    }
}

/// A preset's name is one component of a path: no separator, no dot.
pub proof fn preset_names_are_plain(name: Seq<char>)
    requires
        preset_name_fault(name) is None,
    ensures
        name.len() > 0,
        !name.contains('/'),
        !name.contains('\\'),
        !name.contains('.'),
{
    assert(forall|i: int| 0 <= i < name.len() ==> preset_char(#[trigger] name[i]));
}

} // verus!
