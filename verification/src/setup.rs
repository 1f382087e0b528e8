//! The vehicle setup view: what a vehicle runs, how it is calibrated and
//! configured, and the airframes to pick from. Everything configured is read
//! from the vehicle's parameter cache.

use vstd::prelude::*;
use crate::fsm::FsmState;
use crate::modes::mode_name;
#[allow(unused_imports)]
use crate::modes::word_name;
use crate::params::{ParamDownloadState, ParamStore, ParamVal};
#[allow(unused_imports)]
use crate::params::{i32_of, typed_of, typed_reading, StoreModel};
use crate::supervisor::Supervisor;
#[allow(unused_imports)]
use crate::supervisor::SupModel;

verus! {

#[derive(Debug, Clone, Copy, PartialEq, Eq, Structural)]
pub enum AirframeCategory {
    Copter,
    Plane,
    Vtol,
    Rover,
    Boat,
    Underwater,
    Other,
    Simulator,
}

/// The order in which categories are offered.
pub const CATEGORY_ORDER: [AirframeCategory; 8] = [
    AirframeCategory::Copter,
    AirframeCategory::Plane,
    AirframeCategory::Vtol,
    AirframeCategory::Rover,
    AirframeCategory::Boat,
    AirframeCategory::Underwater,
    AirframeCategory::Other,
    AirframeCategory::Simulator,
];

impl AirframeCategory {
    pub open spec fn rank(self) -> int {
        match self {
            AirframeCategory::Copter => 0,
            AirframeCategory::Plane => 1,
            AirframeCategory::Vtol => 2,
            AirframeCategory::Rover => 3,
            AirframeCategory::Boat => 4,
            AirframeCategory::Underwater => 5,
            AirframeCategory::Other => 6,
            AirframeCategory::Simulator => 7,
        }
    }
}

/// An entry of the airframe catalog.
#[derive(Debug, Clone)]
pub struct Airframe {
    pub id: u32,
    pub name: String,
    pub frame_type: String,
    pub category: AirframeCategory,
    /// The category as it is shown.
    pub category_label: String,
    pub sim_model: Option<String>,
}

/// The airframe a vehicle runs, resolved against the catalog.
#[derive(Debug, Clone)]
pub struct ResolvedAirframe {
    pub sys_autostart: Option<i32>,
    pub name: String,
    pub frame_type: String,
    pub category: String,
    /// Whether the simulated quadrotor flies like it.
    pub dynamics_compatible: bool,
}

#[verifier::ext_equal]
pub struct ResolvedModel {
    pub sys_autostart: Option<i32>,
    pub name: Seq<char>,
    pub frame_type: Seq<char>,
    pub category: Seq<char>,
    pub dynamics_compatible: bool,
}

impl View for ResolvedAirframe {
    type V = ResolvedModel;

    open spec fn view(&self) -> ResolvedModel {
        ResolvedModel {
            sys_autostart: self.sys_autostart,
            name: self.name@,
            frame_type: self.frame_type@,
            category: self.category@,
            dynamics_compatible: self.dynamics_compatible,
        }
    }
}

/// The first entry from `i` on with an id.
pub open spec fn entry_from(catalog: Seq<Airframe>, id: int, i: int) -> Option<int>
    decreases catalog.len() - i,
{
    if i < 0 || i >= catalog.len() {
        None
    } else if catalog[i].id == id {
        Some(i)
    } else {
        entry_from(catalog, id, i + 1)
    }
}

pub open spec fn flies_as_quad(c: AirframeCategory) -> bool {
    c is Copter || c is Simulator
}

pub open spec fn resolved(id: Option<i32>, catalog: Seq<Airframe>) -> ResolvedModel {
    let found = match id {
        Some(i) => entry_from(catalog, i as int, 0),
        None => None,
    };
    match found {
        Some(k) => ResolvedModel {
            sys_autostart: id,
            name: catalog[k].name@,
            frame_type: catalog[k].frame_type@,
            category: catalog[k].category_label@,
            dynamics_compatible: flies_as_quad(catalog[k].category),
        },
        None => ResolvedModel {
            sys_autostart: id,
            name: "Unknown airframe"@,
            frame_type: ""@,
            category: "Other"@,
            dynamics_compatible: false,
        },
    }
}

fn find_entry(catalog: &Vec<Airframe>, id: i64) -> (r: Option<usize>)
    ensures
        (match r {
            Some(k) => Some(k as int),
            None => None,
        }) == entry_from(catalog@, id as int, 0),
        r is Some ==> r->0 < catalog@.len(),
{
    let mut i: usize = 0;
    while i < catalog.len()
        invariant
            i <= catalog@.len(),
            entry_from(catalog@, id as int, 0) == entry_from(catalog@, id as int, i as int),
        decreases catalog@.len() - i,
    {
        if catalog[i].id as i64 == id {
            return Some(i);
        }
        i = i + 1;
    }
    None
}

/// Whether the catalog has an airframe.
pub fn is_known_airframe(catalog: &Vec<Airframe>, id: u32) -> (r: bool)
    ensures
        r == (entry_from(catalog@, id as int, 0) is Some),
{
    find_entry(catalog, id as i64).is_some()
}

/// The parameter that tells the airframe, where there is a cache and it has
/// been seen.
pub open spec fn autostart(store: Option<StoreModel>) -> Option<i32> {
    match store {
        Some(s) => i32_of(s, "SYS_AUTOSTART"@),
        None => None,
    }
}

pub open spec fn opt_store(store: Option<&ParamStore>) -> Option<StoreModel> {
    match store {
        Some(s) => Some(s@),
        None => None,
    }
}

pub open spec fn opt_wf(store: Option<&ParamStore>) -> bool {
    match store {
        Some(s) => s.wf(),
        None => true,
    }
}

/// Resolve the airframe a vehicle runs.
pub fn resolve_airframe(store: Option<&ParamStore>, catalog: &Vec<Airframe>) -> (r:
    ResolvedAirframe)
    requires
        opt_wf(store),
    ensures
        r@ == resolved(autostart(opt_store(store)), catalog@),
{
    let id: Option<i32> = match store {
        Some(s) => s.get_i32("SYS_AUTOSTART"),
        None => None,
    };
    let found: Option<usize> = match id {
        Some(i) => find_entry(catalog, i as i64),
        None => None,
    };
    match found {
        Some(k) => {
            let a = &catalog[k];
            ResolvedAirframe {
                sys_autostart: id,
                name: a.name.clone(),
                frame_type: a.frame_type.clone(),
                category: a.category_label.clone(),
                dynamics_compatible: matches!(
                    a.category,
                    AirframeCategory::Copter | AirframeCategory::Simulator
                ),
            }
        },
        None => ResolvedAirframe {
            sys_autostart: id,
            name: String::from_str("Unknown airframe"),
            frame_type: String::from_str(""),
            category: String::from_str("Other"),
            dynamics_compatible: false,
        },
    }
}

/// Which sensors are calibrated; `None` where the parameter was not seen.
#[derive(Debug, Clone, Copy, PartialEq, Eq, Structural)]
pub struct Calibration {
    pub accel: Option<bool>,
    pub gyro: Option<bool>,
    pub mag0: Option<bool>,
    pub mag1: Option<bool>,
    pub mag2: Option<bool>,
    pub level_horizon: Option<bool>,
}

/// A nonzero device id means calibrated.
pub open spec fn calibrated(s: StoreModel, id: Seq<char>) -> Option<bool> {
    match i32_of(s, id) {
        Some(v) => Some(v != 0),
        None => None,
    }
}

pub open spec fn calibration_of(s: StoreModel) -> Calibration {
    Calibration {
        accel: calibrated(s, "CAL_ACC0_ID"@),
        gyro: calibrated(s, "CAL_GYRO0_ID"@),
        mag0: calibrated(s, "CAL_MAG0_ID"@),
        mag1: calibrated(s, "CAL_MAG1_ID"@),
        mag2: calibrated(s, "CAL_MAG2_ID"@),
        level_horizon: calibrated(s, "CAL_LEVEL"@),
    }
}

fn cal_flag(store: &ParamStore, id: &str) -> (r: Option<bool>)
    requires
        store.wf(),
    ensures
        r == calibrated(store@, id@),
{
    match store.get_i32(id) {
        Some(v) => Some(v != 0),
        None => None,
    }
}

fn calibration(store: &ParamStore) -> (r: Calibration)
    requires
        store.wf(),
    ensures
        r == calibration_of(store@),
{
    Calibration {
        accel: cal_flag(store, "CAL_ACC0_ID"),
        gyro: cal_flag(store, "CAL_GYRO0_ID"),
        mag0: cal_flag(store, "CAL_MAG0_ID"),
        mag1: cal_flag(store, "CAL_MAG1_ID"),
        mag2: cal_flag(store, "CAL_MAG2_ID"),
        level_horizon: cal_flag(store, "CAL_LEVEL"),
    }
}

/// A parameter of a setup section; `None` where it was not seen.
#[derive(Debug, Clone)]
pub struct SetupParam {
    pub id: String,
    pub value: Option<ParamVal>,
}

/// A section's parameters.
pub open spec fn params_view(s: Seq<SetupParam>) -> Seq<(Seq<char>, Option<ParamVal>)> {
    Seq::new(s.len(), |i: int| (s[i].id@, s[i].value))
}

/// Parameters in order, each with its value in its own type.
pub open spec fn read_params(s: StoreModel, ids: Seq<Seq<char>>) -> Seq<
    (Seq<char>, Option<ParamVal>),
> {
    Seq::new(ids.len(), |i: int| (ids[i], typed_of(s, ids[i])))
}

/// The parameters of the power section.
pub open spec fn power_ids() -> Seq<Seq<char>> {
    seq![
        "BAT1_N_CELLS"@,
        "BAT1_V_EMPTY"@,
        "BAT1_V_CHARGED"@,
        "BAT_LOW_THR"@,
        "BAT_CRIT_THR"@,
        "BAT_EMERGEN_THR"@,
        "BAT1_R_INTERNAL"@,
    ]
}

/// The parameters of the safety section.
pub open spec fn safety_ids() -> Seq<Seq<char>> {
    seq![
        "NAV_RCL_ACT"@,
        "NAV_DLL_ACT"@,
        "COM_LOW_BAT_ACT"@,
        "COM_OBL_RC_ACT"@,
        "GF_ACTION"@,
        "GF_MAX_HOR_DIST"@,
        "GF_MAX_VER_DIST"@,
        "RTL_RETURN_ALT"@,
    ]
}

fn push_param(list: &mut Vec<SetupParam>, store: &ParamStore, id: &str)
    requires
        store.wf(),
    ensures
        params_view(final(list)@) == params_view(old(list)@).push((id@, typed_of(store@, id@))),
{
    list.push(SetupParam { id: String::from_str(id), value: store.typed(id) });
    assert(params_view(list@) =~= params_view(old(list)@).push((id@, typed_of(store@, id@))));
}

fn power(store: &ParamStore) -> (r: Vec<SetupParam>)
    requires
        store.wf(),
    ensures
        params_view(r@) == read_params(store@, power_ids()),
{
    let mut r: Vec<SetupParam> = Vec::new();
    push_param(&mut r, store, "BAT1_N_CELLS");
    push_param(&mut r, store, "BAT1_V_EMPTY");
    push_param(&mut r, store, "BAT1_V_CHARGED");
    push_param(&mut r, store, "BAT_LOW_THR");
    push_param(&mut r, store, "BAT_CRIT_THR");
    push_param(&mut r, store, "BAT_EMERGEN_THR");
    push_param(&mut r, store, "BAT1_R_INTERNAL");
    assert(params_view(r@) =~= read_params(store@, power_ids()));
    r
}

fn safety(store: &ParamStore) -> (r: Vec<SetupParam>)
    requires
        store.wf(),
    ensures
        params_view(r@) == read_params(store@, safety_ids()),
{
    let mut r: Vec<SetupParam> = Vec::new();
    push_param(&mut r, store, "NAV_RCL_ACT");
    push_param(&mut r, store, "NAV_DLL_ACT");
    push_param(&mut r, store, "COM_LOW_BAT_ACT");
    push_param(&mut r, store, "COM_OBL_RC_ACT");
    push_param(&mut r, store, "GF_ACTION");
    push_param(&mut r, store, "GF_MAX_HOR_DIST");
    push_param(&mut r, store, "GF_MAX_VER_DIST");
    push_param(&mut r, store, "RTL_RETURN_ALT");
    assert(params_view(r@) =~= read_params(store@, safety_ids()));
    r
}

/// What the parameter cache tells of a vehicle's setup.
#[derive(Debug, Clone)]
pub struct SetupParams {
    pub total: u16,
    pub received: usize,
    pub state: ParamDownloadState,
    pub calibration: Calibration,
    pub power: Vec<SetupParam>,
    pub safety: Vec<SetupParam>,
}

#[verifier::ext_equal]
pub struct SetupParamsModel {
    pub total: u16,
    pub received: nat,
    pub state: ParamDownloadState,
    pub calibration: Calibration,
    pub power: Seq<(Seq<char>, Option<ParamVal>)>,
    pub safety: Seq<(Seq<char>, Option<ParamVal>)>,
}

impl View for SetupParams {
    type V = SetupParamsModel;

    open spec fn view(&self) -> SetupParamsModel {
        SetupParamsModel {
            total: self.total,
            received: self.received as nat,
            state: self.state,
            calibration: self.calibration,
            power: params_view(self.power@),
            safety: params_view(self.safety@),
        }
    }
}

pub open spec fn setup_params_of(s: StoreModel) -> SetupParamsModel {
    SetupParamsModel {
        total: s.total,
        received: s.count,
        state: s.state,
        calibration: calibration_of(s),
        power: read_params(s, power_ids()),
        safety: read_params(s, safety_ids()),
    }
}

/// A vehicle's setup at a glance.
#[derive(Debug, Clone)]
pub struct SetupSummary {
    pub index: u8,
    pub sysid: u8,
    pub compid: u16,
    pub fsm: FsmState,
    pub mode: String,
    pub mode_word: u32,
    pub armed: bool,
    pub battery_pct: i8,
    pub voltage_mv: Option<u16>,
    /// Whether a restart waits to be carried out.
    pub restart_pending: bool,
    pub airframe: ResolvedAirframe,
    /// `None` without a link.
    pub params: Option<SetupParams>,
}

#[verifier::ext_equal]
pub struct SummaryModel {
    pub index: u8,
    pub sysid: u8,
    pub compid: u16,
    pub fsm: FsmState,
    pub mode: Seq<char>,
    pub mode_word: u32,
    pub armed: bool,
    pub battery_pct: i8,
    pub voltage_mv: Option<u16>,
    pub restart_pending: bool,
    pub airframe: ResolvedModel,
    pub params: Option<SetupParamsModel>,
}

impl View for SetupSummary {
    type V = SummaryModel;

    open spec fn view(&self) -> SummaryModel {
        SummaryModel {
            index: self.index,
            sysid: self.sysid,
            compid: self.compid,
            fsm: self.fsm,
            mode: self.mode@,
            mode_word: self.mode_word,
            armed: self.armed,
            battery_pct: self.battery_pct,
            voltage_mv: self.voltage_mv,
            restart_pending: self.restart_pending,
            airframe: self.airframe@,
            params: match self.params {
                Some(p) => Some(p@),
                None => None,
            },
        }
    }
}

/// The setup of a vehicle the fleet has; without a link there is no cache.
pub open spec fn summary_of(
    m: SupModel,
    index: u8,
    store: Option<StoreModel>,
    catalog: Seq<Airframe>,
) -> SummaryModel {
    let v = m.vehicles[index as int];
    SummaryModel {
        index,
        sysid: v.sysid,
        compid: v.compid,
        fsm: m.states[index as int],
        mode: word_name(v.mode_word),
        mode_word: v.mode_word,
        armed: v.armed,
        battery_pct: v.battery_pct,
        voltage_mv: v.voltage_mv,
        restart_pending: index < m.fleet.restart_requests.len()
            && m.fleet.restart_requests[index as int],
        airframe: resolved(autostart(store), catalog),
        params: match store {
            Some(s) => Some(setup_params_of(s)),
            None => None,
        },
    }
}

/// Put a vehicle's setup together; `None` for a vehicle the fleet does not
/// have.
pub fn build_setup_summary(
    sup: &Supervisor,
    index: u8,
    store: Option<&ParamStore>,
    catalog: &Vec<Airframe>,
) -> (r: Option<SetupSummary>)
    requires
        sup.wf(),
        opt_wf(store),
    ensures
        (match r {
            Some(s) => Some(s@),
            None => None,
        }) == (if index < sup@.fleet.count {
            Some(summary_of(sup@, index, opt_store(store), catalog@))
        } else {
            None
        }),
{
    if index >= sup.fleet().count() {
        return None;
    }
    let fsm = match sup.registry().fsm(index) {
        Some(f) => f,
        None => FsmState::Init,
    };
    match sup.registry().snapshot(index) {
        None => None,
        Some(v) => {
            let params = match store {
                Some(s) => Some(
                    SetupParams {
                        total: s.total,
                        received: s.params.len(),
                        state: s.state,
                        calibration: calibration(s),
                        power: power(s),
                        safety: safety(s),
                    },
                ),
                None => None,
            };
            let r = SetupSummary {
                index,
                sysid: v.sysid,
                compid: v.compid,
                fsm,
                mode: String::from_str(mode_name(v.mode_word)),
                mode_word: v.mode_word,
                armed: v.armed,
                battery_pct: v.battery_pct,
                voltage_mv: v.voltage_mv,
                restart_pending: sup.fleet().restart_pending(index),
                airframe: resolve_airframe(store, catalog),
                params,
            };
            assert(r@ =~= summary_of(sup@, index, opt_store(store), catalog@));
            Some(r)
        },
    }
}

/// A row of the parameter list.
#[derive(Debug, Clone)]
pub struct ParamRow {
    pub id: String,
    pub value: ParamVal,
    /// Raw bits of the value field.
    pub raw: u32,
    pub param_type: u8,
    pub kind: &'static str,
    pub index: u16,
}

#[verifier::ext_equal]
pub struct RowModel {
    pub id: Seq<char>,
    pub value: ParamVal,
    pub raw: u32,
    pub param_type: u8,
    pub kind: Seq<char>,
    pub index: u16,
}

impl View for ParamRow {
    type V = RowModel;

    open spec fn view(&self) -> RowModel {
        RowModel {
            id: self.id@,
            value: self.value,
            raw: self.raw,
            param_type: self.param_type,
            kind: self.kind@,
            index: self.index,
        }
    }
}

pub open spec fn kind_text(v: ParamVal) -> Seq<char> {
    match v {
        ParamVal::Int32(_) => "int32"@,
        ParamVal::Real32(_) => "real32"@,
        ParamVal::Other(_) => "other"@,
    }
}

pub open spec fn row_of(p: crate::params::NamedParam) -> RowModel {
    let typed = typed_reading(p.entry.value, p.entry.param_type);
    RowModel {
        id: p.id@,
        value: typed,
        raw: p.entry.value,
        param_type: p.entry.param_type,
        kind: kind_text(typed),
        index: p.entry.param_index,
    }
}

pub open spec fn rows_view(s: Seq<ParamRow>) -> Seq<RowModel> {
    Seq::new(s.len(), |i: int| s[i]@)
}

/// Every cached parameter with its value in its own type, ordered by id.
pub fn param_rows(store: &ParamStore) -> (r: Vec<ParamRow>)
    ensures
        rows_view(r@) == Seq::new(store.params@.len(), |i: int| row_of(store.params@[i])),
{
    let mut r: Vec<ParamRow> = Vec::new();
    let mut i: usize = 0;
    while i < store.params.len()
        invariant
            i <= store.params@.len(),
            r@.len() == i,
            forall|k: int| 0 <= k < i ==> (#[trigger] r@[k])@ == row_of(store.params@[k]),
        decreases store.params@.len() - i,
    {
        let p = &store.params[i];
        let value = p.entry.typed_value();
        let kind = match value {
            ParamVal::Int32(_) => "int32",
            ParamVal::Real32(_) => "real32",
            ParamVal::Other(_) => "other",
        };
        r.push(
            ParamRow {
                id: p.id.clone(),
                value,
                raw: p.entry.value,
                param_type: p.entry.param_type,
                kind,
                index: p.entry.param_index,
            },
        );
        i = i + 1;
    }
    assert(rows_view(r@) =~= Seq::new(store.params@.len(), |i: int| row_of(store.params@[i])));
    r
}

/// A category's airframes, as places in the catalog.
#[derive(Debug, Clone)]
pub struct AirframeGroup {
    pub category: AirframeCategory,
    pub label: String,
    pub members: Vec<usize>,
}

/// The places from `i` on that hold a category, in order.
pub open spec fn members_from(catalog: Seq<Airframe>, c: AirframeCategory, i: int) -> Seq<int>
    decreases catalog.len() - i,
{
    if i < 0 || i >= catalog.len() {
        Seq::empty()
    } else if catalog[i].category == c {
        seq![i] + members_from(catalog, c, i + 1)
    } else {
        members_from(catalog, c, i + 1)
    }
}

pub open spec fn places(s: Seq<usize>) -> Seq<int> {
    Seq::new(s.len(), |i: int| s[i] as int)
}

#[verifier::ext_equal]
pub struct GroupModel {
    pub category: AirframeCategory,
    pub label: Seq<char>,
    pub members: Seq<int>,
}

impl View for AirframeGroup {
    type V = GroupModel;

    open spec fn view(&self) -> GroupModel {
        GroupModel {
            category: self.category,
            label: self.label@,
            members: places(self.members@),
        }
    }
}

pub open spec fn groups_view(s: Seq<AirframeGroup>) -> Seq<GroupModel> {
    Seq::new(s.len(), |i: int| s[i]@)
}

/// The groups of the categories from rank `k` on that have members, in order;
/// a group is shown under its first member's label.
pub open spec fn groups_from(catalog: Seq<Airframe>, k: int) -> Seq<GroupModel>
    decreases 8 - k,
{
    if k < 0 || k >= 8 {
        Seq::empty()
    } else {
        let c = CATEGORY_ORDER@[k];
        let members = members_from(catalog, c, 0);
        if members.len() == 0 {
            groups_from(catalog, k + 1)
        } else {
            seq![
                GroupModel { category: c, label: catalog[members[0]].category_label@, members },
            ] + groups_from(catalog, k + 1)
        }
    }
}

proof fn members_are_places(catalog: Seq<Airframe>, c: AirframeCategory, i: int)
    requires
        0 <= i,
    ensures
        forall|k: int|
            0 <= k < members_from(catalog, c, i).len() ==> i <= #[trigger] members_from(
                catalog,
                c,
                i,
            )[k] < catalog.len() && catalog[members_from(catalog, c, i)[k]].category == c,
    decreases catalog.len() - i,
{
    if i < catalog.len() {
        members_are_places(catalog, c, i + 1);
        let rest = members_from(catalog, c, i + 1);
        assert forall|k: int| 0 <= k < members_from(catalog, c, i).len() implies i
            <= #[trigger] members_from(catalog, c, i)[k] < catalog.len()
            && catalog[members_from(catalog, c, i)[k]].category == c by {
            if catalog[i].category == c {
                if k > 0 {
                    assert(members_from(catalog, c, i)[k] == rest[k - 1]);
                }
            } else {
                assert(members_from(catalog, c, i)[k] == rest[k]);
            }
        }
    }
}

fn members_of(catalog: &Vec<Airframe>, c: AirframeCategory) -> (r: Vec<usize>)
    ensures
        places(r@) == members_from(catalog@, c, 0),
{
    let mut r: Vec<usize> = Vec::new();
    let mut i: usize = 0;
    while i < catalog.len()
        invariant
            i <= catalog@.len(),
            members_from(catalog@, c, 0) == places(r@) + members_from(catalog@, c, i as int),
        decreases catalog@.len() - i,
    {
        let ghost before = r@;
        if catalog[i].category == c {
            r.push(i);
            assert(places(r@) =~= places(before) + seq![i as int]);
            assert(places(before) + (seq![i as int] + members_from(catalog@, c, i + 1))
                =~= places(r@) + members_from(catalog@, c, i + 1));
        }
        i = i + 1;
    }
    assert(places(r@) + members_from(catalog@, c, i as int) =~= places(r@));
    r
}

/// Group the catalog by category.
pub fn airframe_groups(catalog: &Vec<Airframe>) -> (r: Vec<AirframeGroup>)
    ensures
        groups_view(r@) == groups_from(catalog@, 0),
{
    let order = CATEGORY_ORDER;
    let mut r: Vec<AirframeGroup> = Vec::new();
    let mut k: usize = 0;
    while k < 8
        invariant
            k <= 8,
            order@ == CATEGORY_ORDER@,
            order@.len() == 8,
            groups_from(catalog@, 0) == groups_view(r@) + groups_from(catalog@, k as int),
        decreases 8 - k,
    {
        let c = order[k];
        let members = members_of(catalog, c);
        proof {
            members_are_places(catalog@, c, 0);
        }
        if members.len() > 0 {
            let ghost before = r@;
            assert(places(members@)[0] == members@[0] as int);
            let label = catalog[members[0]].category_label.clone();
            let g = AirframeGroup { category: c, label, members };
            let ghost gm = g@;
            r.push(g);
            assert(groups_view(r@) =~= groups_view(before).push(gm));
            assert(groups_view(before) + (seq![gm] + groups_from(catalog@, k + 1))
                =~= groups_view(r@) + groups_from(catalog@, k + 1));
        }
        k = k + 1;
    }
    assert(groups_view(r@) + groups_from(catalog@, k as int) =~= groups_view(r@));
    r
}

// Laws.

/// A place that holds a category and stands at or behind `i` is among its
/// members.
proof fn category_is_listed(catalog: Seq<Airframe>, i: int, from: int)
    requires
        0 <= from <= i < catalog.len(),
    ensures
        members_from(catalog, catalog[i].category, from).contains(i),
    decreases i - from,
{
    let c = catalog[i].category;
    let all = members_from(catalog, c, from);
    if from == i {
        assert(all[0] == i);
    } else {
        category_is_listed(catalog, i, from + 1);
        let rest = members_from(catalog, c, from + 1);
        let k = choose|k: int| 0 <= k < rest.len() && rest[k] == i;
        if catalog[from].category == c {
            assert(all[k + 1] == rest[k]);
        } else {
            assert(all[k] == rest[k]);
        }
    }
}

proof fn group_is_offered(catalog: Seq<Airframe>, c: AirframeCategory, from: int) -> (g: int)
    requires
        0 <= from <= c.rank(),
        members_from(catalog, c, 0).len() > 0,
    ensures
        0 <= g < groups_from(catalog, from).len(),
        groups_from(catalog, from)[g].category == c,
        groups_from(catalog, from)[g].members == members_from(catalog, c, 0),
    decreases c.rank() - from,
{
    assert(CATEGORY_ORDER@[c.rank()] == c);
    if from == c.rank() {
        assert(groups_from(catalog, from)[0].category == c);
        0
    } else {
        let g = group_is_offered(catalog, c, from + 1);
        if members_from(catalog, CATEGORY_ORDER@[from], 0).len() == 0 {
            g
        } else {
            assert(groups_from(catalog, from)[g + 1] == groups_from(catalog, from + 1)[g]);
            g + 1
        }
    }
}

/// Every airframe of the catalog is offered, in the group of its category.
pub proof fn every_airframe_is_offered(catalog: Seq<Airframe>, i: int)
    requires
        0 <= i < catalog.len(),
    ensures
        exists|g: int|
            0 <= g < groups_from(catalog, 0).len() && (#[trigger] groups_from(
                catalog,
                0,
            )[g]).category == catalog[i].category && groups_from(catalog, 0)[g].members.contains(i),
{
    category_is_listed(catalog, i, 0);
    let g = group_is_offered(catalog, catalog[i].category, 0);
    assert(groups_from(catalog, 0)[g].members.contains(i));
}

/// A summary shows a vehicle's own state: identity, state, mode by name and
/// word, armed or not, charge, voltage, and whether it is to be restarted. It
/// shows parameters exactly where there is a cache of them.
pub proof fn summary_shows_the_vehicle(
    m: SupModel,
    index: u8,
    store: Option<StoreModel>,
    catalog: Seq<Airframe>,
)
    requires
        index < m.vehicles.len(),
        index < m.states.len(),
        index < m.fleet.restart_requests.len(),
    ensures
        ({
            let r = summary_of(m, index, store, catalog);
            let v = m.vehicles[index as int];
            &&& r.index == index
            &&& r.sysid == v.sysid
            &&& r.compid == v.compid
            &&& r.fsm == m.states[index as int]
            &&& r.mode == word_name(v.mode_word)
            &&& r.mode_word == v.mode_word
            &&& r.armed == v.armed
            &&& r.battery_pct == v.battery_pct
            &&& r.voltage_mv == v.voltage_mv
            &&& r.restart_pending == m.fleet.restart_requests[index as int]
            &&& r.params is Some <==> store is Some
            &&& store is None ==> r.airframe.sys_autostart is None
        }),
{
}

/// What the summary shows of the cache: how many parameters the vehicle has,
/// how many are cached, how the download stands, and which sensors are
/// calibrated: those whose identifier is cached and not zero. Each sensor goes
/// by an identifier of its own.
pub proof fn summary_shows_the_cache(s: StoreModel)
    ensures
        ({
            let p = setup_params_of(s);
            let c = p.calibration;
            &&& p.total == s.total
            &&& p.received == s.count
            &&& p.state == s.state
            &&& c.accel == calibrated(s, "CAL_ACC0_ID"@)
            &&& c.gyro == calibrated(s, "CAL_GYRO0_ID"@)
            &&& c.mag0 == calibrated(s, "CAL_MAG0_ID"@)
            &&& c.mag1 == calibrated(s, "CAL_MAG1_ID"@)
            &&& c.mag2 == calibrated(s, "CAL_MAG2_ID"@)
            &&& c.level_horizon == calibrated(s, "CAL_LEVEL"@)
            &&& p.power.len() == 7
            &&& p.safety.len() == 8
            &&& forall|i: int|
                0 <= i < p.power.len() ==> (#[trigger] p.power[i]).1 == typed_of(s, p.power[i].0)
            &&& forall|i: int|
                0 <= i < p.safety.len() ==> (#[trigger] p.safety[i]).1 == typed_of(s, p.safety[i].0)
            &&& p.power[0].0 == "BAT1_N_CELLS"@
            &&& p.power[1].0 == "BAT1_V_EMPTY"@
            &&& p.power[2].0 == "BAT1_V_CHARGED"@
            &&& p.power[3].0 == "BAT_LOW_THR"@
            &&& p.power[4].0 == "BAT_CRIT_THR"@
            &&& p.power[5].0 == "BAT_EMERGEN_THR"@
            &&& p.power[6].0 == "BAT1_R_INTERNAL"@
            &&& p.safety[0].0 == "NAV_RCL_ACT"@
            &&& p.safety[1].0 == "NAV_DLL_ACT"@
            &&& p.safety[2].0 == "COM_LOW_BAT_ACT"@
            &&& p.safety[3].0 == "COM_OBL_RC_ACT"@
            &&& p.safety[4].0 == "GF_ACTION"@
            &&& p.safety[5].0 == "GF_MAX_HOR_DIST"@
            &&& p.safety[6].0 == "GF_MAX_VER_DIST"@
            &&& p.safety[7].0 == "RTL_RETURN_ALT"@
        }),
{
}

/// A sensor counts as calibrated where its cached identifier is not zero, as
/// not calibrated where it is, and neither where none is cached.
pub proof fn nonzero_identifier_means_calibrated(s: StoreModel, id: Seq<char>)
    ensures
        !s.params.contains_key(id) ==> calibrated(s, id) is None,
        s.params.contains_key(id) && s.params[id].param_type == 6 ==> calibrated(s, id) == Some(
            s.params[id].value != 0,
        ),
{
    if s.params.contains_key(id) {
        let v = s.params[id].value;
        assert((v as i32 != 0i32) == (v != 0u32)) by (bit_vector);
    }
}

/// A vehicle's airframe is the first entry of the catalog under its number;
/// only a copter or a simulator frame flies like the simulated quadrotor. A
/// number the catalog does not have, or none at all, is an unknown airframe.
pub proof fn airframe_is_looked_up(id: Option<i32>, catalog: Seq<Airframe>, k: int)
    ensures
        ({
            let r = resolved(id, catalog);
            let unknown = r.name == "Unknown airframe"@ && r.frame_type == ""@ && r.category
                == "Other"@ && !r.dynamics_compatible;
            &&& r.sys_autostart == id
            &&& id is None ==> unknown
            &&& id is Some && (forall|j: int|
                0 <= j < catalog.len() ==> (#[trigger] catalog[j]).id != id->0) ==> unknown
            &&& id is Some && 0 <= k < catalog.len() && catalog[k].id == id->0 && (forall|j: int|
                0 <= j < k ==> (#[trigger] catalog[j]).id != id->0) ==> r.name == catalog[k].name@
                && r.frame_type == catalog[k].frame_type@ && r.category
                == catalog[k].category_label@ && r.dynamics_compatible == (catalog[k].category
                is Copter || catalog[k].category is Simulator)
        }),
{
    if let Some(n) = id {
        first_entry_is_found(catalog, n as int, 0);
        if 0 <= k < catalog.len() && catalog[k].id == n && (forall|j: int|
            0 <= j < k ==> (#[trigger] catalog[j]).id != n) {
            let f = entry_from(catalog, n as int, 0);
            assert(f == Some(k));
        }
    }
}

proof fn first_entry_is_found(catalog: Seq<Airframe>, id: int, from: int)
    requires
        0 <= from <= catalog.len(),
    ensures
        match entry_from(catalog, id, from) {
            Some(k) => from <= k < catalog.len() && catalog[k].id == id && forall|j: int|
                from <= j < k ==> (#[trigger] catalog[j]).id != id,
            None => forall|j: int| from <= j < catalog.len() ==> (#[trigger] catalog[j]).id != id,
        },
    decreases catalog.len() - from,
{
    if from < catalog.len() && catalog[from].id != id {
        first_entry_is_found(catalog, id, from + 1);
    }
}

/// A row of the parameter table shows a cached parameter's name, value, bits,
/// type and index, and the kind of its value in words.
pub proof fn row_shows_the_parameter(p: crate::params::NamedParam)
    ensures
        ({
            let r = row_of(p);
            &&& r.id == p.id@
            &&& r.raw == p.entry.value
            &&& r.param_type == p.entry.param_type
            &&& r.index == p.entry.param_index
            &&& p.entry.param_type == 6 ==> r.kind == "int32"@ && r.value is Int32
            &&& p.entry.param_type == 9 ==> r.kind == "real32"@ && r.value == ParamVal::Real32(
                p.entry.value,
            )
            &&& p.entry.param_type != 6 && p.entry.param_type != 9 ==> r.kind == "other"@ && r.value
                == ParamVal::Other(p.entry.value)
        }),
{
}

/// The members of a category are the places of its entries, in order.
pub proof fn members_are_in_catalog_order(catalog: Seq<Airframe>, c: AirframeCategory, from: int)
    requires
        0 <= from <= catalog.len(),
    ensures
        ({
            let s = members_from(catalog, c, from);
            &&& forall|a: int|
                0 <= a < s.len() ==> from <= #[trigger] s[a] < catalog.len()
                    && catalog[s[a]].category == c
            &&& forall|a: int, b: int| 0 <= a < b < s.len() ==> #[trigger] s[a] < #[trigger] s[b]
        }),
    decreases catalog.len() - from,
{
    if from < catalog.len() {
        members_are_in_catalog_order(catalog, c, from + 1);
        let rest = members_from(catalog, c, from + 1);
        let s = members_from(catalog, c, from);
        if catalog[from].category == c {
            assert forall|a: int| 0 <= a < s.len() implies from <= #[trigger] s[a] < catalog.len()
                && catalog[s[a]].category == c by {
                if a > 0 {
                    assert(s[a] == rest[a - 1]);
                }
            }
            assert forall|a: int, b: int| 0 <= a < b < s.len() implies #[trigger] s[a]
                < #[trigger] s[b] by {
                assert(s[b] == rest[b - 1]);
                if a > 0 {
                    assert(s[a] == rest[a - 1]);
                }
            }
        }
    }
}

/// The airframe's number is the parameter SYS_AUTOSTART, where it is cached.
pub proof fn airframe_number_is_a_parameter(s: StoreModel)
    ensures
        autostart(None) is None,
        autostart(Some(s)) == i32_of(s, "SYS_AUTOSTART"@),
        !s.params.contains_key("SYS_AUTOSTART"@) ==> autostart(Some(s)) is None,
{
}

} // verus!
