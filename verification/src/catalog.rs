//! The mission catalog's answers: what a request does to the store, and the
//! status, code and message of one that fails.

use vstd::prelude::*;
use crate::mission::MissionFile;
#[allow(unused_imports)]
use crate::mission::MissionFileModel;
use crate::store::{PresetFile, PresetParam, Store, StoreError};
#[allow(unused_imports)]
use crate::store::{
    mission_deleted, mission_put, mission_read, mission_rolled_back, mission_updated,
    mission_version, new_mission, params_of, preset_read, preset_removed, preset_saved,
    store_error_text, PresetModel, StoreErrorModel, StoreModel,
};
use crate::text::{joined, push_decimal, starts_text, trim_front_text};
#[allow(unused_imports)]
use crate::text::{decimal, opt_view, starts, trimmed_front};
use crate::validation::{validate, MissionFacts, ValidationResult};
#[allow(unused_imports)]
use crate::validation::{errors_of, facts_fit, mission_errors};
use crate::version_check::VersionCheckResult;

verus! {

/// A request that failed.
#[derive(Debug, Clone, PartialEq, Eq)]
pub struct Failure {
    /// The HTTP status.
    pub status: u16,
    pub code: String,
    pub message: String,
}

#[verifier::ext_equal]
pub struct FailureModel {
    pub status: u16,
    pub code: Seq<char>,
    pub message: Seq<char>,
}

impl View for Failure {
    type V = FailureModel;

    open spec fn view(&self) -> FailureModel {
        FailureModel { status: self.status, code: self.code@, message: self.message@ }
    }
}

fn failed(status: u16, code: &str, message: String) -> (r: Failure)
    ensures
        r@ == (FailureModel { status, code: code@, message: message@ }),
{
    Failure { status, code: String::from_str(code), message }
}

/// The fleet's catalog server, where the environment names none.
pub const CATALOG_URL: &'static str = "http://127.0.0.1:8300";

/// The catalog's address: as the environment says, else this host's.
pub fn default_catalog_url(env: Option<&str>) -> (r: String)
    ensures
        r@ == (match opt_view(env) {
            Some(u) => u,
            None => CATALOG_URL@,
        }),
{
    match env {
        Some(u) => String::from_str(u),
        None => String::from_str(CATALOG_URL),
    }
}

/// Whether a body is read as JSON; else it is read as TOML.
pub fn is_json_body(body: &str) -> (r: bool)
    ensures
        r == starts(trimmed_front(body@), "{"@),
{
    let t = trim_front_text(body);
    starts_text(t.as_str(), "{")
}

// Missions.

pub open spec fn unparsable(e: Seq<char>) -> FailureModel {
    FailureModel { status: 400, code: "PARSE_ERROR"@, message: e }
}

pub open spec fn absent(e: StoreErrorModel) -> FailureModel {
    FailureModel { status: 404, code: "NOT_FOUND"@, message: store_error_text(e) }
}

fn not_found(e: &StoreError) -> (r: Failure)
    ensures
        r@ == absent(e@),
{
    failed(404, "NOT_FOUND", e.text())
}

pub open spec fn parsed_result(r: Result<MissionFile, String>) -> Result<
    MissionFileModel,
    Seq<char>,
> {
    match r {
        Ok(f) => Ok(f@),
        Err(e) => Err(e@),
    }
}

pub open spec fn mission_answer(r: Result<MissionFile, Failure>) -> Result<
    MissionFileModel,
    FailureModel,
> {
    match r {
        Ok(f) => Ok(f@),
        Err(e) => Err(e@),
    }
}

/// A store's result as an answer: whatever goes wrong, the mission is told to
/// be missing.
pub open spec fn found_or_absent(r: Result<MissionFileModel, StoreErrorModel>) -> Result<
    MissionFileModel,
    FailureModel,
> {
    match r {
        Ok(f) => Ok(f),
        Err(e) => Err(absent(e)),
    }
}

/// A body that parses makes a new mission.
pub open spec fn created(
    m: StoreModel,
    parsed: Result<MissionFileModel, Seq<char>>,
    id: Seq<char>,
    now: Seq<char>,
) -> (StoreModel, Result<MissionFileModel, FailureModel>) {
    match parsed {
        Err(e) => (m, Err(unparsable(e))),
        Ok(f) => (mission_put(m, new_mission(f, id, now)), Ok(new_mission(f, id, now))),
    }
}

/// Create a mission of what a body was read as.
pub fn create_mission(
    store: &mut Store,
    parsed: Result<MissionFile, String>,
    id: &str,
    now: &str,
) -> (r: Result<MissionFile, Failure>)
    ensures
        (final(store)@, mission_answer(r)) == created(old(store)@, parsed_result(parsed), id@, now@),
{
    match parsed {
        Err(e) => Err(failed(400, "PARSE_ERROR", e)),
        Ok(f) => Ok(store.create(&f, id, now)),
    }
}

/// A mission's latest version.
pub fn get_mission(store: &Store, id: &str) -> (r: Result<MissionFile, Failure>)
    ensures
        mission_answer(r) == found_or_absent(mission_read(store@, id@)),
{
    match store.get(id) {
        Ok(f) => Ok(f),
        Err(e) => Err(not_found(&e)),
    }
}

/// One version of a mission.
pub fn get_mission_version(store: &Store, id: &str, version: u32) -> (r: Result<
    MissionFile,
    Failure,
>)
    ensures
        mission_answer(r) == found_or_absent(mission_version(store@, id@, version)),
{
    match store.get_version(id, version) {
        Ok(f) => Ok(f),
        Err(e) => Err(not_found(&e)),
    }
}

pub open spec fn changed(
    m: StoreModel,
    parsed: Result<MissionFileModel, Seq<char>>,
    id: Seq<char>,
    now: Seq<char>,
) -> (StoreModel, Result<MissionFileModel, FailureModel>) {
    match parsed {
        Err(e) => (m, Err(unparsable(e))),
        Ok(f) => {
            let (s, r) = mission_updated(m, id, f, now);
            (s, found_or_absent(r))
        },
    }
}

/// Change a mission to what a body was read as.
pub fn update_mission(
    store: &mut Store,
    id: &str,
    parsed: Result<MissionFile, String>,
    now: &str,
) -> (r: Result<MissionFile, Failure>)
    ensures
        (final(store)@, mission_answer(r)) == changed(old(store)@, parsed_result(parsed), id@, now@),
{
    match parsed {
        Err(e) => Err(failed(400, "PARSE_ERROR", e)),
        Ok(f) => match store.update(id, &f, now) {
            Ok(f) => Ok(f),
            Err(e) => Err(not_found(&e)),
        },
    }
}

pub open spec fn done_answer(r: Result<(), Failure>) -> Result<(), FailureModel> {
    match r {
        Ok(_) => Ok(()),
        Err(e) => Err(e@),
    }
}

/// Delete a mission.
pub fn delete_mission(store: &mut Store, id: &str) -> (r: Result<(), Failure>)
    ensures
        final(store)@ == mission_deleted(old(store)@, id@).0,
        done_answer(r) == (match mission_deleted(old(store)@, id@).1 {
            Ok(_) => Ok(()),
            Err(e) => Err(absent(e)),
        }),
{
    match store.delete(id) {
        Ok(_) => Ok(()),
        Err(e) => Err(not_found(&e)),
    }
}

/// Make an earlier version the latest again; which one must be told.
pub fn rollback_mission(store: &mut Store, id: &str, to_version: Option<u32>, now: &str) -> (r:
    Result<MissionFile, Failure>)
    ensures
        final(store)@ == (match to_version {
            Some(v) => mission_rolled_back(old(store)@, id@, v, now@).0,
            None => old(store)@,
        }),
        mission_answer(r) == (match to_version {
            Some(v) => found_or_absent(mission_rolled_back(old(store)@, id@, v, now@).1),
            None => Err(
                FailureModel {
                    status: 400,
                    code: "MISSING_PARAM"@,
                    message: "query param 'to_version' is required"@,
                },
            ),
        }),
{
    match to_version {
        None => Err(
            failed(
                400,
                "MISSING_PARAM",
                String::from_str("query param 'to_version' is required"),
            ),
        ),
        Some(v) => match store.rollback(id, v, now) {
            Ok(f) => Ok(f),
            Err(e) => Err(not_found(&e)),
        },
    }
}

/// A validation's HTTP status.
pub fn validation_status(r: &ValidationResult) -> (s: u16)
    ensures
        s == (if r.valid {
            200u16
        } else {
            422u16
        }),
{
    if r.valid {
        200
    } else {
        422
    }
}

// Uploads to a vehicle.

/// Why a version check holds an upload back.
pub open spec fn version_failure_of(vehicle: u8, v: VersionCheckResult) -> Option<FailureModel> {
    match v {
        VersionCheckResult::Match { .. } => None,
        VersionCheckResult::Mismatch { reported_version, required_version, warning_only } =>
        if warning_only {
            None
        } else {
            Some(
                FailureModel {
                    status: 426,
                    code: "PX4_VERSION_MISMATCH"@,
                    message: "vehicle "@ + decimal(vehicle as nat) + " reports PX4 "@
                        + reported_version@ + "; RustSim GCS v1 requires "@ + required_version@,
                },
            )
        },
        VersionCheckResult::Unavailable { timeout_s } => Some(
            FailureModel {
                status: 503,
                code: "PX4_VERSION_UNAVAILABLE"@,
                message: "vehicle "@ + decimal(vehicle as nat)
                    + " PX4 version not available after "@ + decimal(timeout_s as nat) + "s"@,
            },
        ),
    }
}

fn version_failure(vehicle: u8, v: &VersionCheckResult) -> (r: Option<Failure>)
    ensures
        (match r {
            Some(f) => Some(f@),
            None => None,
        }) == version_failure_of(vehicle, *v),
{
    match v {
        VersionCheckResult::Match { .. } => None,
        VersionCheckResult::Mismatch { reported_version, required_version, warning_only } => {
            if *warning_only {
                return None;
            }
            let mut s = String::from_str("vehicle ");
            push_decimal(&mut s, vehicle as u64);
            s.append(" reports PX4 ");
            s.append(reported_version.as_str());
            s.append("; RustSim GCS v1 requires ");
            s.append(required_version.as_str());
            Some(failed(426, "PX4_VERSION_MISMATCH", s))
        },
        VersionCheckResult::Unavailable { timeout_s } => {
            let mut s = String::from_str("vehicle ");
            push_decimal(&mut s, vehicle as u64);
            s.append(" PX4 version not available after ");
            push_decimal(&mut s, *timeout_s);
            s.append("s");
            Some(failed(503, "PX4_VERSION_UNAVAILABLE", s))
        },
    }
}

/// The mission an upload names.
pub fn upload_mission(store: &Store, mission_id: &str) -> (r: Result<MissionFile, Failure>)
    ensures
        mission_answer(r) == (match mission_read(store@, mission_id@) {
            Ok(f) => Ok(f),
            Err(e) => Err(
                FailureModel {
                    status: 404,
                    code: "MISSION_NOT_FOUND"@,
                    message: store_error_text(e),
                },
            ),
        }),
{
    match store.get(mission_id) {
        Ok(f) => Ok(f),
        Err(e) => Err(failed(404, "MISSION_NOT_FOUND", e.text())),
    }
}

/// Whether an upload may go on to the version check: only a valid mission may.
/// The second part of a refusal tells what is wrong with it.
pub fn check_mission(m: &MissionFile, facts: &MissionFacts) -> (r: Result<
    (),
    (Failure, ValidationResult),
>)
    requires
        facts_fit(*m, *facts),
    ensures
        r is Ok <==> mission_errors(*m, *facts).len() == 0,
        match r {
            Ok(_) => true,
            Err((f, v)) => f@ == (FailureModel {
                status: 422,
                code: "VALIDATION_FAILED"@,
                message: "mission failed validation; cannot upload"@,
            }) && !v.valid && errors_of(v.errors@) == mission_errors(*m, *facts),
        },
{
    let v = validate(m, facts);
    if v.valid {
        Ok(())
    } else {
        Err(
            (
                failed(
                    422,
                    "VALIDATION_FAILED",
                    String::from_str("mission failed validation; cannot upload"),
                ),
                v,
            ),
        )
    }
}

/// Whether an upload may go on after the version check.
pub fn check_version(vehicle: u8, v: &VersionCheckResult) -> (r: Result<(), Failure>)
    ensures
        done_answer(r) == (match version_failure_of(vehicle, *v) {
            Some(f) => Err(f),
            None => Ok(()),
        }),
        r is Ok <==> !v.blocks(),
{
    match version_failure(vehicle, v) {
        Some(f) => Err(f),
        None => Ok(()),
    }
}

// Presets.

/// Why a preset is not saved.
pub open spec fn save_failure(e: StoreErrorModel) -> FailureModel {
    match e {
        StoreErrorModel::InvalidId(m) => FailureModel {
            status: 422,
            code: "INVALID_NAME"@,
            message: m,
        },
        _ => FailureModel { status: 500, code: "STORE_ERROR"@, message: store_error_text(e) },
    }
}

/// Why a preset is not loaded or deleted.
pub open spec fn preset_failure(e: StoreErrorModel, name: Seq<char>, vehicle: u8) -> FailureModel {
    match e {
        StoreErrorModel::NotFound(_) => FailureModel {
            status: 404,
            code: "PRESET_NOT_FOUND"@,
            message: "param preset '"@ + name + "' not found for vehicle "@ + decimal(
                vehicle as nat,
            ),
        },
        _ => save_failure(e),
    }
}

fn not_saved(e: StoreError) -> (r: Failure)
    ensures
        r@ == save_failure(e@),
{
    match e {
        StoreError::InvalidId(m) => failed(422, "INVALID_NAME", m),
        other => {
            let t = other.text();
            failed(500, "STORE_ERROR", t)
        },
    }
}

fn not_loaded(e: StoreError, name: &str, vehicle: u8) -> (r: Failure)
    ensures
        r@ == preset_failure(e@, name@, vehicle),
{
    match e {
        StoreError::NotFound(_) => {
            let mut s = joined("param preset '", name);
            s.append("' not found for vehicle ");
            push_decimal(&mut s, vehicle as u64);
            failed(404, "PRESET_NOT_FOUND", s)
        },
        other => not_saved(other),
    }
}

pub open spec fn preset_answer(r: Result<PresetFile, Failure>) -> Result<
    PresetModel,
    FailureModel,
> {
    match r {
        Ok(f) => Ok(f@),
        Err(e) => Err(e@),
    }
}

/// Save a preset of a vehicle.
pub fn save_param_preset(
    store: &mut Store,
    vehicle: u8,
    name: &str,
    params: &Vec<PresetParam>,
    now: &str,
) -> (r: Result<PresetFile, Failure>)
    ensures
        final(store)@ == preset_saved(old(store)@, vehicle, name@, params_of(params@), now@).0,
        preset_answer(r) == (match preset_saved(
            old(store)@,
            vehicle,
            name@,
            params_of(params@),
            now@,
        ).1 {
            Ok(p) => Ok(p),
            Err(e) => Err(save_failure(e)),
        }),
{
    match store.save_preset(vehicle, name, params, now) {
        Ok(p) => Ok(p),
        Err(e) => Err(not_saved(e)),
    }
}

/// Load a preset of a vehicle.
pub fn load_param_preset(store: &Store, vehicle: u8, name: &str) -> (r: Result<
    PresetFile,
    Failure,
>)
    ensures
        preset_answer(r) == (match preset_read(store@, vehicle, name@) {
            Ok(p) => Ok(p),
            Err(e) => Err(preset_failure(e, name@, vehicle)),
        }),
{
    match store.load_preset(vehicle, name) {
        Ok(p) => Ok(p),
        Err(e) => Err(not_loaded(e, name, vehicle)),
    }
}

/// Delete a preset of a vehicle.
pub fn delete_param_preset(store: &mut Store, vehicle: u8, name: &str) -> (r: Result<(), Failure>)
    ensures
        final(store)@ == preset_removed(old(store)@, vehicle, name@).0,
        done_answer(r) == (match preset_removed(old(store)@, vehicle, name@).1 {
            Ok(_) => Ok(()),
            Err(e) => Err(preset_failure(e, name@, vehicle)),
        }),
{
    match store.delete_preset(vehicle, name) {
        Ok(_) => Ok(()),
        Err(e) => Err(not_loaded(e, name, vehicle)),
    }
}

// Laws.

/// A request that fails leaves the store as it was.
pub proof fn failed_requests_change_nothing(
    m: StoreModel,
    parsed: Result<MissionFileModel, Seq<char>>,
    id: Seq<char>,
    now: Seq<char>,
    version: u32,
    vehicle: u8,
    name: Seq<char>,
)
    ensures
        created(m, parsed, id, now).1 is Err ==> created(m, parsed, id, now).0 == m,
        changed(m, parsed, id, now).1 is Err ==> changed(m, parsed, id, now).0 == m,
        mission_deleted(m, id).1 is Err ==> mission_deleted(m, id).0 == m,
        mission_rolled_back(m, id, version, now).1 is Err ==> mission_rolled_back(
            m,
            id,
            version,
            now,
        ).0 == m,
        preset_removed(m, vehicle, name).1 is Err ==> preset_removed(m, vehicle, name).0 == m,
{
}

/// What is answered for each failure: 400 for a mission that cannot be read,
/// 404 for one that is not there, 422 for a name that will not do, 500 for
/// trouble with the store, 404 for a preset that is not there.
pub proof fn failures_have_their_status(e: StoreErrorModel, text: Seq<char>, vehicle: u8)
    ensures
        unparsable(text).status == 400,
        absent(e).status == 404,
        save_failure(e).status == (if e is InvalidId {
            422u16
        } else {
            500u16
        }),
        preset_failure(e, text, vehicle).status == (if e is NotFound {
            404u16
        } else if e is InvalidId {
            422u16
        } else {
            500u16
        }),
{
}

/// An upload is held back with 426 by a version that does not match, unless
/// that is only a warning, and with 503 where no version is known.
pub proof fn versions_hold_uploads_back(vehicle: u8, v: VersionCheckResult)
    ensures
        match v {
            VersionCheckResult::Match { .. } => version_failure_of(vehicle, v) is None,
            VersionCheckResult::Mismatch { warning_only, .. } => if warning_only {
                version_failure_of(vehicle, v) is None
            } else {
                version_failure_of(vehicle, v) is Some && version_failure_of(vehicle, v)->0.status
                    == 426
            },
            VersionCheckResult::Unavailable { .. } => version_failure_of(vehicle, v) is Some
                && version_failure_of(vehicle, v)->0.status == 503,
        },
{
}

} // verus!
