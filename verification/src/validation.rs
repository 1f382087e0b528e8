//! Mission validation: thirteen rules, V-1 to V-13.
//!
//! Distances and ray crossings are floating-point geometry and are computed
//! by the application, one fact per polygon edge. What the facts mean, which
//! rules are broken and in what order, is decided here.

use vstd::prelude::*;
use crate::float::f32_lt;
#[allow(unused_imports)]
use crate::float::f32_less;
use crate::mission::{MissionFile, RallyPoint, Waypoint};
use crate::text::{push_decimal, same};
#[allow(unused_imports)]
use crate::text::decimal;

verus! {

pub const MAX_WAYPOINTS: usize = 100;

pub const MAX_RALLY_POINTS: usize = 5;

/// One metre: a point nearer an edge than this is on the fence, so inside.
pub const EDGE_TOLERANCE_M: u32 = 0x3F80_0000;

/// The largest finite single-precision number.
pub const F32_MAX: u32 = 0x7F7F_FFFF;

pub const ALT_120_M: u32 = 0x42F0_0000;

pub const ALT_150_M: u32 = 0x4316_0000;

/// What geometry says of a point and one edge of a polygon.
#[derive(Debug, Clone)]
pub struct EdgeFact {
    /// Distance to the edge in metres.
    pub distance: u32,
    /// The distance in text, to one decimal.
    pub distance_text: String,
    /// The ray from the point crosses the edge.
    pub crossed: bool,
}

/// What geometry says of a point.
#[derive(Debug, Clone)]
pub struct PointFacts {
    /// One fact per edge of the inclusion polygon.
    pub inclusion: Vec<EdgeFact>,
    /// One list of facts per exclusion polygon.
    pub exclusions: Vec<Vec<EdgeFact>>,
    /// The point's altitude in text, to one decimal.
    pub altitude_text: String,
}

/// What geometry says of a mission.
#[derive(Debug, Clone)]
pub struct MissionFacts {
    /// Whether edges `i` and `k` of the inclusion polygon intersect.
    pub crossings: Vec<Vec<bool>>,
    pub waypoints: Vec<PointFacts>,
    pub rally: Vec<PointFacts>,
    /// The fence's ceiling and floor in text, to one decimal and in full.
    pub ceiling_short: String,
    pub floor_short: String,
    pub ceiling_text: String,
    pub floor_text: String,
}

/// One broken rule.
#[derive(Debug, Clone)]
pub struct ValidationError {
    pub rule: String,
    pub message: String,
    /// The waypoint or rally point it concerns.
    pub seq: Option<u16>,
    /// How far out or in it is, in metres.
    pub distance: Option<u32>,
}

#[verifier::ext_equal]
pub struct ErrorModel {
    pub rule: Seq<char>,
    pub message: Seq<char>,
    pub seq: Option<u16>,
    pub distance: Option<u32>,
}

impl View for ValidationError {
    type V = ErrorModel;

    open spec fn view(&self) -> ErrorModel {
        ErrorModel {
            rule: self.rule@,
            message: self.message@,
            seq: self.seq,
            distance: self.distance,
        }
    }
}

pub open spec fn errors_of(s: Seq<ValidationError>) -> Seq<ErrorModel> {
    Seq::new(s.len(), |i: int| s[i]@)
}

#[derive(Debug, Clone)]
pub struct ValidationResult {
    pub valid: bool,
    pub errors: Vec<ValidationError>,
}

// Geometry decisions.

/// Orientation signs of two segments' end points say that they intersect.
pub fn segments_intersect(d1: i32, d2: i32, d3: i32, d4: i32) -> (r: bool)
    ensures
        r == (d1 != d2 && d3 != d4),
{
    d1 != d2 && d3 != d4
}

pub open spec fn next_edge(i: int, n: int) -> int {
    if i + 1 == n {
        0
    } else {
        i + 1
    }
}

/// Edges `i` and `k` of a polygon of `n` vertices share a vertex.
pub open spec fn adjacent(i: int, k: int, n: int) -> bool {
    i == k || i == next_edge(k, n) || next_edge(i, n) == k || next_edge(i, n) == next_edge(k, n)
}

pub open spec fn square(c: Seq<Vec<bool>>, n: nat) -> bool {
    c.len() == n && forall|i: int| 0 <= i < n ==> (#[trigger] c[i])@.len() == n
}

/// A polygon is simple if no two of its edges intersect but where they share
/// a vertex; a triangle always is.
pub open spec fn simple(n: nat, crossings: Seq<Vec<bool>>) -> bool {
    n < 4 || forall|i: int, k: int|
        0 <= i < k < n && !adjacent(i, k, n as int) ==> !#[trigger] crossings[i]@[k]
}

pub fn is_simple_polygon(n: usize, crossings: &Vec<Vec<bool>>) -> (r: bool)
    requires
        square(crossings@, n as nat),
    ensures
        r == simple(n as nat, crossings@),
{
    if n < 4 {
        return true;
    }
    let mut i: usize = 0;
    while i < n
        invariant
            i <= n,
            n >= 4,
            square(crossings@, n as nat),
            forall|a: int, b: int|
                0 <= a < i && a < b < n && !adjacent(a, b, n as int)
                    ==> !#[trigger] crossings@[a]@[b],
        decreases n - i,
    {
        let j: usize = if i + 1 == n {
            0
        } else {
            i + 1
        };
        let mut k: usize = i + 1;
        while k < n
            invariant
                i < n,
                i < k <= n,
                n >= 4,
                j == next_edge(i as int, n as int),
                square(crossings@, n as nat),
                forall|b: int|
                    i < b < k && !adjacent(i as int, b, n as int)
                        ==> !#[trigger] crossings@[i as int]@[b],
            decreases n - k,
        {
            let l: usize = if k + 1 == n {
                0
            } else {
                k + 1
            };
            if !(i == k || i == l || j == k || j == l) {
                if crossings[i][k] {
                    assert(!adjacent(i as int, k as int, n as int));
                    return false;
                }
            }
            k = k + 1;
        }
        i = i + 1;
    }
    true
}

/// How many edges the ray crosses.
pub open spec fn crossed_edges(edges: Seq<EdgeFact>) -> nat
    decreases edges.len(),
{
    if edges.len() == 0 {
        0
    } else {
        crossed_edges(edges.drop_last()) + (if edges.last().crossed {
            1nat
        } else {
            0nat
        })
    }
}

pub open spec fn on_edge(edges: Seq<EdgeFact>) -> bool {
    exists|i: int|
        0 <= i < edges.len() && f32_less((#[trigger] edges[i]).distance, EDGE_TOLERANCE_M)
}

/// A point is inside a polygon if it is on an edge, or its ray crosses an odd
/// number of edges; fewer than three vertices enclose nothing.
pub open spec fn inside(edges: Seq<EdgeFact>) -> bool {
    edges.len() >= 3 && (on_edge(edges) || crossed_edges(edges) % 2 == 1)
}

pub fn point_in_polygon(edges: &Vec<EdgeFact>) -> (r: bool)
    ensures
        r == inside(edges@),
{
    if edges.len() < 3 {
        return false;
    }
    let mut i: usize = 0;
    while i < edges.len()
        invariant
            i <= edges@.len(),
            edges@.len() >= 3,
            forall|k: int|
                0 <= k < i ==> !f32_less((#[trigger] edges@[k]).distance, EDGE_TOLERANCE_M),
        decreases edges@.len() - i,
    {
        if f32_lt(edges[i].distance, EDGE_TOLERANCE_M) {
            assert(f32_less(edges@[i as int].distance, EDGE_TOLERANCE_M));
            return true;
        }
        i = i + 1;
    }
    let mut odd: bool = false;
    let mut k: usize = 0;
    while k < edges.len()
        invariant
            k <= edges@.len(),
            odd == (crossed_edges(edges@.subrange(0, k as int)) % 2 == 1),
        decreases edges@.len() - k,
    {
        let ghost s = edges@.subrange(0, k + 1);
        assert(s.drop_last() == edges@.subrange(0, k as int));
        assert(s.last() == edges@[k as int]);
        if edges[k].crossed {
            odd = !odd;
        }
        k = k + 1;
    }
    assert(edges@.subrange(0, edges@.len() as int) == edges@);
    odd
}

/// The first edge no other is nearer than, or `-1` where none is nearer than
/// the largest number.
pub open spec fn nearest(edges: Seq<EdgeFact>) -> int
    decreases edges.len(),
{
    if edges.len() == 0 {
        -1
    } else {
        let k = nearest(edges.drop_last());
        let best = if k < 0 {
            F32_MAX
        } else {
            edges[k].distance
        };
        if f32_less(edges.last().distance, best) {
            edges.len() - 1
        } else {
            k
        }
    }
}

pub open spec fn polygon_distance(edges: Seq<EdgeFact>) -> u32 {
    let k = nearest(edges);
    if 0 <= k < edges.len() {
        edges[k].distance
    } else {
        F32_MAX
    }
}

pub open spec fn polygon_distance_text(edges: Seq<EdgeFact>) -> Seq<char> {
    let k = nearest(edges);
    if 0 <= k < edges.len() {
        edges[k].distance_text@
    } else {
        "340282346638528859811704183484516925440.0"@
    }
}

/// Distance to a polygon, with its text.
pub fn distance_to_polygon(edges: &Vec<EdgeFact>) -> (r: (u32, String))
    ensures
        r.0 == polygon_distance(edges@),
        r.1@ == polygon_distance_text(edges@),
{
    let mut best: Option<usize> = None;
    let mut i: usize = 0;
    assert(edges@.subrange(0, 0) == Seq::<EdgeFact>::empty());
    while i < edges.len()
        invariant
            i <= edges@.len(),
            match best {
                Some(k) => k < i && nearest(edges@.subrange(0, i as int)) == k,
                None => nearest(edges@.subrange(0, i as int)) == -1,
            },
        decreases edges@.len() - i,
    {
        let ghost s = edges@.subrange(0, i + 1);
        assert(s.drop_last() == edges@.subrange(0, i as int));
        assert(s.last() == edges@[i as int]);
        let d: u32 = match best {
            Some(k) => edges[k].distance,
            None => F32_MAX,
        };
        if f32_lt(edges[i].distance, d) {
            best = Some(i);
        }
        i = i + 1;
    }
    assert(edges@.subrange(0, edges@.len() as int) == edges@);
    match best {
        Some(k) => (edges[k].distance, edges[k].distance_text.clone()),
        None => (F32_MAX, String::from_str("340282346638528859811704183484516925440.0")),
    }
}

// Altitude, command and frame tables.

/// Lowest and highest altitude of a vehicle type, with the texts of both.
pub open spec fn bounds_of(vehicle_type: Seq<char>) -> Option<(u32, u32)> {
    if vehicle_type == "quad"@ {
        Some((0u32, ALT_120_M))
    } else if vehicle_type == "fixed"@ || vehicle_type == "vtol"@ {
        Some((0u32, ALT_150_M))
    } else if vehicle_type == "rover"@ {
        Some((0u32, 0u32))
    } else {
        None
    }
}

pub fn altitude_bounds(vehicle_type: &str) -> (r: Option<(u32, u32)>)
    ensures
        r == bounds_of(vehicle_type@),
{
    if same(vehicle_type, "quad") {
        Some((0, ALT_120_M))
    } else if same(vehicle_type, "fixed") || same(vehicle_type, "vtol") {
        Some((0, ALT_150_M))
    } else if same(vehicle_type, "rover") {
        Some((0, 0))
    } else {
        None
    }
}

pub open spec fn bound_text(bound: u32) -> Seq<char> {
    if bound == ALT_120_M {
        "120"@
    } else if bound == ALT_150_M {
        "150"@
    } else {
        "0"@
    }
}

pub open spec fn command_known(c: u16) -> bool {
    16 <= c <= 22 || c == 31 || c == 200
}

pub open spec fn frame_known(f: u8) -> bool {
    f == 0 || f == 1 || f == 3 || f == 10 || f == 11
}

// The rules.

pub open spec fn plain(rule: Seq<char>, message: Seq<char>) -> ErrorModel {
    ErrorModel { rule, message, seq: None, distance: None }
}

pub open spec fn at(rule: Seq<char>, message: Seq<char>, seq: u16) -> ErrorModel {
    ErrorModel { rule, message, seq: Some(seq), distance: None }
}

pub open spec fn one_if(broken: bool, e: ErrorModel) -> Seq<ErrorModel> {
    if broken {
        seq![e]
    } else {
        Seq::empty()
    }
}

pub open spec fn fenced(m: MissionFile) -> bool {
    m.geofence.inclusion@.len() > 0
}

/// V-1 and V-2.
pub open spec fn count_errors(m: MissionFile) -> Seq<ErrorModel> {
    let n = m.waypoints@.len();
    one_if(n == 0, plain("V-1"@, "mission must have at least one waypoint"@)) + one_if(
        n > MAX_WAYPOINTS,
        plain("V-2"@, "mission has "@ + decimal(n) + " waypoints; maximum is 100"@),
    )
}

/// V-5 for a vehicle type without bounds.
pub open spec fn type_errors(m: MissionFile) -> Seq<ErrorModel> {
    one_if(
        bounds_of(m.mission.vehicle_type@) is None,
        plain(
            "V-5"@,
            "unknown vehicle_type '"@ + m.mission.vehicle_type@
                + "'; supported: quad, fixed, vtol, rover"@,
        ),
    )
}

/// V-7 and V-8.
pub open spec fn fence_errors(m: MissionFile, facts: MissionFacts) -> Seq<ErrorModel> {
    let n = m.geofence.inclusion@.len();
    one_if(
        fenced(m) && !simple(n, facts.crossings@),
        plain("V-7"@, "inclusion fence self-intersects"@),
    ) + one_if(
        fenced(m) && n < 3,
        plain(
            "V-8"@,
            "inclusion fence must have at least 3 vertices (got "@ + decimal(n) + ")"@,
        ),
    )
}

/// V-3.
pub open spec fn outside_error(wp: Waypoint, p: PointFacts) -> ErrorModel {
    ErrorModel {
        rule: "V-3"@,
        message: "waypoint "@ + decimal(wp.seq as nat) + " outside inclusion fence by "@
            + polygon_distance_text(p.inclusion@) + " m"@,
        seq: Some(wp.seq),
        distance: Some(polygon_distance(p.inclusion@)),
    }
}

/// V-4, for one exclusion polygon.
pub open spec fn excluded_error(wp: Waypoint, p: PointFacts, i: int) -> ErrorModel {
    ErrorModel {
        rule: "V-4"@,
        message: "waypoint "@ + decimal(wp.seq as nat) + " inside exclusion polygon "@ + decimal(
            i as nat,
        ) + " by "@ + polygon_distance_text(p.exclusions@[i]@) + " m"@,
        seq: Some(wp.seq),
        distance: Some(polygon_distance(p.exclusions@[i]@)),
    }
}

/// V-4, over the first `n` exclusion polygons.
pub open spec fn exclusion_errors(wp: Waypoint, p: PointFacts, n: nat) -> Seq<ErrorModel>
    decreases n,
{
    if n == 0 {
        Seq::empty()
    } else {
        exclusion_errors(wp, p, (n - 1) as nat) + one_if(
            inside(p.exclusions@[n - 1]@),
            excluded_error(wp, p, n - 1),
        )
    }
}

/// V-5 for a waypoint.
pub open spec fn altitude_errors(m: MissionFile, wp: Waypoint, p: PointFacts) -> Seq<ErrorModel> {
    match bounds_of(m.mission.vehicle_type@) {
        Some((min, max)) => one_if(
            f32_less(wp.z, min) || f32_less(max, wp.z),
            at(
                "V-5"@,
                "waypoint "@ + decimal(wp.seq as nat) + " altitude "@ + p.altitude_text@
                    + " m outside ["@ + bound_text(min) + ", "@ + bound_text(max)
                    + "] for vehicle_type "@ + m.mission.vehicle_type@,
                wp.seq,
            ),
        ),
        None => Seq::empty(),
    }
}

/// V-6.
pub open spec fn ceiling_errors(
    m: MissionFile,
    facts: MissionFacts,
    wp: Waypoint,
    p: PointFacts,
) -> Seq<ErrorModel> {
    one_if(
        fenced(m) && f32_less(m.geofence.ceiling_m, wp.z),
        at(
            "V-6"@,
            "waypoint "@ + decimal(wp.seq as nat) + " altitude "@ + p.altitude_text@
                + " m above geofence ceiling "@ + facts.ceiling_short@ + " m"@,
            wp.seq,
        ),
    ) + one_if(
        fenced(m) && f32_less(wp.z, m.geofence.floor_m),
        at(
            "V-6"@,
            "waypoint "@ + decimal(wp.seq as nat) + " altitude "@ + p.altitude_text@
                + " m below geofence floor "@ + facts.floor_short@ + " m"@,
            wp.seq,
        ),
    )
}

/// V-12 and V-13.
pub open spec fn encoding_errors(wp: Waypoint) -> Seq<ErrorModel> {
    one_if(
        !command_known(wp.command),
        at(
            "V-12"@,
            "waypoint "@ + decimal(wp.seq as nat) + " has unsupported command "@ + decimal(
                wp.command as nat,
            ) + "; supported: 16, 17, 18, 19, 20, 21, 22, 31, 200"@,
            wp.seq,
        ),
    ) + one_if(
        !frame_known(wp.frame),
        at(
            "V-13"@,
            "waypoint "@ + decimal(wp.seq as nat) + " has unsupported frame "@ + decimal(
                wp.frame as nat,
            ) + "; supported: 0, 1, 3, 10, 11"@,
            wp.seq,
        ),
    )
}

/// Every rule that waypoint `i` breaks, in order.
pub open spec fn waypoint_errors(m: MissionFile, facts: MissionFacts, i: int) -> Seq<ErrorModel> {
    let wp = m.waypoints@[i];
    let p = facts.waypoints@[i];
    one_if(fenced(m) && !inside(p.inclusion@), outside_error(wp, p)) + exclusion_errors(
        wp,
        p,
        p.exclusions@.len(),
    ) + altitude_errors(m, wp, p) + ceiling_errors(m, facts, wp, p) + encoding_errors(wp)
}

pub open spec fn waypoints_errors(m: MissionFile, facts: MissionFacts, n: nat) -> Seq<ErrorModel>
    decreases n,
{
    if n == 0 {
        Seq::empty()
    } else {
        waypoints_errors(m, facts, (n - 1) as nat) + waypoint_errors(m, facts, n - 1)
    }
}

/// V-9.
pub open spec fn rally_count_errors(m: MissionFile) -> Seq<ErrorModel> {
    one_if(
        m.rally@.len() > MAX_RALLY_POINTS,
        plain(
            "V-9"@,
            "rally point count "@ + decimal(m.rally@.len()) + " exceeds maximum 5"@,
        ),
    )
}

/// V-10 and V-11 for rally point `i`.
pub open spec fn rally_errors(m: MissionFile, facts: MissionFacts, i: int) -> Seq<ErrorModel> {
    let rp = m.rally@[i];
    let p = facts.rally@[i];
    one_if(
        fenced(m) && !inside(p.inclusion@),
        ErrorModel {
            rule: "V-10"@,
            message: "rally point "@ + decimal(rp.seq as nat) + " outside inclusion fence by "@
                + polygon_distance_text(p.inclusion@) + " m"@,
            seq: Some(rp.seq),
            distance: Some(polygon_distance(p.inclusion@)),
        },
    ) + one_if(
        fenced(m) && (f32_less(m.geofence.ceiling_m, rp.alt_m) || f32_less(
            rp.alt_m,
            m.geofence.floor_m,
        )),
        at(
            "V-11"@,
            "rally point "@ + decimal(rp.seq as nat) + " altitude "@ + p.altitude_text@
                + " m outside ["@ + facts.floor_text@ + ", "@ + facts.ceiling_text@ + "]"@,
            rp.seq,
        ),
    )
}

pub open spec fn rallies_errors(m: MissionFile, facts: MissionFacts, n: nat) -> Seq<ErrorModel>
    decreases n,
{
    if n == 0 {
        Seq::empty()
    } else {
        rallies_errors(m, facts, (n - 1) as nat) + rally_errors(m, facts, n - 1)
    }
}

/// Every broken rule of a mission, in order.
pub open spec fn mission_errors(m: MissionFile, facts: MissionFacts) -> Seq<ErrorModel> {
    count_errors(m) + type_errors(m) + fence_errors(m, facts) + waypoints_errors(
        m,
        facts,
        m.waypoints@.len(),
    ) + rally_count_errors(m) + rallies_errors(m, facts, m.rally@.len())
}

/// One fact for each edge of each polygon of the fence.
pub open spec fn point_facts_fit(m: MissionFile, p: PointFacts) -> bool {
    &&& p.inclusion@.len() == m.geofence.inclusion@.len()
    &&& p.exclusions@.len() == m.geofence.exclusion@.len()
    &&& forall|j: int|
        0 <= j < p.exclusions@.len() ==> (#[trigger] p.exclusions@[j])@.len()
            == m.geofence.exclusion@[j]@.len()
}

/// The facts cover the mission: every waypoint and rally point, and every pair
/// of fence edges.
pub open spec fn facts_fit(m: MissionFile, facts: MissionFacts) -> bool {
    &&& square(facts.crossings@, m.geofence.inclusion@.len())
    &&& facts.waypoints@.len() == m.waypoints@.len()
    &&& forall|i: int|
        0 <= i < facts.waypoints@.len() ==> point_facts_fit(m, #[trigger] facts.waypoints@[i])
    &&& facts.rally@.len() == m.rally@.len()
    &&& forall|i: int|
        0 <= i < facts.rally@.len() ==> point_facts_fit(m, #[trigger] facts.rally@[i])
}

fn note(errors: &mut Vec<ValidationError>, e: ValidationError)
    ensures
        errors_of(final(errors)@) == errors_of(old(errors)@) + seq![e@],
{
    errors.push(e);
    assert(errors_of(errors@) =~= errors_of(old(errors)@) + seq![e@]);
}

fn plain_error(rule: &str, message: String) -> (e: ValidationError)
    ensures
        e@ == plain(rule@, message@),
{
    ValidationError { rule: String::from_str(rule), message, seq: None, distance: None }
}

fn error_at(rule: &str, message: String, seq: u16) -> (e: ValidationError)
    ensures
        e@ == at(rule@, message@, seq),
{
    ValidationError { rule: String::from_str(rule), message, seq: Some(seq), distance: None }
}

/// `head`, a number, `tail`.
fn counted(head: &str, n: u64, tail: &str) -> (r: String)
    ensures
        r@ == head@ + decimal(n as nat) + tail@,
{
    let mut s = String::from_str(head);
    push_decimal(&mut s, n);
    s.append(tail);
    s
}

fn check_counts(m: &MissionFile, errors: &mut Vec<ValidationError>)
    ensures
        errors_of(final(errors)@) == errors_of(old(errors)@) + count_errors(*m),
{
    let n: usize = m.waypoints.len();
    if n == 0 {
        note(
            errors,
            plain_error("V-1", String::from_str("mission must have at least one waypoint")),
        );
    }
    if n > MAX_WAYPOINTS {
        note(
            errors,
            plain_error("V-2", counted("mission has ", n as u64, " waypoints; maximum is 100")),
        );
    }
    assert(errors_of(errors@) =~= errors_of(old(errors)@) + count_errors(*m));
}

fn check_type(m: &MissionFile, errors: &mut Vec<ValidationError>)
    ensures
        errors_of(final(errors)@) == errors_of(old(errors)@) + type_errors(*m),
{
    if altitude_bounds(m.mission.vehicle_type.as_str()).is_none() {
        let mut s = String::from_str("unknown vehicle_type '");
        s.append(m.mission.vehicle_type.as_str());
        s.append("'; supported: quad, fixed, vtol, rover");
        note(errors, plain_error("V-5", s));
    }
    assert(errors_of(errors@) =~= errors_of(old(errors)@) + type_errors(*m));
}

fn check_fence(m: &MissionFile, facts: &MissionFacts, errors: &mut Vec<ValidationError>)
    requires
        facts_fit(*m, *facts),
    ensures
        errors_of(final(errors)@) == errors_of(old(errors)@) + fence_errors(*m, *facts),
{
    let n: usize = m.geofence.inclusion.len();
    if n > 0 && !is_simple_polygon(n, &facts.crossings) {
        note(errors, plain_error("V-7", String::from_str("inclusion fence self-intersects")));
    }
    if n > 0 && n < 3 {
        note(
            errors,
            plain_error(
                "V-8",
                counted("inclusion fence must have at least 3 vertices (got ", n as u64, ")"),
            ),
        );
    }
    assert(errors_of(errors@) =~= errors_of(old(errors)@) + fence_errors(*m, *facts));
}

fn outside(wp: &Waypoint, p: &PointFacts) -> (e: ValidationError)
    ensures
        e@ == outside_error(*wp, *p),
{
    let (d, text) = distance_to_polygon(&p.inclusion);
    let mut s = counted("waypoint ", wp.seq as u64, " outside inclusion fence by ");
    s.append(text.as_str());
    s.append(" m");
    ValidationError {
        rule: String::from_str("V-3"),
        message: s,
        seq: Some(wp.seq),
        distance: Some(d),
    }
}

fn excluded(wp: &Waypoint, p: &PointFacts, i: usize) -> (e: ValidationError)
    requires
        i < p.exclusions@.len(),
    ensures
        e@ == excluded_error(*wp, *p, i as int),
{
    let (d, text) = distance_to_polygon(&p.exclusions[i]);
    let mut s = counted("waypoint ", wp.seq as u64, " inside exclusion polygon ");
    push_decimal(&mut s, i as u64);
    s.append(" by ");
    s.append(text.as_str());
    s.append(" m");
    ValidationError {
        rule: String::from_str("V-4"),
        message: s,
        seq: Some(wp.seq),
        distance: Some(d),
    }
}

fn check_exclusions(wp: &Waypoint, p: &PointFacts, errors: &mut Vec<ValidationError>)
    ensures
        errors_of(final(errors)@) == errors_of(old(errors)@) + exclusion_errors(
            *wp,
            *p,
            p.exclusions@.len(),
        ),
{
    let mut i: usize = 0;
    assert(errors_of(errors@) =~= errors_of(old(errors)@) + exclusion_errors(*wp, *p, 0));
    while i < p.exclusions.len()
        invariant
            i <= p.exclusions@.len(),
            errors_of(errors@) == errors_of(old(errors)@) + exclusion_errors(*wp, *p, i as nat),
        decreases p.exclusions@.len() - i,
    {
        let ghost before = errors_of(errors@);
        if point_in_polygon(&p.exclusions[i]) {
            note(errors, excluded(wp, p, i));
        }
        proof {
            assert(errors_of(errors@) =~= errors_of(old(errors)@) + exclusion_errors(
                *wp,
                *p,
                (i + 1) as nat,
            ));
        }
        i = i + 1;
    }
}

fn bound_string(bound: u32) -> (r: String)
    ensures
        r@ == bound_text(bound),
{
    if bound == ALT_120_M {
        String::from_str("120")
    } else if bound == ALT_150_M {
        String::from_str("150")
    } else {
        String::from_str("0")
    }
}

fn check_altitude(
    m: &MissionFile,
    wp: &Waypoint,
    p: &PointFacts,
    errors: &mut Vec<ValidationError>,
)
    ensures
        errors_of(final(errors)@) == errors_of(old(errors)@) + altitude_errors(*m, *wp, *p),
{
    match altitude_bounds(m.mission.vehicle_type.as_str()) {
        Some((min, max)) => {
            if f32_lt(wp.z, min) || f32_lt(max, wp.z) {
                let mut s = counted("waypoint ", wp.seq as u64, " altitude ");
                s.append(p.altitude_text.as_str());
                s.append(" m outside [");
                s.append(bound_string(min).as_str());
                s.append(", ");
                s.append(bound_string(max).as_str());
                s.append("] for vehicle_type ");
                s.append(m.mission.vehicle_type.as_str());
                note(errors, error_at("V-5", s, wp.seq));
            }
        },
        None => {},
    }
    assert(errors_of(errors@) =~= errors_of(old(errors)@) + altitude_errors(*m, *wp, *p));
}

fn check_ceiling(
    m: &MissionFile,
    facts: &MissionFacts,
    wp: &Waypoint,
    p: &PointFacts,
    errors: &mut Vec<ValidationError>,
)
    ensures
        errors_of(final(errors)@) == errors_of(old(errors)@) + ceiling_errors(
            *m,
            *facts,
            *wp,
            *p,
        ),
{
    if m.geofence.inclusion.len() > 0 {
        if f32_lt(m.geofence.ceiling_m, wp.z) {
            let mut s = counted("waypoint ", wp.seq as u64, " altitude ");
            s.append(p.altitude_text.as_str());
            s.append(" m above geofence ceiling ");
            s.append(facts.ceiling_short.as_str());
            s.append(" m");
            note(errors, error_at("V-6", s, wp.seq));
        }
        if f32_lt(wp.z, m.geofence.floor_m) {
            let mut s = counted("waypoint ", wp.seq as u64, " altitude ");
            s.append(p.altitude_text.as_str());
            s.append(" m below geofence floor ");
            s.append(facts.floor_short.as_str());
            s.append(" m");
            note(errors, error_at("V-6", s, wp.seq));
        }
    }
    assert(errors_of(errors@) =~= errors_of(old(errors)@) + ceiling_errors(*m, *facts, *wp, *p));
}

fn check_encoding(wp: &Waypoint, errors: &mut Vec<ValidationError>)
    ensures
        errors_of(final(errors)@) == errors_of(old(errors)@) + encoding_errors(*wp),
{
    let c: u16 = wp.command;
    if !((16 <= c && c <= 22) || c == 31 || c == 200) {
        let mut s = counted("waypoint ", wp.seq as u64, " has unsupported command ");
        push_decimal(&mut s, c as u64);
        s.append("; supported: 16, 17, 18, 19, 20, 21, 22, 31, 200");
        note(errors, error_at("V-12", s, wp.seq));
    }
    let f: u8 = wp.frame;
    if !(f == 0 || f == 1 || f == 3 || f == 10 || f == 11) {
        let mut s = counted("waypoint ", wp.seq as u64, " has unsupported frame ");
        push_decimal(&mut s, f as u64);
        s.append("; supported: 0, 1, 3, 10, 11");
        note(errors, error_at("V-13", s, wp.seq));
    }
    assert(errors_of(errors@) =~= errors_of(old(errors)@) + encoding_errors(*wp));
}

fn check_waypoint(
    m: &MissionFile,
    facts: &MissionFacts,
    i: usize,
    errors: &mut Vec<ValidationError>,
)
    requires
        facts_fit(*m, *facts),
        i < m.waypoints@.len(),
    ensures
        errors_of(final(errors)@) == errors_of(old(errors)@) + waypoint_errors(
            *m,
            *facts,
            i as int,
        ),
{
    let wp = &m.waypoints[i];
    let p = &facts.waypoints[i];
    if m.geofence.inclusion.len() > 0 && !point_in_polygon(&p.inclusion) {
        note(errors, outside(wp, p));
    }
    check_exclusions(wp, p, errors);
    check_altitude(m, wp, p, errors);
    check_ceiling(m, facts, wp, p, errors);
    check_encoding(wp, errors);
    assert(errors_of(errors@) =~= errors_of(old(errors)@) + waypoint_errors(*m, *facts, i as int));
}

fn check_rally_point(
    m: &MissionFile,
    facts: &MissionFacts,
    i: usize,
    errors: &mut Vec<ValidationError>,
)
    requires
        facts_fit(*m, *facts),
        i < m.rally@.len(),
    ensures
        errors_of(final(errors)@) == errors_of(old(errors)@) + rally_errors(*m, *facts, i as int),
{
    let rp: &RallyPoint = &m.rally[i];
    let p = &facts.rally[i];
    if m.geofence.inclusion.len() > 0 {
        if !point_in_polygon(&p.inclusion) {
            let (d, text) = distance_to_polygon(&p.inclusion);
            let mut s = counted("rally point ", rp.seq as u64, " outside inclusion fence by ");
            s.append(text.as_str());
            s.append(" m");
            note(
                errors,
                ValidationError {
                    rule: String::from_str("V-10"),
                    message: s,
                    seq: Some(rp.seq),
                    distance: Some(d),
                },
            );
        }
        if f32_lt(m.geofence.ceiling_m, rp.alt_m) || f32_lt(rp.alt_m, m.geofence.floor_m) {
            let mut s = counted("rally point ", rp.seq as u64, " altitude ");
            s.append(p.altitude_text.as_str());
            s.append(" m outside [");
            s.append(facts.floor_text.as_str());
            s.append(", ");
            s.append(facts.ceiling_text.as_str());
            s.append("]");
            note(errors, error_at("V-11", s, rp.seq));
        }
    }
    assert(errors_of(errors@) =~= errors_of(old(errors)@) + rally_errors(*m, *facts, i as int));
}

/// Check a mission against every rule; it is valid if none is broken.
pub fn validate(m: &MissionFile, facts: &MissionFacts) -> (r: ValidationResult)
    requires
        facts_fit(*m, *facts),
    ensures
        errors_of(r.errors@) == mission_errors(*m, *facts),
        r.valid == (mission_errors(*m, *facts).len() == 0),
{
    let mut errors: Vec<ValidationError> = Vec::new();
    assert(errors_of(errors@) =~= Seq::<ErrorModel>::empty());
    check_counts(m, &mut errors);
    check_type(m, &mut errors);
    check_fence(m, facts, &mut errors);
    let ghost head = errors_of(errors@);
    assert(head =~= count_errors(*m) + type_errors(*m) + fence_errors(*m, *facts));
    let mut i: usize = 0;
    assert(errors_of(errors@) =~= head + waypoints_errors(*m, *facts, 0));
    while i < m.waypoints.len()
        invariant
            facts_fit(*m, *facts),
            i <= m.waypoints@.len(),
            errors_of(errors@) == head + waypoints_errors(*m, *facts, i as nat),
        decreases m.waypoints@.len() - i,
    {
        check_waypoint(m, facts, i, &mut errors);
        i = i + 1;
        assert(errors_of(errors@) =~= head + waypoints_errors(*m, *facts, i as nat));
    }
    if m.rally.len() > MAX_RALLY_POINTS {
        note(
            &mut errors,
            plain_error(
                "V-9",
                counted("rally point count ", m.rally.len() as u64, " exceeds maximum 5"),
            ),
        );
    }
    let ghost middle = head + waypoints_errors(*m, *facts, m.waypoints@.len())
        + rally_count_errors(*m);
    assert(errors_of(errors@) =~= middle);
    let mut k: usize = 0;
    assert(errors_of(errors@) =~= middle + rallies_errors(*m, *facts, 0));
    while k < m.rally.len()
        invariant
            facts_fit(*m, *facts),
            k <= m.rally@.len(),
            errors_of(errors@) == middle + rallies_errors(*m, *facts, k as nat),
        decreases m.rally@.len() - k,
    {
        check_rally_point(m, facts, k, &mut errors);
        k = k + 1;
        assert(errors_of(errors@) =~= middle + rallies_errors(*m, *facts, k as nat));
    }
    assert(errors_of(errors@) =~= mission_errors(*m, *facts));
    ValidationResult { valid: errors.len() == 0, errors }
}

// Laws.

/// A waypoint that breaks no rule.
pub open spec fn waypoint_acceptable(m: MissionFile, facts: MissionFacts, i: int) -> bool {
    let wp = m.waypoints@[i];
    let p = facts.waypoints@[i];
    &&& fenced(m) ==> {
        &&& inside(p.inclusion@)
        &&& !f32_less(m.geofence.ceiling_m, wp.z)
        &&& !f32_less(wp.z, m.geofence.floor_m)
    }
    &&& forall|j: int| 0 <= j < p.exclusions@.len() ==> !inside((#[trigger] p.exclusions@[j])@)
    &&& bounds_of(m.mission.vehicle_type@) matches Some((min, max)) ==> !f32_less(wp.z, min)
        && !f32_less(max, wp.z)
    &&& command_known(wp.command)
    &&& frame_known(wp.frame)
}

/// A rally point that breaks no rule.
pub open spec fn rally_acceptable(m: MissionFile, facts: MissionFacts, i: int) -> bool {
    let rp = m.rally@[i];
    fenced(m) ==> {
        &&& inside(facts.rally@[i].inclusion@)
        &&& !f32_less(m.geofence.ceiling_m, rp.alt_m)
        &&& !f32_less(rp.alt_m, m.geofence.floor_m)
    }
}

/// A mission that breaks no rule.
pub open spec fn acceptable(m: MissionFile, facts: MissionFacts) -> bool {
    &&& 1 <= m.waypoints@.len() <= MAX_WAYPOINTS
    &&& bounds_of(m.mission.vehicle_type@) is Some
    &&& fenced(m) ==> m.geofence.inclusion@.len() >= 3 && simple(
        m.geofence.inclusion@.len(),
        facts.crossings@,
    )
    &&& forall|i: int|
        0 <= i < m.waypoints@.len() ==> #[trigger] waypoint_acceptable(m, facts, i)
    &&& m.rally@.len() <= MAX_RALLY_POINTS
    &&& forall|i: int| 0 <= i < m.rally@.len() ==> #[trigger] rally_acceptable(m, facts, i)
}

proof fn exclusion_silence(wp: Waypoint, p: PointFacts, n: nat)
    requires
        n <= p.exclusions@.len(),
    ensures
        exclusion_errors(wp, p, n).len() == 0 <==> forall|j: int|
            0 <= j < n ==> !inside((#[trigger] p.exclusions@[j])@),
    decreases n,
{
    if n > 0 {
        exclusion_silence(wp, p, (n - 1) as nat);
        assert(exclusion_errors(wp, p, n).len() == 0 ==> !inside(p.exclusions@[n - 1]@));
    }
}

proof fn altitude_silence(m: MissionFile, wp: Waypoint, p: PointFacts)
    ensures
        altitude_errors(m, wp, p).len() == 0 <==> (bounds_of(m.mission.vehicle_type@) matches Some(
            (min, max),
        ) ==> !f32_less(wp.z, min) && !f32_less(max, wp.z)),
{
}

proof fn ceiling_silence(m: MissionFile, facts: MissionFacts, wp: Waypoint, p: PointFacts)
    ensures
        ceiling_errors(m, facts, wp, p).len() == 0 <==> (fenced(m) ==> !f32_less(
            m.geofence.ceiling_m,
            wp.z,
        ) && !f32_less(wp.z, m.geofence.floor_m)),
{
}

proof fn encoding_silence(wp: Waypoint)
    ensures
        encoding_errors(wp).len() == 0 <==> command_known(wp.command) && frame_known(wp.frame),
{
}

proof fn no_error_in_five(
    a: Seq<ErrorModel>,
    b: Seq<ErrorModel>,
    c: Seq<ErrorModel>,
    d: Seq<ErrorModel>,
    e: Seq<ErrorModel>,
)
    ensures
        (a + b + c + d + e).len() == 0 <==> a.len() == 0 && b.len() == 0 && c.len() == 0 && d.len()
            == 0 && e.len() == 0,
{
}

#[verifier::spinoff_prover]
proof fn waypoint_silence(m: MissionFile, facts: MissionFacts, i: int)
    ensures
        waypoint_errors(m, facts, i).len() == 0 <==> waypoint_acceptable(m, facts, i),
{
    let wp = m.waypoints@[i];
    let p = facts.waypoints@[i];
    let outside = one_if(fenced(m) && !inside(p.inclusion@), outside_error(wp, p));
    let excluded = exclusion_errors(wp, p, p.exclusions@.len());
    exclusion_silence(wp, p, p.exclusions@.len());
    altitude_silence(m, wp, p);
    ceiling_silence(m, facts, wp, p);
    encoding_silence(wp);
    no_error_in_five(
        outside,
        excluded,
        altitude_errors(m, wp, p),
        ceiling_errors(m, facts, wp, p),
        encoding_errors(wp),
    );
    assert(outside.len() == 0 <==> (fenced(m) ==> inside(p.inclusion@)));
}

proof fn waypoints_silence(m: MissionFile, facts: MissionFacts, n: nat)
    ensures
        waypoints_errors(m, facts, n).len() == 0 <==> forall|i: int|
            0 <= i < n ==> #[trigger] waypoint_acceptable(m, facts, i),
    decreases n,
{
    if n > 0 {
        waypoints_silence(m, facts, (n - 1) as nat);
        waypoint_silence(m, facts, n - 1);
    }
}

proof fn rallies_silence(m: MissionFile, facts: MissionFacts, n: nat)
    ensures
        rallies_errors(m, facts, n).len() == 0 <==> forall|i: int|
            0 <= i < n ==> #[trigger] rally_acceptable(m, facts, i),
    decreases n,
{
    if n > 0 {
        rallies_silence(m, facts, (n - 1) as nat);
        assert(rally_errors(m, facts, n - 1).len() == 0 <==> rally_acceptable(m, facts, n - 1));
    }
}

/// A mission comes out valid exactly when it breaks none of the rules.
pub proof fn valid_means_acceptable(m: MissionFile, facts: MissionFacts)
    requires
        facts_fit(m, facts),
    ensures
        mission_errors(m, facts).len() == 0 <==> acceptable(m, facts),
{
    waypoints_silence(m, facts, m.waypoints@.len());
    rallies_silence(m, facts, m.rally@.len());
}

/// A mission without a fence breaks no fence rule, whatever the altitudes.
pub proof fn no_fence_no_fence_errors(m: MissionFile, facts: MissionFacts, i: int)
    requires
        !fenced(m),
    ensures
        fence_errors(m, facts).len() == 0,
        ceiling_errors(m, facts, m.waypoints@[i], facts.waypoints@[i]).len() == 0,
        rally_errors(m, facts, i).len() == 0,
        waypoint_errors(m, facts, i) == exclusion_errors(
            m.waypoints@[i],
            facts.waypoints@[i],
            facts.waypoints@[i].exclusions@.len(),
        ) + altitude_errors(m, m.waypoints@[i], facts.waypoints@[i]) + encoding_errors(
            m.waypoints@[i],
        ),
{
    let wp = m.waypoints@[i];
    let p = facts.waypoints@[i];
    assert(waypoint_errors(m, facts, i) =~= exclusion_errors(wp, p, p.exclusions@.len())
        + altitude_errors(m, wp, p) + encoding_errors(wp));
}

} // verus!
