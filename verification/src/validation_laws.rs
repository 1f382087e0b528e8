//! What mission validation promises, over the facts alone.

use vstd::prelude::*;
#[allow(unused_imports)]
use crate::float::{f32_less, f32_order_is_by_rank, f32_rank, f32_ranked};
#[allow(unused_imports)]
use crate::mission::{MissionFile, Waypoint};
#[allow(unused_imports)]
use crate::validation::{
    adjacent, altitude_errors, bounds_of, ceiling_errors, command_known, count_errors,
    crossed_edges, encoding_errors, excluded_error, exclusion_errors, fence_errors, fenced,
    frame_known, inside, mission_errors, nearest, on_edge, one_if, outside_error, polygon_distance,
    polygon_distance_text, rallies_errors, rally_count_errors, rally_errors, simple, type_errors,
    waypoint_errors, waypoints_errors, EdgeFact, ErrorModel, MissionFacts, PointFacts,
};

verus! {

// Points and polygons.

/// A distance of less than a metre: below the pattern of one, and a number.
pub open spec fn under_a_metre(distance: u32) -> bool {
    -0x7F80_0000 <= f32_rank(distance) < 0x3F80_0000
}

/// The point is less than a metre from some edge.
pub open spec fn near(edges: Seq<EdgeFact>) -> bool {
    exists|i: int| 0 <= i < edges.len() && under_a_metre((#[trigger] edges[i]).distance)
}

/// The edges that the ray from the point crosses.
pub open spec fn crossings(edges: Seq<EdgeFact>) -> Seq<EdgeFact> {
    edges.filter(|e: EdgeFact| e.crossed)
}

/// The point is in the polygon: at its edge, or enclosed by it, which is to
/// say that its ray crosses an odd number of edges.
pub open spec fn within(edges: Seq<EdgeFact>) -> bool {
    edges.len() >= 3 && (near(edges) || crossings(edges).len() % 2 == 1)
}

proof fn crossings_are_counted(edges: Seq<EdgeFact>)
    ensures
        crossings(edges).len() == crossed_edges(edges),
    decreases edges.len(),
{
    reveal(Seq::filter);
    if edges.len() > 0 {
        crossings_are_counted(edges.drop_last());
    }
}

proof fn near_means_on_edge(edges: Seq<EdgeFact>)
    ensures
        near(edges) == on_edge(edges),
{
    assert forall|i: int| 0 <= i < edges.len() implies under_a_metre((#[trigger] edges[i]).distance)
        == f32_less(edges[i].distance, 0x3F80_0000) by {
        f32_order_is_by_rank(edges[i].distance, 0x3F80_0000);
    }
    if near(edges) {
        let i = choose|i: int|
            0 <= i < edges.len() && under_a_metre((#[trigger] edges[i]).distance);
        assert(f32_less(edges[i].distance, 0x3F80_0000));
    }
    if on_edge(edges) {
        let i = choose|i: int|
            0 <= i < edges.len() && f32_less((#[trigger] edges[i]).distance, 0x3F80_0000);
        assert(under_a_metre(edges[i].distance));
    }
}

/// A point is inside a polygon of three or more edges exactly where it is less
/// than a metre from an edge or its ray crosses an odd number of edges. Fewer
/// edges enclose nothing.
pub proof fn inside_means_odd_or_near(edges: Seq<EdgeFact>)
    ensures
        inside(edges) <==> within(edges),
{
    crossings_are_counted(edges);
    near_means_on_edge(edges);
}

/// For a point a metre or more from every edge, one more crossed edge turns
/// inside to outside and outside to inside, and one more edge that is not
/// crossed changes nothing.
pub proof fn a_crossing_flips_the_verdict(edges: Seq<EdgeFact>, e: EdgeFact)
    requires
        edges.len() >= 3,
        !near(edges.push(e)),
    ensures
        e.crossed ==> inside(edges.push(e)) == !inside(edges),
        !e.crossed ==> inside(edges.push(e)) == inside(edges),
{
    let more = edges.push(e);
    assert(more.drop_last() =~= edges);
    assert(more.last() == e);
    near_means_on_edge(more);
    near_means_on_edge(edges);
    if near(edges) {
        let i = choose|i: int|
            0 <= i < edges.len() && under_a_metre((#[trigger] edges[i]).distance);
        assert(more[i] == edges[i]);
    }
}

proof fn no_crossing_counts_nothing(edges: Seq<EdgeFact>)
    requires
        forall|i: int| 0 <= i < edges.len() ==> !(#[trigger] edges[i]).crossed,
    ensures
        crossed_edges(edges) == 0,
    decreases edges.len(),
{
    if edges.len() > 0 {
        no_crossing_counts_nothing(edges.drop_last());
    }
}

proof fn the_last_crossing_counts_one(edges: Seq<EdgeFact>, k: int)
    requires
        0 <= k < edges.len(),
        edges[k].crossed,
        forall|i: int| k < i < edges.len() ==> !(#[trigger] edges[i]).crossed,
    ensures
        crossed_edges(edges) == crossed_edges(edges.subrange(0, k)) + 1,
    decreases edges.len(),
{
    if k == edges.len() - 1 {
        assert(edges.drop_last() =~= edges.subrange(0, k));
    } else {
        the_last_crossing_counts_one(edges.drop_last(), k);
        assert(edges.drop_last().subrange(0, k) =~= edges.subrange(0, k));
    }
}

/// A point a metre or more from every edge is outside where its ray crosses no
/// edge, inside where it crosses exactly one, and outside again where it
/// crosses exactly two.
pub proof fn few_crossings_decide(edges: Seq<EdgeFact>, j: int, k: int)
    requires
        edges.len() >= 3,
        !near(edges),
        0 <= j < k < edges.len(),
        forall|i: int| 0 <= i < edges.len() && i != j && i != k ==> !(#[trigger] edges[i]).crossed,
    ensures
        !edges[j].crossed && !edges[k].crossed ==> !inside(edges),
        edges[j].crossed != edges[k].crossed ==> inside(edges),
        edges[j].crossed && edges[k].crossed ==> !inside(edges),
{
    near_means_on_edge(edges);
    let before = edges.subrange(0, k);
    if edges[k].crossed {
        the_last_crossing_counts_one(edges, k);
        if edges[j].crossed {
            the_last_crossing_counts_one(before, j);
            no_crossing_counts_nothing(before.subrange(0, j));
        } else {
            no_crossing_counts_nothing(before);
        }
    } else if edges[j].crossed {
        the_last_crossing_counts_one(edges, j);
        no_crossing_counts_nothing(edges.subrange(0, j));
    } else {
        no_crossing_counts_nothing(edges);
    }
}

/// Where some edge's distance is a number below the largest one, the distance
/// to the polygon is that of one of its edges, with that edge's text, and no
/// edge is nearer.
pub proof fn polygon_distance_is_the_least(edges: Seq<EdgeFact>, w: int)
    requires
        0 <= w < edges.len(),
        -0x7F80_0000 <= f32_rank(edges[w].distance) < 0x7F7F_FFFF,
    ensures
        exists|k: int|
            0 <= k < edges.len() && polygon_distance(edges) == (#[trigger] edges[k]).distance
                && polygon_distance_text(edges) == edges[k].distance_text@,
        f32_ranked(polygon_distance(edges)),
        forall|i: int|
            0 <= i < edges.len() && f32_ranked((#[trigger] edges[i]).distance) ==> f32_rank(
                polygon_distance(edges),
            ) <= f32_rank(edges[i].distance),
{
    nearest_is_least(edges);
    let k = nearest(edges);
    f32_order_is_by_rank(edges[w].distance, 0x7F7F_FFFF);
    assert(k >= 0);
    assert(edges[k].distance == polygon_distance(edges));
}

proof fn nearest_is_least(edges: Seq<EdgeFact>)
    ensures
        ({
            let k = nearest(edges);
            &&& -1 <= k < edges.len()
            &&& k >= 0 ==> f32_ranked(edges[k].distance) && f32_rank(edges[k].distance)
                < 0x7F7F_FFFF
            &&& forall|i: int|
                0 <= i < edges.len() && f32_ranked((#[trigger] edges[i]).distance) ==> (if k >= 0 {
                    f32_rank(edges[k].distance) <= f32_rank(edges[i].distance)
                } else {
                    f32_rank(edges[i].distance) >= 0x7F7F_FFFF
                })
        }),
    decreases edges.len(),
{
    if edges.len() > 0 {
        let rest = edges.drop_last();
        nearest_is_least(rest);
        let k = nearest(rest);
        let best: u32 = if k < 0 {
            0x7F7F_FFFF
        } else {
            edges[k].distance
        };
        f32_order_is_by_rank(edges.last().distance, best);
        assert forall|i: int|
            0 <= i < edges.len() && f32_ranked((#[trigger] edges[i]).distance) implies (if nearest(
            edges,
        ) >= 0 {
            f32_rank(edges[nearest(edges)].distance) <= f32_rank(edges[i].distance)
        } else {
            f32_rank(edges[i].distance) >= 0x7F7F_FFFF
        }) by {
            if i < edges.len() - 1 {
                assert(rest[i] == edges[i]);
            }
        }
    }
}

// The rules.

/// Some error of the list names the rule.
pub open spec fn breaks(errors: Seq<ErrorModel>, rule: Seq<char>) -> bool {
    exists|i: int| 0 <= i < errors.len() && (#[trigger] errors[i]).rule == rule
}

/// `a` is a number above the number `b`.
pub open spec fn above(a: u32, b: u32) -> bool {
    f32_ranked(a) && f32_ranked(b) && f32_rank(a) > f32_rank(b)
}

proof fn above_means_less(a: u32, b: u32)
    ensures
        above(a, b) == f32_less(b, a),
{
    f32_order_is_by_rank(b, a);
}

/// The highest altitude of a vehicle type, as the pattern of a number of
/// metres: 120 for a quad, 150 for a fixed-wing or VTOL craft, none at all for
/// a rover.
pub open spec fn highest(vehicle_type: Seq<char>) -> Option<u32> {
    if vehicle_type == "quad"@ {
        Some(0x42F0_0000)
    } else if vehicle_type == "fixed"@ || vehicle_type == "vtol"@ {
        Some(0x4316_0000)
    } else if vehicle_type == "rover"@ {
        Some(0)
    } else {
        None
    }
}

/// The altitude is below the ground or above the vehicle type's highest.
pub open spec fn bad_altitude(m: MissionFile, i: int) -> bool {
    highest(m.mission.vehicle_type@) matches Some(top) && (above(0, m.waypoints@[i].z) || above(
        m.waypoints@[i].z,
        top,
    ))
}

pub open spec fn bad_command(command: u16) -> bool {
    !set![16u16, 17, 18, 19, 20, 21, 22, 31, 200].contains(command)
}

pub open spec fn bad_frame(frame: u8) -> bool {
    !set![0u8, 1, 3, 10, 11].contains(frame)
}

pub open spec fn has_fence(m: MissionFile) -> bool {
    m.geofence.inclusion@.len() != 0
}

pub open spec fn out_of_fence(facts: MissionFacts, i: int) -> bool {
    !within(facts.waypoints@[i].inclusion@)
}

/// The waypoint lies in some exclusion polygon.
pub open spec fn excluded(facts: MissionFacts, i: int) -> bool {
    exists|j: int|
        0 <= j < facts.waypoints@[i].exclusions@.len() && within(
            (#[trigger] facts.waypoints@[i].exclusions@[j])@,
        )
}

/// An altitude is above the fence's ceiling or below its floor.
pub open spec fn over_or_under(m: MissionFile, altitude: u32) -> bool {
    above(altitude, m.geofence.ceiling_m) || above(m.geofence.floor_m, altitude)
}

/// Two edges of a polygon of `n` are neighbours: they follow one another
/// around it.
pub open spec fn neighbours(i: int, k: int, n: int) -> bool {
    (i + 1) % n == k || (k + 1) % n == i
}

/// Two edges of the fence that are not neighbours cross.
pub open spec fn self_crossing(m: MissionFile, facts: MissionFacts) -> bool {
    let n = m.geofence.inclusion@.len() as int;
    n >= 4 && exists|i: int, k: int|
        0 <= i < k < n && !neighbours(i, k, n) && #[trigger] facts.crossings@[i]@[k]
}

proof fn breaks_apart(a: Seq<ErrorModel>, b: Seq<ErrorModel>, rule: Seq<char>)
    ensures
        breaks(a + b, rule) <==> breaks(a, rule) || breaks(b, rule),
{
    let s = a + b;
    if breaks(a, rule) {
        let i = choose|i: int| 0 <= i < a.len() && (#[trigger] a[i]).rule == rule;
        assert(s[i].rule == rule);
    }
    if breaks(b, rule) {
        let i = choose|i: int| 0 <= i < b.len() && (#[trigger] b[i]).rule == rule;
        assert(s[a.len() + i].rule == rule);
    }
    if breaks(s, rule) {
        let i = choose|i: int| 0 <= i < s.len() && (#[trigger] s[i]).rule == rule;
        if i < a.len() {
            assert(a[i].rule == rule);
        } else {
            assert(b[i - a.len()].rule == rule);
        }
    }
}

proof fn breaks_one(broken: bool, e: ErrorModel, rule: Seq<char>)
    ensures
        breaks(one_if(broken, e), rule) <==> broken && e.rule == rule,
{
    if broken {
        assert(one_if(broken, e)[0] == e);
    }
}

proof fn rules_differ()
    ensures
        forall|i: int, j: int|
            1 <= i <= 13 && 1 <= j <= 13 && #[trigger] rule_text(i) == #[trigger] rule_text(j)
                ==> i == j,
{
    reveal_strlit("V-1");
    reveal_strlit("V-2");
    reveal_strlit("V-3");
    reveal_strlit("V-4");
    reveal_strlit("V-5");
    reveal_strlit("V-6");
    reveal_strlit("V-7");
    reveal_strlit("V-8");
    reveal_strlit("V-9");
    reveal_strlit("V-10");
    reveal_strlit("V-11");
    reveal_strlit("V-12");
    reveal_strlit("V-13");
    assert forall|i: int, j: int|
        1 <= i <= 13 && 1 <= j <= 13 && #[trigger] rule_text(i) == #[trigger] rule_text(
            j,
        ) implies i == j by {
        assert(rule_text(i).len() == rule_text(j).len());
        assert(rule_text(i)[2] == rule_text(j)[2]);
        if rule_text(i).len() == 4 {
            assert(rule_text(i)[3] == rule_text(j)[3]);
        }
    }
}

/// The name of a rule.
pub open spec fn rule_text(i: int) -> Seq<char> {
    if i == 1 {
        "V-1"@
    } else if i == 2 {
        "V-2"@
    } else if i == 3 {
        "V-3"@
    } else if i == 4 {
        "V-4"@
    } else if i == 5 {
        "V-5"@
    } else if i == 6 {
        "V-6"@
    } else if i == 7 {
        "V-7"@
    } else if i == 8 {
        "V-8"@
    } else if i == 9 {
        "V-9"@
    } else if i == 10 {
        "V-10"@
    } else if i == 11 {
        "V-11"@
    } else if i == 12 {
        "V-12"@
    } else {
        "V-13"@
    }
}

/// What a rule says of waypoint `i`.
pub open spec fn waypoint_rule(m: MissionFile, facts: MissionFacts, i: int, rule: int) -> bool {
    if rule == 3 {
        has_fence(m) && out_of_fence(facts, i)
    } else if rule == 4 {
        excluded(facts, i)
    } else if rule == 5 {
        bad_altitude(m, i)
    } else if rule == 6 {
        has_fence(m) && over_or_under(m, m.waypoints@[i].z)
    } else if rule == 12 {
        bad_command(m.waypoints@[i].command)
    } else if rule == 13 {
        bad_frame(m.waypoints@[i].frame)
    } else {
        false
    }
}

/// What a rule says of rally point `i`.
pub open spec fn rally_rule(m: MissionFile, facts: MissionFacts, i: int, rule: int) -> bool {
    if rule == 10 {
        has_fence(m) && !within(facts.rally@[i].inclusion@)
    } else if rule == 11 {
        has_fence(m) && over_or_under(m, m.rally@[i].alt_m)
    } else {
        false
    }
}

/// What a rule says of the mission as a whole.
pub open spec fn whole_rule(m: MissionFile, facts: MissionFacts, rule: int) -> bool {
    let vertices = m.geofence.inclusion@.len();
    if rule == 1 {
        m.waypoints@.len() == 0
    } else if rule == 2 {
        m.waypoints@.len() > 100
    } else if rule == 5 {
        highest(m.mission.vehicle_type@) is None
    } else if rule == 7 {
        self_crossing(m, facts)
    } else if rule == 8 {
        vertices == 1 || vertices == 2
    } else if rule == 9 {
        m.rally@.len() > 5
    } else {
        false
    }
}

proof fn exclusion_rules(wp: Waypoint, p: PointFacts, n: nat, rule: Seq<char>)
    requires
        n <= p.exclusions@.len(),
    ensures
        breaks(exclusion_errors(wp, p, n), rule) <==> rule == "V-4"@ && exists|j: int|
            0 <= j < n && within((#[trigger] p.exclusions@[j])@),
    decreases n,
{
    if n > 0 {
        let k = n - 1;
        exclusion_rules(wp, p, k as nat, rule);
        inside_means_odd_or_near(p.exclusions@[k]@);
        breaks_apart(
            exclusion_errors(wp, p, k as nat),
            one_if(inside(p.exclusions@[k]@), excluded_error(wp, p, k)),
            rule,
        );
        breaks_one(inside(p.exclusions@[k]@), excluded_error(wp, p, k), rule);
    }
}

proof fn waypoint_rules(m: MissionFile, facts: MissionFacts, i: int, r: int)
    requires
        1 <= r <= 13,
    ensures
        breaks(waypoint_errors(m, facts, i), rule_text(r)) <==> waypoint_rule(m, facts, i, r),
{
    let wp = m.waypoints@[i];
    let p = facts.waypoints@[i];
    let rule = rule_text(r);
    rules_differ();
    assert(rule_text(3) == "V-3"@ && rule_text(4) == "V-4"@ && rule_text(5) == "V-5"@ && rule_text(
        6,
    ) == "V-6"@ && rule_text(12) == "V-12"@ && rule_text(13) == "V-13"@);
    let a = one_if(fenced(m) && !inside(p.inclusion@), outside_error(wp, p));
    let b = exclusion_errors(wp, p, p.exclusions@.len());
    let c = altitude_errors(m, wp, p);
    let d = ceiling_errors(m, facts, wp, p);
    let e = encoding_errors(wp);
    breaks_apart(a + b + c + d, e, rule);
    breaks_apart(a + b + c, d, rule);
    breaks_apart(a + b, c, rule);
    breaks_apart(a, b, rule);
    inside_means_odd_or_near(p.inclusion@);
    breaks_one(fenced(m) && !inside(p.inclusion@), outside_error(wp, p), rule);
    exclusion_rules(wp, p, p.exclusions@.len(), rule);
    altitude_rules(m, wp, p, rule);
    ceiling_rules(m, facts, wp, p, rule);
    encoding_rules(wp, rule);
    assert(bad_altitude(m, i) <==> breaks(c, "V-5"@)) by {
        altitude_rules(m, wp, p, "V-5"@);
    }
}

proof fn altitude_rules(m: MissionFile, wp: Waypoint, p: PointFacts, rule: Seq<char>)
    ensures
        breaks(altitude_errors(m, wp, p), rule) <==> rule == "V-5"@ && (highest(
            m.mission.vehicle_type@,
        ) matches Some(top) && (above(0, wp.z) || above(wp.z, top))),
{
    if let Some((min, max)) = bounds_of(m.mission.vehicle_type@) {
        above_means_less(min, wp.z);
        above_means_less(wp.z, max);
        if f32_less(wp.z, min) || f32_less(max, wp.z) {
            assert(altitude_errors(m, wp, p)[0].rule == "V-5"@);
        }
    }
}

proof fn ceiling_rules(
    m: MissionFile,
    facts: MissionFacts,
    wp: Waypoint,
    p: PointFacts,
    rule: Seq<char>,
)
    ensures
        breaks(ceiling_errors(m, facts, wp, p), rule) <==> rule == "V-6"@ && has_fence(m)
            && over_or_under(m, wp.z),
{
    let s = ceiling_errors(m, facts, wp, p);
    above_means_less(wp.z, m.geofence.ceiling_m);
    above_means_less(m.geofence.floor_m, wp.z);
    if s.len() > 0 {
        assert(s[0].rule == "V-6"@);
    }
}

proof fn encoding_rules(wp: Waypoint, rule: Seq<char>)
    ensures
        breaks(encoding_errors(wp), rule) <==> (rule == "V-12"@ && bad_command(wp.command)) || (rule
            == "V-13"@ && bad_frame(wp.frame)),
{
    let s = encoding_errors(wp);
    if s.len() > 0 {
        assert(s[0].rule == "V-12"@ || s[0].rule == "V-13"@);
    }
    if s.len() > 1 {
        assert(s[1].rule == "V-13"@);
    }
    assert(bad_command(wp.command) <==> !command_known(wp.command));
    assert(bad_frame(wp.frame) <==> !frame_known(wp.frame));
}

proof fn waypoints_rules(m: MissionFile, facts: MissionFacts, n: nat, r: int)
    requires
        1 <= r <= 13,
    ensures
        breaks(waypoints_errors(m, facts, n), rule_text(r)) <==> exists|i: int|
            0 <= i < n && #[trigger] waypoint_rule(m, facts, i, r),
    decreases n,
{
    if n > 0 {
        let k = n - 1;
        waypoints_rules(m, facts, k as nat, r);
        waypoint_rules(m, facts, k, r);
        breaks_apart(
            waypoints_errors(m, facts, k as nat),
            waypoint_errors(m, facts, k),
            rule_text(r),
        );
        if waypoint_rule(m, facts, k, r) {
            assert(0 <= k < n && waypoint_rule(m, facts, k, r));
        }
    }
}

proof fn rally_rules(m: MissionFile, facts: MissionFacts, i: int, r: int)
    requires
        1 <= r <= 13,
    ensures
        breaks(rally_errors(m, facts, i), rule_text(r)) <==> rally_rule(m, facts, i, r),
{
    let s = rally_errors(m, facts, i);
    let rp = m.rally@[i];
    rules_differ();
    assert(rule_text(10) == "V-10"@ && rule_text(11) == "V-11"@);
    inside_means_odd_or_near(facts.rally@[i].inclusion@);
    above_means_less(rp.alt_m, m.geofence.ceiling_m);
    above_means_less(m.geofence.floor_m, rp.alt_m);
    if s.len() > 0 {
        assert(s[0].rule == "V-10"@ || s[0].rule == "V-11"@);
    }
    if s.len() > 1 {
        assert(s[1].rule == "V-11"@);
    }
}

proof fn rallies_rules(m: MissionFile, facts: MissionFacts, n: nat, r: int)
    requires
        1 <= r <= 13,
    ensures
        breaks(rallies_errors(m, facts, n), rule_text(r)) <==> exists|i: int|
            0 <= i < n && #[trigger] rally_rule(m, facts, i, r),
    decreases n,
{
    if n > 0 {
        let k = n - 1;
        rallies_rules(m, facts, k as nat, r);
        rally_rules(m, facts, k, r);
        breaks_apart(rallies_errors(m, facts, k as nat), rally_errors(m, facts, k), rule_text(r));
        if rally_rule(m, facts, k, r) {
            assert(0 <= k < n && rally_rule(m, facts, k, r));
        }
    }
}

proof fn neighbours_share_a_vertex(i: int, k: int, n: int)
    requires
        0 <= i < k < n,
        n >= 4,
    ensures
        neighbours(i, k, n) == adjacent(i, k, n),
{
    if i + 1 < n {
        vstd::arithmetic::div_mod::lemma_small_mod((i + 1) as nat, n as nat);
    }
    if k + 1 < n {
        vstd::arithmetic::div_mod::lemma_small_mod((k + 1) as nat, n as nat);
    } else {
        vstd::arithmetic::div_mod::lemma_mod_self_0(n);
    }
}

proof fn crossing_means_not_simple(m: MissionFile, facts: MissionFacts)
    ensures
        self_crossing(m, facts) <==> !simple(m.geofence.inclusion@.len(), facts.crossings@),
{
    let n = m.geofence.inclusion@.len() as int;
    if n >= 4 {
        assert forall|i: int, k: int| 0 <= i < k < n implies neighbours(i, k, n) == adjacent(
            i,
            k,
            n,
        ) by {
            neighbours_share_a_vertex(i, k, n);
        }
        if self_crossing(m, facts) {
            let (i, k) = choose|i: int, k: int|
                0 <= i < k < n && !neighbours(i, k, n) && #[trigger] facts.crossings@[i]@[k];
            assert(!adjacent(i, k, n));
        }
        if !simple(n as nat, facts.crossings@) {
            let (i, k) = choose|i: int, k: int|
                0 <= i < k < n && !adjacent(i, k, n) && #[trigger] facts.crossings@[i]@[k];
            assert(!neighbours(i, k, n));
        }
    }
}

proof fn whole_rules(m: MissionFile, facts: MissionFacts, r: int)
    requires
        1 <= r <= 13,
    ensures
        breaks(count_errors(m), rule_text(r)) || breaks(type_errors(m), rule_text(r)) || breaks(
            fence_errors(m, facts),
            rule_text(r),
        ) || breaks(rally_count_errors(m), rule_text(r)) <==> whole_rule(m, facts, r),
{
    let rule = rule_text(r);
    rules_differ();
    crossing_means_not_simple(m, facts);
    assert(rule_text(1) == "V-1"@ && rule_text(2) == "V-2"@ && rule_text(5) == "V-5"@ && rule_text(
        7,
    ) == "V-7"@ && rule_text(8) == "V-8"@ && rule_text(9) == "V-9"@);
    let a = count_errors(m);
    let b = type_errors(m);
    let c = fence_errors(m, facts);
    let d = rally_count_errors(m);
    assert(a.len() <= 1 && (a.len() == 1 <==> m.waypoints@.len() == 0 || m.waypoints@.len() > 100));
    if a.len() > 0 {
        assert(a[0].rule == (if m.waypoints@.len() == 0 {
            "V-1"@
        } else {
            "V-2"@
        }));
    }
    if b.len() > 0 {
        assert(b[0].rule == "V-5"@);
    }
    if c.len() > 0 {
        assert(c[0].rule == "V-7"@ || c[0].rule == "V-8"@);
    }
    if c.len() > 1 {
        assert(c[1].rule == "V-8"@);
    }
    if d.len() > 0 {
        assert(d[0].rule == "V-9"@);
    }
}

/// A rule is reported exactly where it is broken: by the mission as a whole,
/// by some waypoint or by some rally point.
pub proof fn each_rule_is_reported_where_broken(m: MissionFile, facts: MissionFacts, rule: int)
    requires
        1 <= rule <= 13,
    ensures
        breaks(mission_errors(m, facts), rule_text(rule)) <==> {
            ||| whole_rule(m, facts, rule)
            ||| exists|i: int|
                0 <= i < m.waypoints@.len() && #[trigger] waypoint_rule(m, facts, i, rule)
            ||| exists|i: int|
                0 <= i < m.rally@.len() && #[trigger] rally_rule(m, facts, i, rule)
        },
{
    let t = rule_text(rule);
    let a = count_errors(m);
    let b = type_errors(m);
    let c = fence_errors(m, facts);
    let d = waypoints_errors(m, facts, m.waypoints@.len());
    let e = rally_count_errors(m);
    let f = rallies_errors(m, facts, m.rally@.len());
    breaks_apart(a, b, t);
    breaks_apart(a + b, c, t);
    breaks_apart(a + b + c, d, t);
    breaks_apart(a + b + c + d, e, t);
    breaks_apart(a + b + c + d + e, f, t);
    whole_rules(m, facts, rule);
    waypoints_rules(m, facts, m.waypoints@.len(), rule);
    rallies_rules(m, facts, m.rally@.len(), rule);
}

/// Every error of the list names one of the thirteen rules and concerns the
/// given point.
pub open spec fn named_and_about(errors: Seq<ErrorModel>, seq: Option<u16>) -> bool {
    forall|i: int|
        0 <= i < errors.len() ==> (#[trigger] errors[i]).seq == seq && is_rule(errors[i].rule)
}

pub open spec fn is_rule(rule: Seq<char>) -> bool {
    exists|r: int| 1 <= r <= 13 && #[trigger] rule_text(r) == rule
}

proof fn every_text_is_a_rule()
    ensures
        is_rule("V-1"@) && is_rule("V-2"@) && is_rule("V-3"@) && is_rule("V-4"@) && is_rule("V-5"@)
            && is_rule("V-6"@) && is_rule("V-7"@) && is_rule("V-8"@) && is_rule("V-9"@) && is_rule(
            "V-10"@,
        ) && is_rule("V-11"@) && is_rule("V-12"@) && is_rule("V-13"@),
{
    assert(rule_text(1) == "V-1"@ && rule_text(2) == "V-2"@ && rule_text(3) == "V-3"@);
    assert(rule_text(4) == "V-4"@ && rule_text(5) == "V-5"@ && rule_text(6) == "V-6"@);
    assert(rule_text(7) == "V-7"@ && rule_text(8) == "V-8"@ && rule_text(9) == "V-9"@);
    assert(rule_text(10) == "V-10"@ && rule_text(11) == "V-11"@ && rule_text(12) == "V-12"@);
    assert(rule_text(13) == "V-13"@);
}

proof fn named_join(a: Seq<ErrorModel>, b: Seq<ErrorModel>, seq: Option<u16>)
    requires
        named_and_about(a, seq),
        named_and_about(b, seq),
    ensures
        named_and_about(a + b, seq),
{
}

proof fn exclusions_are_named(wp: Waypoint, p: PointFacts, n: nat)
    ensures
        named_and_about(exclusion_errors(wp, p, n), Some(wp.seq)),
    decreases n,
{
    every_text_is_a_rule();
    if n > 0 {
        exclusions_are_named(wp, p, (n - 1) as nat);
    }
}

/// Every error about a waypoint carries that waypoint's number, every error
/// about a rally point that rally point's, and an error about the mission as a
/// whole carries none. A point outside the fence, or inside an exclusion
/// polygon, is reported with its distance to that polygon.
pub proof fn errors_point_at_their_subject(m: MissionFile, facts: MissionFacts, i: int)
    ensures
        named_and_about(waypoint_errors(m, facts, i), Some(m.waypoints@[i].seq)),
        named_and_about(rally_errors(m, facts, i), Some(m.rally@[i].seq)),
        named_and_about(count_errors(m), None),
        named_and_about(type_errors(m), None),
        named_and_about(fence_errors(m, facts), None),
        named_and_about(rally_count_errors(m), None),
        has_fence(m) && out_of_fence(facts, i) ==> waypoint_errors(m, facts, i)[0].rule == "V-3"@
            && waypoint_errors(m, facts, i)[0].distance == Some(
            polygon_distance(facts.waypoints@[i].inclusion@),
        ),
        has_fence(m) && !within(facts.rally@[i].inclusion@) ==> rally_errors(m, facts, i)[0].rule
            == "V-10"@ && rally_errors(m, facts, i)[0].distance == Some(
            polygon_distance(facts.rally@[i].inclusion@),
        ),
{
    waypoint_errors_are_named(m, facts, i);
    rally_errors_are_named(m, facts, i);
    whole_errors_are_named(m, facts);
}

proof fn waypoint_errors_are_named(m: MissionFile, facts: MissionFacts, i: int)
    ensures
        named_and_about(waypoint_errors(m, facts, i), Some(m.waypoints@[i].seq)),
        has_fence(m) && out_of_fence(facts, i) ==> waypoint_errors(m, facts, i)[0].rule == "V-3"@
            && waypoint_errors(m, facts, i)[0].distance == Some(
            polygon_distance(facts.waypoints@[i].inclusion@),
        ),
{
    every_text_is_a_rule();
    let wp = m.waypoints@[i];
    let p = facts.waypoints@[i];
    let a = one_if(fenced(m) && !inside(p.inclusion@), outside_error(wp, p));
    let b = exclusion_errors(wp, p, p.exclusions@.len());
    let c = altitude_errors(m, wp, p);
    let d = ceiling_errors(m, facts, wp, p);
    let e = encoding_errors(wp);
    exclusions_are_named(wp, p, p.exclusions@.len());
    inside_means_odd_or_near(p.inclusion@);
    assert(named_and_about(c, Some(wp.seq)));
    assert(named_and_about(d, Some(wp.seq)));
    assert(named_and_about(e, Some(wp.seq)));
    named_join(a, b, Some(wp.seq));
    named_join(a + b, c, Some(wp.seq));
    named_join(a + b + c, d, Some(wp.seq));
    named_join(a + b + c + d, e, Some(wp.seq));
}

proof fn rally_errors_are_named(m: MissionFile, facts: MissionFacts, i: int)
    ensures
        named_and_about(rally_errors(m, facts, i), Some(m.rally@[i].seq)),
        has_fence(m) && !within(facts.rally@[i].inclusion@) ==> rally_errors(m, facts, i)[0].rule
            == "V-10"@ && rally_errors(m, facts, i)[0].distance == Some(
            polygon_distance(facts.rally@[i].inclusion@),
        ),
{
    every_text_is_a_rule();
    inside_means_odd_or_near(facts.rally@[i].inclusion@);
}

proof fn whole_errors_are_named(m: MissionFile, facts: MissionFacts)
    ensures
        named_and_about(count_errors(m), None),
        named_and_about(type_errors(m), None),
        named_and_about(fence_errors(m, facts), None),
        named_and_about(rally_count_errors(m), None),
{
    every_text_is_a_rule();
}

proof fn waypoints_are_named(m: MissionFile, facts: MissionFacts, n: nat)
    ensures
        forall|i: int|
            0 <= i < waypoints_errors(m, facts, n).len() ==> is_rule(
                (#[trigger] waypoints_errors(m, facts, n)[i]).rule,
            ),
    decreases n,
{
    if n > 0 {
        waypoints_are_named(m, facts, (n - 1) as nat);
        errors_point_at_their_subject(m, facts, n - 1);
    }
}

proof fn rallies_are_named(m: MissionFile, facts: MissionFacts, n: nat)
    ensures
        forall|i: int|
            0 <= i < rallies_errors(m, facts, n).len() ==> is_rule(
                (#[trigger] rallies_errors(m, facts, n)[i]).rule,
            ),
    decreases n,
{
    if n > 0 {
        rallies_are_named(m, facts, (n - 1) as nat);
        errors_point_at_their_subject(m, facts, n - 1);
    }
}

/// A mission is valid exactly where it breaks none of the thirteen rules.
pub proof fn valid_means_no_rule_is_broken(m: MissionFile, facts: MissionFacts)
    ensures
        mission_errors(m, facts).len() == 0 <==> forall|rule: int|
            1 <= rule <= 13 ==> !#[trigger] breaks(mission_errors(m, facts), rule_text(rule)),
{
    let all = mission_errors(m, facts);
    if all.len() > 0 {
        waypoints_are_named(m, facts, m.waypoints@.len());
        rallies_are_named(m, facts, m.rally@.len());
        errors_point_at_their_subject(m, facts, 0);
        assert(is_rule(all[0].rule));
        let r = choose|r: int| 1 <= r <= 13 && #[trigger] rule_text(r) == all[0].rule;
        assert(breaks(all, rule_text(r)));
    }
}

} // verus!
