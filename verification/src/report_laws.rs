//! How answers, messages and moments are put into words.

use vstd::prelude::*;
#[allow(unused_imports)]
use crate::engage::{ack_kind, ack_line, result_text};
#[allow(unused_imports)]
use crate::events::EventKind;
#[allow(unused_imports)]
use crate::fleet::FleetModel;
#[allow(unused_imports)]
use crate::link::CmdAck;
#[allow(unused_imports)]
use crate::messages::name_of;
#[allow(unused_imports)]
use crate::operator::{accepted_word, ack_word, index_gate, param_line, upper_digit, upper_hex};
#[allow(unused_imports)]
use crate::simctl::{filled, interpreters, or_else};
#[allow(unused_imports)]
use crate::stamp::{date_is_unique, day_number, days_of, stamp_text, stamps, time_of_day, valid_date};
#[allow(unused_imports)]
use crate::store::{mission_place, presets_place};
#[allow(unused_imports)]
use crate::supervisor::{failsafe_settled, SupModel};
#[allow(unused_imports)]
use crate::text::{decimal, path_joined, replaced, starts};

verus! {

// Answers.

/// Each result of a command has its name; a number without one is unknown.
pub proof fn results_have_names(r: u8)
    ensures
        result_text(0) == "ACCEPTED"@,
        result_text(1) == "TEMPORARILY_REJECTED"@,
        result_text(2) == "DENIED"@,
        result_text(3) == "UNSUPPORTED"@,
        result_text(4) == "FAILED"@,
        result_text(5) == "IN_PROGRESS"@,
        r > 5 ==> result_text(r) == "UNKNOWN"@,
{
}

/// An accepted command is an action of the supervisor, any other answer an
/// escalation of the link. A refusal is told with its number and name, a
/// command without answer with the number of attempts.
pub proof fn answers_are_logged(label: Seq<char>, result: u8, attempts: u32)
    ensures
        ack_kind(CmdAck::Accepted) == EventKind::SupervisorAction,
        ack_kind(CmdAck::Rejected { result }) == EventKind::LinkEscalation,
        ack_kind(CmdAck::Timeout { attempts }) == EventKind::LinkEscalation,
        ack_line(label, CmdAck::Accepted) == label + " ACKed (MAV_RESULT_ACCEPTED)"@,
        ack_line(label, CmdAck::Rejected { result }) == label + " rejected: result="@ + decimal(
            result as nat,
        ) + " ("@ + result_text(result) + ")"@,
        ack_line(label, CmdAck::Timeout { attempts }) == label + ": no COMMAND_ACK after "@
            + decimal(attempts as nat) + " attempts (500 ms retry ladder, §3.2)"@,
        ack_word(CmdAck::Accepted) == "ACCEPTED"@,
        accepted_word(true) == "ACCEPTED"@,
        accepted_word(false) == "not accepted"@,
{
}

/// A vehicle of the fleet passes, any other is refused with 404.
pub proof fn indices_are_checked(m: FleetModel, index: u8)
    ensures
        index < m.count ==> index_gate(m, index) is Ok,
        index >= m.count ==> index_gate(m, index) is Err && index_gate(m, index)->Err_0.status
            == 404,
{
}

/// A parameter write is logged as confirmed exactly where its echo came.
pub proof fn parameter_writes_are_logged(
    id: Seq<char>,
    value: Seq<char>,
    wire_type: u8,
)
    ensures
        ({
            let head = "setup: param write "@ + id + "="@ + value + " (type "@ + decimal(
                wire_type as nat,
            ) + ") via API — "@;
            &&& param_line(id, value, wire_type, true) == head + "echo confirmed"@
            &&& param_line(id, value, wire_type, false) == head
                + "UNCONFIRMED (no PARAM_VALUE echo)"@
        }),
{
}

/// A datalink failsafe that was not echoed is an escalation of the link.
pub proof fn unconfirmed_failsafe_escalates(m: SupModel, i: u8, v: Seq<char>)
    ensures
        failsafe_settled(m, i, Some(v)).log.last().kind == EventKind::SupervisorAction,
        failsafe_settled(m, i, None).log.last().kind == EventKind::LinkEscalation,
        failsafe_settled(m, i, Some(v)).log.last().vehicle == Some(i),
        failsafe_settled(m, i, None).log.last().vehicle == Some(i),
        failsafe_settled(m, i, Some(v)).states == m.states,
{
}

/// Hexadecimal digits of a number: the last of `n + 1` stands for what is left
/// over by sixteen, the others for the rest.
pub proof fn hexadecimal_goes_by_sixteens(v: nat, n: nat)
    ensures
        ({
            let digits = seq![
                '0', '1', '2', '3', '4', '5', '6', '7', '8', '9', 'A', 'B', 'C', 'D', 'E', 'F',
            ];
            upper_hex(v, n + 1) == upper_hex(v / 16, n).push(digits[(v % 16) as int])
        }),
        upper_hex(v, 0).len() == 0,
{
    let digits = seq![
        '0', '1', '2', '3', '4', '5', '6', '7', '8', '9', 'A', 'B', 'C', 'D', 'E', 'F',
    ];
    assert forall|d: int| 0 <= d < 16 implies #[trigger] upper_digit(d) == digits[d] by {}
    assert(upper_digit((v % 16) as int) == digits[(v % 16) as int]);
}

// Messages.

/// Each message of the dialect goes by its own name, any other by its number.
pub proof fn messages_have_names(id: u32)
    ensures
        name_of(0) == "HEARTBEAT"@ && name_of(1) == "SYS_STATUS"@ && name_of(4) == "PING"@
            && name_of(21) == "PARAM_REQUEST_LIST"@ && name_of(22) == "PARAM_VALUE"@ && name_of(23)
            == "PARAM_SET"@ && name_of(30) == "ATTITUDE"@ && name_of(32) == "LOCAL_POSITION_NED"@
            && name_of(33) == "GLOBAL_POSITION_INT"@ && name_of(40) == "MISSION_REQUEST"@
            && name_of(43) == "MISSION_REQUEST_LIST"@ && name_of(44) == "MISSION_COUNT"@ && name_of(
            47,
        ) == "MISSION_ACK"@ && name_of(51) == "MISSION_REQUEST_INT"@ && name_of(73)
            == "MISSION_ITEM_INT"@ && name_of(76) == "COMMAND_LONG"@ && name_of(77)
            == "COMMAND_ACK"@ && name_of(84) == "SET_POSITION_TARGET_LOCAL_NED"@ && name_of(147)
            == "BATTERY_STATUS"@ && name_of(242) == "HOME_POSITION"@ && name_of(253)
            == "STATUSTEXT"@,
        !set![
            0u32, 1, 4, 21, 22, 23, 30, 32, 33, 40, 43, 44, 47, 51, 73, 76, 77, 84, 147, 242, 253,
        ].contains(id) ==> name_of(id) == "MSG_"@ + decimal(id as nat),
{
}

// Moments and places.

/// A moment has one stamp.
pub proof fn a_moment_has_one_stamp(s: Seq<char>, t: Seq<char>, secs: u64)
    requires
        stamps(s, secs),
        stamps(t, secs),
    ensures
        s == t,
{
    let h = time_of_day(secs) / 3600;
    let n = time_of_day(secs) % 3600 / 60;
    let c = time_of_day(secs) % 60;
    let (y1, m1, d1) = choose|year: nat, month: nat, day: nat|
        valid_date(year as int, month as int, day as int) && day_number(
            year as int,
            month as int,
            day as int,
        ) == days_of(secs) && s == #[trigger] stamp_text(year, month, day, h, n, c);
    let (y2, m2, d2) = choose|year: nat, month: nat, day: nat|
        valid_date(year as int, month as int, day as int) && day_number(
            year as int,
            month as int,
            day as int,
        ) == days_of(secs) && t == #[trigger] stamp_text(year, month, day, h, n, c);
    date_is_unique(y1 as int, m1 as int, d1 as int, y2 as int, m2 as int, d2 as int);
}

/// Missions stand under the root by their id, presets by their vehicle.
pub proof fn stored_things_have_their_places(root: Seq<char>, id: Seq<char>, vehicle: u8)
    ensures
        mission_place(root, id) == path_joined(path_joined(root, "missions"@), id),
        presets_place(root, vehicle) == path_joined(
            path_joined(root, "presets"@),
            "vehicle_"@ + decimal(vehicle as nat),
        ),
{
}

// Starting the simulator.

/// What is configured goes before what the environment sets. An interpreter
/// the environment names is tried first, then the newer one, then any.
pub proof fn configuration_goes_first(a: Seq<char>, b: Option<Seq<char>>)
    ensures
        or_else(Some(a), b) == Some(a),
        or_else(None, b) == b,
        interpreters(Some(a)) == seq![a, "python3.13"@, "python3"@],
        interpreters(None) == seq!["python3.13"@, "python3"@],
{
}

/// No opening brace stands in the text.
pub open spec fn braceless(s: Seq<char>) -> bool {
    forall|i: int| 0 <= i < s.len() ==> #[trigger] s[i] != '{'
}

proof fn braceless_stays(s: Seq<char>, p: Seq<char>, w: Seq<char>)
    requires
        p.len() > 0,
        p[0] == '{',
        braceless(s),
    ensures
        replaced(s, p, w) == s,
    decreases s.len(),
{
    if s.len() > 0 {
        let t = s.drop_first();
        assert forall|i: int| 0 <= i < t.len() implies #[trigger] t[i] != '{' by {
            assert(t[i] == s[i + 1]);
        }
        braceless_stays(t, p, w);
        if starts(s, p) {
            assert(s.subrange(0, p.len() as int)[0] == p[0]);
        }
        assert(seq![s[0]] + t =~= s);
    }
}

proof fn other_placeholder_stays(s: Seq<char>, p: Seq<char>, w: Seq<char>)
    requires
        s.len() > 1,
        p.len() > 1,
        p[0] == '{',
        s[1] != p[1],
        braceless(s.drop_first()),
    ensures
        replaced(s, p, w) == s,
{
    if starts(s, p) {
        assert(s.subrange(0, p.len() as int)[1] == p[1]);
        assert(s[1] == p[1]);
    }
    braceless_stays(s.drop_first(), p, w);
    assert(seq![s[0]] + s.drop_first() =~= s);
}

proof fn placeholder_is_replaced(p: Seq<char>, w: Seq<char>, rest: Seq<char>)
    requires
        p.len() > 0,
        p[0] == '{',
        braceless(rest),
    ensures
        replaced(p + rest, p, w) == w + rest,
{
    let s = p + rest;
    assert(s.subrange(0, p.len() as int) =~= p);
    assert(s.subrange(p.len() as int, s.len() as int) =~= rest);
    braceless_stays(rest, p, w);
}

proof fn decimals_are_braceless(n: nat)
    ensures
        braceless(decimal(n)),
    decreases n,
{
    if n >= 10 {
        decimals_are_braceless(n / 10);
    }
}

/// In a simulator's command the port stands for the vehicle's HIL port, 4560
/// and its index, the instance for its index and the system number for one
/// more.
pub proof fn template_is_filled_in(
    instance: u8,
    duration: Seq<char>,
    sitsim: Seq<char>,
    script: Seq<char>,
    rest: Seq<char>,
)
    requires
        braceless(rest),
    ensures
        filled("{hil_port}"@ + rest, instance, duration, sitsim, script) == decimal(
            (4560 + instance) as nat,
        ) + rest,
        filled("{instance}"@ + rest, instance, duration, sitsim, script) == decimal(
            instance as nat,
        ) + rest,
        filled("{sysid}"@ + rest, instance, duration, sitsim, script) == decimal(
            (instance + 1) as nat,
        ) + rest,
        filled(rest, instance, duration, sitsim, script) == rest,
{
    reveal_strlit("{hil_port}");
    reveal_strlit("{instance}");
    reveal_strlit("{sysid}");
    reveal_strlit("{duration_s}");
    reveal_strlit("{sitsim}");
    reveal_strlit("{sim_script}");
    let port = "{hil_port}"@;
    let inst = "{instance}"@;
    let sysid = "{sysid}"@;
    let a = decimal((4560 + instance) as nat);
    let b = decimal(instance as nat);
    let c = decimal((instance + 1) as nat);
    assert(port[0] == '{' && inst[0] == '{' && sysid[0] == '{');
    decimals_are_braceless((4560 + instance) as nat);
    decimals_are_braceless(instance as nat);
    decimals_are_braceless((instance + 1) as nat);
    placeholder_is_replaced(port, a, rest);
    rest_stays(a + rest, instance, duration, sitsim, script);
    let s = inst + rest;
    assert(s.len() > 1 && s[1] == 'i' && port[1] == 'h');
    behind_the_brace(inst, rest);
    other_placeholder_stays(s, port, a);
    placeholder_is_replaced(inst, b, rest);
    rest_stays(b + rest, instance, duration, sitsim, script);
    let t = sysid + rest;
    assert(t.len() > 1 && t[1] == 's' && inst[1] == 'i');
    behind_the_brace(sysid, rest);
    other_placeholder_stays(t, port, a);
    other_placeholder_stays(t, inst, b);
    placeholder_is_replaced(sysid, c, rest);
    rest_stays(c + rest, instance, duration, sitsim, script);
    rest_stays(rest, instance, duration, sitsim, script);
}

proof fn behind_the_brace(p: Seq<char>, rest: Seq<char>)
    requires
        p.len() > 0,
        braceless(p.drop_first()),
        braceless(rest),
    ensures
        braceless((p + rest).drop_first()),
{
    let s = (p + rest).drop_first();
    assert forall|i: int| 0 <= i < s.len() implies #[trigger] s[i] != '{' by {
        if i < p.len() - 1 {
            assert(s[i] == p.drop_first()[i]);
        } else {
            assert(s[i] == rest[i - (p.len() - 1)]);
        }
    }
}

proof fn rest_stays(
    s: Seq<char>,
    instance: u8,
    duration: Seq<char>,
    sitsim: Seq<char>,
    script: Seq<char>,
)
    requires
        braceless(s),
    ensures
        filled(s, instance, duration, sitsim, script) == s,
        replaced(s, "{instance}"@, decimal(instance as nat)) == s,
        replaced(s, "{sysid}"@, decimal((instance + 1) as nat)) == s,
        replaced(s, "{duration_s}"@, duration) == s,
        replaced(s, "{sitsim}"@, sitsim) == s,
        replaced(s, "{sim_script}"@, script) == s,
{
    reveal_strlit("{hil_port}");
    reveal_strlit("{instance}");
    reveal_strlit("{sysid}");
    reveal_strlit("{duration_s}");
    reveal_strlit("{sitsim}");
    reveal_strlit("{sim_script}");
    braceless_stays(s, "{hil_port}"@, decimal((4560 + instance) as nat));
    braceless_stays(s, "{instance}"@, decimal(instance as nat));
    braceless_stays(s, "{sysid}"@, decimal((instance + 1) as nat));
    braceless_stays(s, "{duration_s}"@, duration);
    braceless_stays(s, "{sitsim}"@, sitsim);
    braceless_stays(s, "{sim_script}"@, script);
}

} // verus!
