//! Sequences of vehicle commands: arming with retries and switching to
//! offboard control, landing and disarming.

use vstd::prelude::*;
use crate::events::EventKind;
use crate::link::CmdAck;
use crate::text::push_decimal;
#[allow(unused_imports)]
use crate::text::decimal;

verus! {

/// Attempts at arming before the sequence goes on regardless.
pub const ARM_ATTEMPTS: u8 = 4;

/// Pause between two attempts.
pub const ARM_RETRY_MS: u64 = 1500;

/// Pause before the mode switch.
pub const MODE_SETTLE_MS: u64 = 200;

/// Names of command results.
pub open spec fn result_text(r: u8) -> Seq<char> {
    if r == 0 {
        "ACCEPTED"@
    } else if r == 1 {
        "TEMPORARILY_REJECTED"@
    } else if r == 2 {
        "DENIED"@
    } else if r == 3 {
        "UNSUPPORTED"@
    } else if r == 4 {
        "FAILED"@
    } else if r == 5 {
        "IN_PROGRESS"@
    } else {
        "UNKNOWN"@
    }
}

/// The name of a command result.
pub fn result_name(r: u8) -> (name: &'static str)
    ensures
        name@ == result_text(r),
{
    match r {
        0 => "ACCEPTED",
        1 => "TEMPORARILY_REJECTED",
        2 => "DENIED",
        3 => "UNSUPPORTED",
        4 => "FAILED",
        5 => "IN_PROGRESS",
        _ => "UNKNOWN",
    }
}

/// Anything but an acceptance is an escalation.
pub open spec fn ack_kind(ack: CmdAck) -> EventKind {
    match ack {
        CmdAck::Accepted => EventKind::SupervisorAction,
        _ => EventKind::LinkEscalation,
    }
}

pub open spec fn ack_line(label: Seq<char>, ack: CmdAck) -> Seq<char> {
    match ack {
        CmdAck::Accepted => label + " ACKed (MAV_RESULT_ACCEPTED)"@,
        CmdAck::Rejected { result } => label + " rejected: result="@ + decimal(result as nat)
            + " ("@ + result_text(result) + ")"@,
        CmdAck::Timeout { attempts } => label + ": no COMMAND_ACK after "@ + decimal(
            attempts as nat,
        ) + " attempts (500 ms retry ladder, §3.2)"@,
    }
}

/// How the answer to a command is logged.
pub fn ack_text(label: &str, ack: CmdAck) -> (r: String)
    ensures
        r@ == ack_line(label@, ack),
{
    let mut s = String::from_str(label);
    match ack {
        CmdAck::Accepted => {
            s.append(" ACKed (MAV_RESULT_ACCEPTED)");
        },
        CmdAck::Rejected { result } => {
            s.append(" rejected: result=");
            push_decimal(&mut s, result as u64);
            s.append(" (");
            s.append(result_name(result));
            s.append(")");
        },
        CmdAck::Timeout { attempts } => {
            s.append(": no COMMAND_ACK after ");
            push_decimal(&mut s, attempts as u64);
            s.append(" attempts (500 ms retry ladder, §3.2)");
        },
    }
    s
}

/// Where an engage sequence stands.
#[derive(Debug, Clone, Copy, PartialEq, Eq, Structural)]
pub enum EngageStep {
    /// Arm the vehicle, for the `attempt`th time.
    Arm { attempt: u8 },
    /// Switch to offboard control.
    SetMode,
    Finished,
}

/// A refusal that a later attempt may not meet: the vehicle's sensors are
/// still settling.
pub open spec fn transient(ack: CmdAck) -> bool {
    match ack {
        CmdAck::Rejected { result } => result == 1 || result == 5,
        _ => false,
    }
}

pub open spec fn engage_begun(arm: bool) -> EngageStep {
    if arm {
        EngageStep::Arm { attempt: 1 }
    } else {
        EngageStep::SetMode
    }
}

/// After an answer: arming is tried again on a transient refusal as long as
/// attempts are left, then the mode is switched whatever the answer was.
pub open spec fn engaged(step: EngageStep, ack: CmdAck) -> EngageStep {
    match step {
        EngageStep::Arm { attempt } => if transient(ack) && attempt < ARM_ATTEMPTS {
            EngageStep::Arm { attempt: (attempt + 1) as u8 }
        } else {
            EngageStep::SetMode
        },
        _ => EngageStep::Finished,
    }
}

/// How long a step waits before its command goes out.
pub open spec fn pause_before(step: EngageStep) -> u64 {
    match step {
        EngageStep::Arm { attempt } => if attempt <= 1 {
            0
        } else {
            ARM_RETRY_MS
        },
        EngageStep::SetMode => MODE_SETTLE_MS,
        EngageStep::Finished => 0,
    }
}

impl EngageStep {
    pub fn first(arm: bool) -> (r: Self)
        ensures
            r == engage_begun(arm),
    {
        if arm {
            EngageStep::Arm { attempt: 1 }
        } else {
            EngageStep::SetMode
        }
    }

    pub fn next(self, ack: CmdAck) -> (r: Self)
        ensures
            r == engaged(self, ack),
    {
        match self {
            EngageStep::Arm { attempt } => {
                let again: bool = match ack {
                    CmdAck::Rejected { result } => result == 1 || result == 5,
                    _ => false,
                };
                if again && attempt < ARM_ATTEMPTS {
                    EngageStep::Arm { attempt: attempt + 1 }
                } else {
                    EngageStep::SetMode
                }
            },
            _ => EngageStep::Finished,
        }
    }

    pub fn pause_ms(self) -> (r: u64)
        ensures
            r == pause_before(self),
    {
        match self {
            EngageStep::Arm { attempt } => if attempt <= 1 {
                0
            } else {
                ARM_RETRY_MS
            },
            EngageStep::SetMode => MODE_SETTLE_MS,
            EngageStep::Finished => 0,
        }
    }
}

// Laws.

/// The step after the first `n` answers.
pub open spec fn after_answers(arm: bool, acks: Seq<CmdAck>, n: nat) -> EngageStep
    decreases n,
{
    if n == 0 {
        engage_begun(arm)
    } else {
        engaged(after_answers(arm, acks, (n - 1) as nat), acks[n - 1])
    }
}

/// Arming is attempted at most four times, however the vehicle answers, and
/// the mode switch is reached; five answers end the sequence.
pub proof fn arming_is_bounded(arm: bool, acks: Seq<CmdAck>, n: nat)
    ensures
        after_answers(arm, acks, n) matches EngageStep::Arm { attempt } ==> attempt == n + 1
            && attempt <= ARM_ATTEMPTS,
        n > ARM_ATTEMPTS ==> after_answers(arm, acks, n) is Finished,
        after_answers(arm, acks, n) is Finished ==> exists|k: nat|
            k < n && #[trigger] after_answers(arm, acks, k) is SetMode,
    decreases n,
{
    if n > 0 {
        let p = (n - 1) as nat;
        arming_is_bounded(arm, acks, p);
        let before = after_answers(arm, acks, p);
        if before is Finished {
            let k = choose|k: nat| k < p && #[trigger] after_answers(arm, acks, k) is SetMode;
            assert(k < n && after_answers(arm, acks, k) is SetMode);
        } else if before is SetMode {
            assert(p < n && after_answers(arm, acks, p) is SetMode);
        }
        if n > ARM_ATTEMPTS && !(before is Finished) {
            assert(p == ARM_ATTEMPTS as nat);
            assert(!(before is Arm));
        }
    }
}

/// A vehicle that is not refused transiently is armed once.
pub proof fn settled_answer_ends_arming(attempt: u8, ack: CmdAck)
    requires
        !transient(ack),
    ensures
        engaged(EngageStep::Arm { attempt }, ack) is SetMode,
{
}

} // verus!
