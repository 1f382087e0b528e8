//! The fleet's event log.

use vstd::prelude::*;

verus! {

#[derive(Debug, Clone, Copy, PartialEq, Eq, Structural)]
pub enum EventKind {
    RunBoundary,
    FsmTransition,
    FsmRejected,
    SupervisorAction,
    LinkEscalation,
    HealthFlag,
    TaskEvent,
}

impl EventKind {
    pub open spec fn text(self) -> Seq<char> {
        match self {
            EventKind::RunBoundary => "run_boundary"@,
            EventKind::FsmTransition => "fsm_transition"@,
            EventKind::FsmRejected => "fsm_rejected"@,
            EventKind::SupervisorAction => "supervisor_action"@,
            EventKind::LinkEscalation => "link_escalation"@,
            EventKind::HealthFlag => "health_flag"@,
            EventKind::TaskEvent => "task_event"@,
        }
    }

    pub fn name(&self) -> (r: &'static str)
        ensures
            r@ == self.text(),
    {
        match self {
            EventKind::RunBoundary => "run_boundary",
            EventKind::FsmTransition => "fsm_transition",
            EventKind::FsmRejected => "fsm_rejected",
            EventKind::SupervisorAction => "supervisor_action",
            EventKind::LinkEscalation => "link_escalation",
            EventKind::HealthFlag => "health_flag",
            EventKind::TaskEvent => "task_event",
        }
    }
}

/// One line of the log.
#[derive(Debug, Clone, PartialEq, Eq)]
pub struct Event {
    pub kind: EventKind,
    /// The vehicle it concerns, none for the fleet as a whole.
    pub vehicle: Option<u8>,
    pub text: String,
}

#[verifier::ext_equal]
pub struct EventLine {
    pub kind: EventKind,
    pub vehicle: Option<u8>,
    pub text: Seq<char>,
}

impl View for Event {
    type V = EventLine;

    open spec fn view(&self) -> EventLine {
        EventLine { kind: self.kind, vehicle: self.vehicle, text: self.text@ }
    }
}

pub open spec fn lines_of(s: Seq<Event>) -> Seq<EventLine> {
    Seq::new(s.len(), |i: int| s[i]@)
}

/// The log, oldest line first.
#[derive(Debug)]
pub struct EventLog {
    events: Vec<Event>,
}

impl View for EventLog {
    type V = Seq<EventLine>;

    closed spec fn view(&self) -> Seq<EventLine> {
        lines_of(self.events@)
    }
}

/// The last `n` lines, or all where there are fewer.
pub open spec fn last_lines(s: Seq<EventLine>, n: nat) -> Seq<EventLine> {
    if s.len() <= n {
        s
    } else {
        s.subrange(s.len() - n, s.len() as int)
    }
}

impl EventLog {
    /// An empty log.
    pub fn in_memory() -> (r: Self)
        ensures
            r@ == Seq::<EventLine>::empty(),
    {
        let r = EventLog { events: Vec::new() };
        assert(r@ =~= Seq::<EventLine>::empty());
        r
    }

    /// Add a line.
    pub fn log(&mut self, kind: EventKind, vehicle: Option<u8>, text: String)
        ensures
            final(self)@ == old(self)@.push(EventLine { kind, vehicle, text: text@ }),
    {
        self.events.push(Event { kind, vehicle, text });
        assert(self@ =~= old(self)@.push(EventLine { kind, vehicle, text: text@ }));
    }

    /// How many lines were logged.
    pub fn total(&self) -> (n: usize)
        ensures
            n == self@.len(),
    {
        self.events.len()
    }

    /// Every line.
    pub fn all(&self) -> (r: &Vec<Event>)
        ensures
            lines_of(r@) == self@,
    {
        &self.events
    }

    /// The last `n` lines, or all of them where there are fewer.
    pub fn tail(&self, n: usize) -> (r: Vec<Event>)
        ensures
            lines_of(r@) == (if self@.len() <= n {
                self@
            } else {
                self@.subrange(self@.len() - n, self@.len() as int)
            }),
            lines_of(r@) == last_lines(self@, n as nat),
    {
        let start: usize = if self.events.len() <= n {
            0
        } else {
            self.events.len() - n
        };
        let mut r: Vec<Event> = Vec::new();
        let mut i: usize = start;
        while i < self.events.len()
            invariant
                start <= i <= self.events@.len(),
                lines_of(r@) == lines_of(self.events@).subrange(start as int, i as int),
            decreases self.events@.len() - i,
        {
            let e = &self.events[i];
            let copy = Event { kind: e.kind, vehicle: e.vehicle, text: e.text.clone() };
            let ghost before = r@;
            r.push(copy);
            proof {
                let all = lines_of(self.events@);
                assert(all.subrange(start as int, i + 1) =~= all.subrange(
                    start as int,
                    i as int,
                ).push(all[i as int]));
                assert(lines_of(r@) =~= lines_of(before).push(copy@));
            }
            i = i + 1;
        }
        assert(lines_of(r@) =~= if self@.len() <= n {
            self@
        } else {
            self@.subrange(self@.len() - n, self@.len() as int)
        });
        r
    }
}

// Laws.

/// The tail of a log is its end: as many lines as were asked for, or all where
/// there are fewer, the newest last; what was logged last is always in it.
pub proof fn tail_is_the_end_of_the_log(s: Seq<EventLine>, n: nat)
    ensures
        ({
            let r = last_lines(s, n);
            &&& r.len() == (if s.len() < n {
                s.len()
            } else {
                n
            })
            &&& s.subrange(0, s.len() - r.len()) + r == s
            &&& n > 0 && s.len() > 0 ==> r.last() == s.last()
        }),
{
    let r = last_lines(s, n);
    assert(s.subrange(0, s.len() - r.len()) + r =~= s);
}

} // verus!
