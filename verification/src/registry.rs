//! The fleet's vehicles: what is known of each, and where each stands in its
//! state machine.

use std::collections::BTreeMap;
use vstd::prelude::*;
use crate::events::{EventKind, EventLog};
#[allow(unused_imports)]
use crate::events::EventLine;
use crate::fsm::{transition, FsmCause, FsmState};
#[allow(unused_imports)]
use crate::fsm::arc;
use crate::link::LinkCounts;
use crate::messages::TelemetryEvent;
use crate::vehicle::VehicleState;
#[allow(unused_imports)]
use crate::vehicle::{observed, unheard, VehicleModel};

verus! {

/// One vehicle of the fleet.
pub struct RegistryEntry {
    pub index: u8,
    pub state: VehicleState,
    pub fsm: FsmState,
}

impl RegistryEntry {
    pub fn fsm(&self) -> (r: FsmState)
        ensures
            r == self.fsm,
    {
        self.fsm
    }
}

/// The fleet.
pub struct Registry {
    entries: Vec<RegistryEntry>,
}

/// The state after a cause: unchanged where the arc is illegal.
pub open spec fn stepped(from: FsmState, cause: FsmCause) -> FsmState {
    match arc(from, cause) {
        Some(to) => to,
        None => from,
    }
}

/// The line an attempted transition leaves in the log.
pub open spec fn step_line(index: u8, from: FsmState, cause: FsmCause) -> EventLine {
    match arc(from, cause) {
        Some(to) => EventLine {
            kind: EventKind::FsmTransition,
            vehicle: Some(index),
            text: from.text() + "->"@ + to.text() + " cause="@ + cause.text(),
        },
        None => EventLine {
            kind: EventKind::FsmRejected,
            vehicle: Some(index),
            text: "rejected "@ + from.text() + "+"@ + cause.text(),
        },
    }
}

fn step_text(from: FsmState, to: Option<FsmState>, cause: FsmCause) -> (r: String)
    requires
        to == arc(from, cause),
    ensures
        r@ == step_line(0, from, cause).text,
{
    match to {
        Some(to) => {
            let mut s = String::from_str(from.name());
            s.append("->");
            s.append(to.name());
            s.append(" cause=");
            s.append(cause.name());
            s
        },
        None => {
            let mut s = String::from_str("rejected ");
            s.append(from.name());
            s.append("+");
            s.append(cause.name());
            s
        },
    }
}

impl Registry {
    /// Where each vehicle stands.
    pub closed spec fn states(&self) -> Seq<FsmState> {
        Seq::new(self.entries@.len(), |i: int| self.entries@[i].fsm)
    }

    /// What is known of each vehicle.
    pub closed spec fn vehicles(&self) -> Seq<VehicleModel> {
        Seq::new(self.entries@.len(), |i: int| self.entries@[i].state@)
    }

    /// Entry `i` is vehicle `i`.
    pub closed spec fn wf(&self) -> bool {
        &&& self.entries@.len() <= 255
        &&& forall|i: int|
            0 <= i < self.entries@.len() ==> (#[trigger] self.entries@[i]).index == i
    }

    /// A fleet of `count` vehicles nothing has been heard of.
    pub fn new(count: u8) -> (r: Self)
        ensures
            r.wf(),
            r.states() == Seq::new(count as nat, |i: int| FsmState::Init),
            r.vehicles() == Seq::new(count as nat, |i: int| unheard(i as u8)),
    {
        let mut entries: Vec<RegistryEntry> = Vec::new();
        let mut i: u8 = 0;
        while i < count
            invariant
                i <= count,
                entries@.len() == i,
                forall|k: int|
                    0 <= k < i ==> (#[trigger] entries@[k]).index == k && entries@[k].fsm
                        == FsmState::Init && entries@[k].state@ == unheard(k as u8),
            decreases count - i,
        {
            entries.push(RegistryEntry { index: i, state: VehicleState::new(i), fsm: FsmState::Init });
            i = i + 1;
        }
        let r = Registry { entries };
        assert(r.states() =~= Seq::new(count as nat, |i: int| FsmState::Init));
        assert(r.vehicles() =~= Seq::new(count as nat, |i: int| unheard(i as u8)));
        r
    }

    pub fn len(&self) -> (n: usize)
        ensures
            n == self.states().len(),
            n == self.vehicles().len(),
    {
        self.entries.len()
    }

    pub fn is_empty(&self) -> (b: bool)
        ensures
            b == (self.states().len() == 0),
    {
        self.entries.len() == 0
    }

    pub fn entry(&self, index: u8) -> (r: Option<&RegistryEntry>)
        requires
            self.wf(),
        ensures
            match r {
                Some(e) => index < self.states().len() && e.index == index && e.fsm
                    == self.states()[index as int] && e.state@ == self.vehicles()[index as int],
                None => index >= self.states().len(),
            },
    {
        if (index as usize) < self.entries.len() {
            Some(&self.entries[index as usize])
        } else {
            None
        }
    }

    /// The vehicles' indices.
    pub fn indices(&self) -> (r: Vec<u8>)
        requires
            self.wf(),
        ensures
            r@ == Seq::new(self.states().len(), |i: int| i as u8),
    {
        let mut r: Vec<u8> = Vec::new();
        let mut i: usize = 0;
        while i < self.entries.len()
            invariant
                self.wf(),
                i <= self.entries@.len(),
                r@.len() == i,
                forall|k: int| 0 <= k < i ==> #[trigger] r@[k] == k as u8,
            decreases self.entries@.len() - i,
        {
            r.push(self.entries[i].index);
            i = i + 1;
        }
        assert(r@ =~= Seq::new(self.states().len(), |i: int| i as u8));
        r
    }

    /// What is known of a vehicle.
    pub fn snapshot(&self, index: u8) -> (r: Option<&VehicleState>)
        requires
            self.wf(),
        ensures
            match r {
                Some(v) => index < self.vehicles().len() && v@ == self.vehicles()[index as int],
                None => index >= self.vehicles().len(),
            },
    {
        if (index as usize) < self.entries.len() {
            Some(&self.entries[index as usize].state)
        } else {
            None
        }
    }

    /// Where a vehicle stands.
    pub fn fsm(&self, index: u8) -> (r: Option<FsmState>)
        requires
            self.wf(),
        ensures
            r == (if index < self.states().len() {
                Some(self.states()[index as int])
            } else {
                None
            }),
    {
        if (index as usize) < self.entries.len() {
            Some(self.entries[index as usize].fsm)
        } else {
            None
        }
    }

    /// Apply a cause. A legal arc is taken, an illegal one leaves the vehicle
    /// where it is; both are logged. Returns the state that holds afterwards,
    /// `None` for a vehicle the fleet does not have.
    pub fn apply_transition(
        &mut self,
        index: u8,
        cause: FsmCause,
        log: &mut EventLog,
    ) -> (r: Option<FsmState>)
        requires
            old(self).wf(),
        ensures
            final(self).wf(),
            final(self).vehicles() == old(self).vehicles(),
            index >= old(self).states().len() ==> {
                &&& r is None
                &&& final(self).states() == old(self).states()
                &&& final(log)@ == old(log)@
            },
            index < old(self).states().len() ==> {
                let from = old(self).states()[index as int];
                &&& r == Some(stepped(from, cause))
                &&& final(self).states() == old(self).states().update(
                    index as int,
                    stepped(from, cause),
                )
                &&& final(log)@ == old(log)@.push(step_line(index, from, cause))
            },
    {
        if (index as usize) >= self.entries.len() {
            return None;
        }
        let i: usize = index as usize;
        let from: FsmState = self.entries[i].fsm;
        let to = transition(from, cause);
        let text = step_text(from, to, cause);
        let r = match to {
            Some(to) => {
                self.entries[i].fsm = to;
                log.log(EventKind::FsmTransition, Some(index), text);
                to
            },
            None => {
                log.log(EventKind::FsmRejected, Some(index), text);
                from
            },
        };
        assert(self.vehicles() =~= old(self).vehicles());
        assert(self.states() =~= old(self).states().update(index as int, stepped(from, cause)));
        Some(r)
    }

    /// The bring-up driver's name for [`Registry::apply_transition`].
    pub fn force_transition(
        &mut self,
        index: u8,
        cause: FsmCause,
        log: &mut EventLog,
    ) -> (r: Option<FsmState>)
        requires
            old(self).wf(),
        ensures
            final(self).wf(),
            final(self).vehicles() == old(self).vehicles(),
            index >= old(self).states().len() ==> {
                &&& r is None
                &&& final(self).states() == old(self).states()
                &&& final(log)@ == old(log)@
            },
            index < old(self).states().len() ==> {
                let from = old(self).states()[index as int];
                &&& r == Some(stepped(from, cause))
                &&& final(self).states() == old(self).states().update(
                    index as int,
                    stepped(from, cause),
                )
                &&& final(log)@ == old(log)@.push(step_line(index, from, cause))
            },
    {
        self.apply_transition(index, cause, log)
    }

    /// Take in a telemetry event of a vehicle.
    pub fn observe(&mut self, index: u8, e: &TelemetryEvent, now: u64)
        requires
            old(self).wf(),
        ensures
            final(self).wf(),
            final(self).states() == old(self).states(),
            final(self).vehicles() == (if index < old(self).vehicles().len() {
                old(self).vehicles().update(
                    index as int,
                    observed(old(self).vehicles()[index as int], e@, now),
                )
            } else {
                old(self).vehicles()
            }),
    {
        if (index as usize) < self.entries.len() {
            self.entries[index as usize].state.observe(e, now);
            assert(self.states() =~= old(self).states());
            assert(self.vehicles() =~= old(self).vehicles().update(
                index as int,
                observed(old(self).vehicles()[index as int], e@, now),
            ));
        }
    }

    /// Note a vehicle's link counters, receive rate and message counts.
    pub fn set_link(
        &mut self,
        index: u8,
        link: LinkCounts,
        recv_rate_hz: u32,
        msg_counts: &BTreeMap<u32, u64>,
    )
        requires
            old(self).wf(),
        ensures
            final(self).wf(),
            final(self).states() == old(self).states(),
            final(self).vehicles() == (if index < old(self).vehicles().len() {
                old(self).vehicles().update(
                    index as int,
                    VehicleModel {
                        link,
                        recv_rate_hz,
                        msg_counts: msg_counts@,
                        ..old(self).vehicles()[index as int]
                    },
                )
            } else {
                old(self).vehicles()
            }),
    {
        if (index as usize) < self.entries.len() {
            self.entries[index as usize].state.link = link;
            self.entries[index as usize].state.recv_rate_hz = recv_rate_hz;
            self.entries[index as usize].state.msg_counts = msg_counts.clone();
            assert(self.states() =~= old(self).states());
            assert(self.vehicles() =~= old(self).vehicles().update(
                index as int,
                VehicleModel {
                        link,
                        recv_rate_hz,
                        msg_counts: msg_counts@,
                        ..old(self).vehicles()[index as int]
                    },
            ));
        }
    }
}

} // verus!
