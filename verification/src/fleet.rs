//! What the control plane shows of the fleet: the run's phase, the task
//! board, and per vehicle its tasks, health flags, link, mission binding and
//! pending restart.

use vstd::prelude::*;
use crate::messages::Vec3;
#[allow(unused_imports)]
use crate::text::texts;

verus! {

/// Where a run stands.
#[derive(Debug, Clone, Copy, PartialEq, Eq, Structural)]
pub enum Phase {
    Init,
    SetupHold,
    BringUp,
    Running,
    Aborted,
    Timeout,
}

impl Phase {
    pub open spec fn text(self) -> Seq<char> {
        match self {
            Phase::Init => "INIT"@,
            Phase::SetupHold => "SETUP_HOLD"@,
            Phase::BringUp => "BRING_UP"@,
            Phase::Running => "RUNNING"@,
            Phase::Aborted => "ABORTED"@,
            Phase::Timeout => "TIMEOUT"@,
        }
    }

    pub fn name(&self) -> (r: &'static str)
        ensures
            r@ == self.text(),
    {
        match self {
            Phase::Init => "INIT",
            Phase::SetupHold => "SETUP_HOLD",
            Phase::BringUp => "BRING_UP",
            Phase::Running => "RUNNING",
            Phase::Aborted => "ABORTED",
            Phase::Timeout => "TIMEOUT",
        }
    }
}

/// Where a task stands.
#[derive(Debug, Clone, Copy, PartialEq, Eq, Structural)]
pub enum TaskState {
    Pending,
    Queued,
    Active,
    Complete,
    Rejected,
    Cleared,
}

impl TaskState {
    pub open spec fn text(self) -> Seq<char> {
        match self {
            TaskState::Pending => "pending"@,
            TaskState::Queued => "queued"@,
            TaskState::Active => "active"@,
            TaskState::Complete => "complete"@,
            TaskState::Rejected => "rejected"@,
            TaskState::Cleared => "cleared"@,
        }
    }

    pub fn name(&self) -> (r: &'static str)
        ensures
            r@ == self.text(),
    {
        match self {
            TaskState::Pending => "pending",
            TaskState::Queued => "queued",
            TaskState::Active => "active",
            TaskState::Complete => "complete",
            TaskState::Rejected => "rejected",
            TaskState::Cleared => "cleared",
        }
    }
}

/// One row of the task board.
#[derive(Debug, Clone)]
pub struct TaskStatus {
    pub id: String,
    pub pos_ned_m: Vec3,
    /// The vehicle it is assigned to.
    pub assigned: Option<u8>,
    pub state: TaskState,
    pub hover_observed: Option<bool>,
}

#[verifier::ext_equal]
pub struct TaskModel {
    pub id: Seq<char>,
    pub pos_ned_m: Vec3,
    pub assigned: Option<u8>,
    pub state: TaskState,
    pub hover_observed: Option<bool>,
}

impl View for TaskStatus {
    type V = TaskModel;

    open spec fn view(&self) -> TaskModel {
        TaskModel {
            id: self.id@,
            pos_ned_m: self.pos_ned_m,
            assigned: self.assigned,
            state: self.state,
            hover_observed: self.hover_observed,
        }
    }
}

/// A vehicle's current and queued tasks.
#[derive(Debug, Clone, PartialEq, Eq)]
pub struct VehicleTaskInfo {
    pub current: Option<String>,
    pub queue: Vec<String>,
}

#[verifier::ext_equal]
pub struct TaskInfoModel {
    pub current: Option<Seq<char>>,
    pub queue: Seq<Seq<char>>,
}

pub open spec fn opt_text(s: Option<String>) -> Option<Seq<char>> {
    match s {
        Some(s) => Some(s@),
        None => None,
    }
}

impl View for VehicleTaskInfo {
    type V = TaskInfoModel;

    open spec fn view(&self) -> TaskInfoModel {
        TaskInfoModel { current: opt_text(self.current), queue: texts(self.queue@) }
    }
}

impl Default for VehicleTaskInfo {
    fn default() -> (r: Self)
        ensures
            r@ == no_tasks(),
    {
        let r = VehicleTaskInfo { current: None, queue: Vec::new() };
        assert(r@ =~= no_tasks());
        r
    }
}

pub open spec fn no_tasks() -> TaskInfoModel {
    TaskInfoModel { current: None, queue: Seq::empty() }
}

/// Answer to an upload of waypoints.
#[derive(Debug, Clone)]
pub struct UploadAck {
    /// Ids of the new tasks.
    pub accepted: Vec<String>,
    /// Labels with the reason each was refused.
    pub rejected: Vec<(String, String)>,
    /// Tasks that wait for a vehicle.
    pub pool: usize,
}

/// Answer to a mission start.
#[derive(Debug, Clone)]
pub struct StartAck {
    pub started: bool,
    pub reason: Option<String>,
}

/// Answer to a clearing of the task board.
#[derive(Debug, Clone)]
pub struct ClearAck {
    pub cleared: usize,
}

/// The control plane's view of the fleet.
pub struct FleetState {
    count: u8,
    phase: Phase,
    tick_count: u64,
    aborted: bool,
    estop: bool,
    tasks: Vec<TaskStatus>,
    vehicle_tasks: Vec<VehicleTaskInfo>,
    flags: Vec<Vec<String>>,
    restart_requests: Vec<bool>,
    mission_active: Vec<bool>,
    mission_bindings: Vec<Option<String>>,
    linked: Vec<bool>,
}

#[verifier::ext_equal]
pub struct FleetModel {
    pub count: u8,
    pub phase: Phase,
    pub tick_count: u64,
    pub aborted: bool,
    /// An emergency stop was requested.
    pub estop: bool,
    pub tasks: Seq<TaskModel>,
    pub vehicle_tasks: Seq<TaskInfoModel>,
    pub flags: Seq<Seq<Seq<char>>>,
    /// Vehicles whose restart is requested and not yet carried out.
    pub restart_requests: Seq<bool>,
    pub mission_active: Seq<bool>,
    pub mission_bindings: Seq<Option<Seq<char>>>,
    /// Vehicles whose link is up.
    pub linked: Seq<bool>,
}

pub open spec fn tasks_of(s: Seq<TaskStatus>) -> Seq<TaskModel> {
    Seq::new(s.len(), |i: int| s[i]@)
}

pub open spec fn infos_of(s: Seq<VehicleTaskInfo>) -> Seq<TaskInfoModel> {
    Seq::new(s.len(), |i: int| s[i]@)
}

pub open spec fn flags_of(s: Seq<Vec<String>>) -> Seq<Seq<Seq<char>>> {
    Seq::new(s.len(), |i: int| texts(s[i]@))
}

pub open spec fn bindings_of(s: Seq<Option<String>>) -> Seq<Option<Seq<char>>> {
    Seq::new(s.len(), |i: int| opt_text(s[i]))
}

impl View for FleetState {
    type V = FleetModel;

    closed spec fn view(&self) -> FleetModel {
        FleetModel {
            count: self.count,
            phase: self.phase,
            tick_count: self.tick_count,
            aborted: self.aborted,
            estop: self.estop,
            tasks: tasks_of(self.tasks@),
            vehicle_tasks: infos_of(self.vehicle_tasks@),
            flags: flags_of(self.flags@),
            restart_requests: self.restart_requests@,
            mission_active: self.mission_active@,
            mission_bindings: bindings_of(self.mission_bindings@),
            linked: self.linked@,
        }
    }
}

/// A list of `n` equal values.
pub open spec fn all_same<T>(n: nat, v: T) -> Seq<T> {
    Seq::new(n, |i: int| v)
}

/// The view of a fleet that has just been set up.
pub open spec fn fresh_fleet(count: u8) -> FleetModel {
    FleetModel {
        count,
        phase: Phase::Init,
        tick_count: 0,
        aborted: false,
        estop: false,
        tasks: Seq::empty(),
        vehicle_tasks: all_same(count as nat, no_tasks()),
        flags: all_same(count as nat, Seq::<Seq<char>>::empty()),
        restart_requests: all_same(count as nat, false),
        mission_active: all_same(count as nat, false),
        mission_bindings: all_same(count as nat, None::<Seq<char>>),
        linked: all_same(count as nat, false),
    }
}

/// A list with place `i` set, unchanged where it has no such place.
pub open spec fn placed<T>(s: Seq<T>, i: int, v: T) -> Seq<T> {
    if 0 <= i < s.len() {
        s.update(i, v)
    } else {
        s
    }
}

/// The vehicles of a request list, in order.
pub open spec fn requested_from(s: Seq<bool>, from: int) -> Seq<u8>
    decreases s.len() - from,
{
    if from >= s.len() {
        Seq::empty()
    } else if s[from] {
        seq![from as u8] + requested_from(s, from + 1)
    } else {
        requested_from(s, from + 1)
    }
}

impl FleetState {
    /// Every per-vehicle list has one place per vehicle.
    pub closed spec fn wf(&self) -> bool {
        &&& self.vehicle_tasks@.len() == self.count
        &&& self.flags@.len() == self.count
        &&& self.restart_requests@.len() == self.count
        &&& self.mission_active@.len() == self.count
        &&& self.mission_bindings@.len() == self.count
        &&& self.linked@.len() == self.count
    }

    pub fn new(count: u8) -> (r: Self)
        ensures
            r.wf(),
            r@ == fresh_fleet(count),
    {
        let mut vehicle_tasks: Vec<VehicleTaskInfo> = Vec::new();
        let mut flags: Vec<Vec<String>> = Vec::new();
        let mut restart_requests: Vec<bool> = Vec::new();
        let mut mission_active: Vec<bool> = Vec::new();
        let mut mission_bindings: Vec<Option<String>> = Vec::new();
        let mut linked: Vec<bool> = Vec::new();
        let mut i: u8 = 0;
        while i < count
            invariant
                i <= count,
                infos_of(vehicle_tasks@) == all_same(i as nat, no_tasks()),
                flags_of(flags@) == all_same(i as nat, Seq::<Seq<char>>::empty()),
                restart_requests@ == all_same(i as nat, false),
                mission_active@ == all_same(i as nat, false),
                bindings_of(mission_bindings@) == all_same(i as nat, None::<Seq<char>>),
                linked@ == all_same(i as nat, false),
            decreases count - i,
        {
            let ghost t0 = vehicle_tasks@;
            let ghost f0 = flags@;
            let ghost b0 = mission_bindings@;
            vehicle_tasks.push(VehicleTaskInfo::default());
            let empty: Vec<String> = Vec::new();
            assert(texts(empty@) =~= Seq::<Seq<char>>::empty());
            flags.push(empty);
            restart_requests.push(false);
            mission_active.push(false);
            mission_bindings.push(None);
            linked.push(false);
            i = i + 1;
            assert(infos_of(vehicle_tasks@) =~= infos_of(t0).push(no_tasks()));
            assert(infos_of(vehicle_tasks@) =~= all_same(i as nat, no_tasks()));
            assert(flags_of(flags@) =~= flags_of(f0).push(Seq::<Seq<char>>::empty()));
            assert(flags_of(flags@) =~= all_same(i as nat, Seq::<Seq<char>>::empty()));
            assert(restart_requests@ =~= all_same(i as nat, false));
            assert(mission_active@ =~= all_same(i as nat, false));
            assert(bindings_of(mission_bindings@) =~= bindings_of(b0).push(None::<Seq<char>>));
            assert(bindings_of(mission_bindings@) =~= all_same(i as nat, None::<Seq<char>>));
            assert(linked@ =~= all_same(i as nat, false));
        }
        let r = FleetState {
            count,
            phase: Phase::Init,
            tick_count: 0,
            aborted: false,
            estop: false,
            tasks: Vec::new(),
            vehicle_tasks,
            flags,
            restart_requests,
            mission_active,
            mission_bindings,
            linked,
        };
        proof {
            assert(infos_of(r.vehicle_tasks@).len() == count);
            assert(flags_of(r.flags@).len() == count);
            assert(bindings_of(r.mission_bindings@).len() == count);
            assert(r@.tasks =~= Seq::<TaskModel>::empty());
        }
        r
    }

    pub fn count(&self) -> (r: u8)
        ensures
            r == self@.count,
    {
        self.count
    }

    /// Note that a vehicle's link is up.
    pub fn set_link(&mut self, index: u8)
        requires
            old(self).wf(),
        ensures
            final(self).wf(),
            final(self)@ == (FleetModel {
                linked: placed(old(self)@.linked, index as int, true),
                ..old(self)@
            }),
    {
        if (index as usize) < self.linked.len() {
            self.linked.set(index as usize, true);
        }
    }

    /// Every link is gone.
    pub fn drop_links(&mut self)
        requires
            old(self).wf(),
        ensures
            final(self).wf(),
            final(self)@ == (FleetModel {
                linked: all_same(old(self)@.count as nat, false),
                ..old(self)@
            }),
    {
        let mut linked: Vec<bool> = Vec::new();
        let mut i: u8 = 0;
        while i < self.count
            invariant
                i <= self.count,
                linked@ == all_same(i as nat, false),
            decreases self.count - i,
        {
            linked.push(false);
            i = i + 1;
            assert(linked@ =~= all_same(i as nat, false));
        }
        self.linked = linked;
    }

    /// Whether a vehicle's link is up.
    pub fn link(&self, index: u8) -> (r: bool)
        ensures
            r == (index < self@.linked.len() && self@.linked[index as int]),
    {
        (index as usize) < self.linked.len() && self.linked[index as usize]
    }

    /// Ask for a controlled restart of a vehicle; asking again changes nothing.
    pub fn request_restart(&mut self, index: u8)
        requires
            old(self).wf(),
        ensures
            final(self).wf(),
            final(self)@ == (FleetModel {
                restart_requests: placed(old(self)@.restart_requests, index as int, true),
                ..old(self)@
            }),
    {
        if (index as usize) < self.restart_requests.len() {
            self.restart_requests.set(index as usize, true);
        }
    }

    /// Take the requested restarts, lowest vehicle first; none stays.
    pub fn take_restart_requests(&mut self) -> (r: Vec<u8>)
        requires
            old(self).wf(),
        ensures
            final(self).wf(),
            r@ == requested_from(old(self)@.restart_requests, 0),
            final(self)@ == (FleetModel {
                restart_requests: all_same(old(self)@.count as nat, false),
                ..old(self)@
            }),
    {
        let ghost before = self.restart_requests@;
        let mut r: Vec<u8> = Vec::new();
        let mut cleared: Vec<bool> = Vec::new();
        let mut i: u8 = 0;
        while i < self.count
            invariant
                self.wf(),
                before == self.restart_requests@,
                i <= self.count,
                cleared@ == all_same(i as nat, false),
                r@ + requested_from(before, i as int) == requested_from(before, 0),
            decreases self.count - i,
        {
            if self.restart_requests[i as usize] {
                let ghost rest = requested_from(before, i + 1);
                assert(r@ + (seq![i] + rest) =~= r@.push(i) + rest);
                r.push(i);
            }
            cleared.push(false);
            i = i + 1;
            assert(cleared@ =~= all_same(i as nat, false));
        }
        assert(r@ =~= requested_from(before, 0));
        self.restart_requests = cleared;
        r
    }

    /// Whether a restart of the vehicle waits to be carried out.
    pub fn restart_pending(&self, index: u8) -> (r: bool)
        ensures
            r == (index < self@.restart_requests.len() && self@.restart_requests[index as int]),
    {
        (index as usize) < self.restart_requests.len() && self.restart_requests[index as usize]
    }

    /// The operator asks for an emergency stop; it cannot be taken back.
    pub fn request_estop(&mut self)
        requires
            old(self).wf(),
        ensures
            final(self).wf(),
            final(self)@ == (FleetModel { estop: true, ..old(self)@ }),
    {
        self.estop = true;
    }

    pub fn estop_requested(&self) -> (r: bool)
        ensures
            r == self@.estop,
    {
        self.estop
    }

    /// Count one supervisor tick.
    pub fn count_tick(&mut self)
        requires
            old(self).wf(),
        ensures
            final(self).wf(),
            final(self)@ == (FleetModel {
                tick_count: old(self)@.tick_count.wrapping_add(1),
                ..old(self)@
            }),
    {
        self.tick_count = self.tick_count.wrapping_add(1);
    }

    pub fn tick_count(&self) -> (r: u64)
        ensures
            r == self@.tick_count,
    {
        self.tick_count
    }

    pub fn set_aborted(&mut self)
        requires
            old(self).wf(),
        ensures
            final(self).wf(),
            final(self)@ == (FleetModel { aborted: true, ..old(self)@ }),
    {
        self.aborted = true;
    }

    pub fn aborted(&self) -> (r: bool)
        ensures
            r == self@.aborted,
    {
        self.aborted
    }

    pub fn set_phase(&mut self, phase: Phase)
        requires
            old(self).wf(),
        ensures
            final(self).wf(),
            final(self)@ == (FleetModel { phase, ..old(self)@ }),
    {
        self.phase = phase;
    }

    pub fn phase(&self) -> (r: Phase)
        ensures
            r == self@.phase,
    {
        self.phase
    }

    /// Note whether a vehicle is flying on its own.
    pub fn set_mission_active(&mut self, index: u8, active: bool)
        requires
            old(self).wf(),
        ensures
            final(self).wf(),
            final(self)@ == (FleetModel {
                mission_active: placed(old(self)@.mission_active, index as int, active),
                ..old(self)@
            }),
    {
        if (index as usize) < self.mission_active.len() {
            self.mission_active.set(index as usize, active);
        }
    }

    /// Whether a vehicle is flying on its own; guided commands wait then.
    pub fn mission_active(&self, index: u8) -> (r: bool)
        ensures
            r == (index < self@.mission_active.len() && self@.mission_active[index as int]),
    {
        (index as usize) < self.mission_active.len() && self.mission_active[index as usize]
    }

    /// Bind a mission to a vehicle.
    pub fn set_mission_binding(&mut self, index: u8, mission_id: String)
        requires
            old(self).wf(),
        ensures
            final(self).wf(),
            final(self)@ == (FleetModel {
                mission_bindings: placed(
                    old(self)@.mission_bindings,
                    index as int,
                    Some(mission_id@),
                ),
                ..old(self)@
            }),
    {
        if (index as usize) < self.mission_bindings.len() {
            self.mission_bindings.set(index as usize, Some(mission_id));
            assert(bindings_of(self.mission_bindings@) =~= bindings_of(
                old(self).mission_bindings@,
            ).update(index as int, Some(mission_id@)));
        }
    }

    /// The mission bound to a vehicle.
    pub fn mission_binding(&self, index: u8) -> (r: Option<String>)
        ensures
            opt_text(r) == (if index < self@.mission_bindings.len() {
                self@.mission_bindings[index as int]
            } else {
                None
            }),
    {
        if (index as usize) < self.mission_bindings.len() {
            match &self.mission_bindings[index as usize] {
                Some(id) => Some(id.clone()),
                None => None,
            }
        } else {
            None
        }
    }

    /// Unbind a vehicle's mission; tells whether there was one.
    pub fn clear_mission_binding(&mut self, index: u8) -> (r: bool)
        requires
            old(self).wf(),
        ensures
            final(self).wf(),
            r == (index < old(self)@.mission_bindings.len()
                && old(self)@.mission_bindings[index as int] is Some),
            final(self)@ == (FleetModel {
                mission_bindings: placed(old(self)@.mission_bindings, index as int, None),
                ..old(self)@
            }),
    {
        if (index as usize) < self.mission_bindings.len() {
            let was: bool = self.mission_bindings[index as usize].is_some();
            self.mission_bindings.set(index as usize, None);
            assert(bindings_of(self.mission_bindings@) =~= bindings_of(
                old(self).mission_bindings@,
            ).update(index as int, None));
            was
        } else {
            false
        }
    }

    /// Every vehicle's binding.
    pub fn mission_bindings_snapshot(&self) -> (r: &Vec<Option<String>>)
        ensures
            bindings_of(r@) == self@.mission_bindings,
    {
        &self.mission_bindings
    }

    pub fn set_flags(&mut self, index: u8, flags: Vec<String>)
        requires
            old(self).wf(),
        ensures
            final(self).wf(),
            final(self)@ == (FleetModel {
                flags: placed(old(self)@.flags, index as int, texts(flags@)),
                ..old(self)@
            }),
    {
        if (index as usize) < self.flags.len() {
            self.flags.set(index as usize, flags);
            assert(flags_of(self.flags@) =~= flags_of(old(self).flags@).update(
                index as int,
                texts(flags@),
            ));
        }
    }

    /// A vehicle's health flags, none for a vehicle the fleet does not have.
    pub fn vehicle_flags(&self, index: u8) -> (r: Option<&Vec<String>>)
        ensures
            match r {
                Some(f) => index < self@.flags.len() && texts(f@) == self@.flags[index as int],
                None => index >= self@.flags.len(),
            },
    {
        if (index as usize) < self.flags.len() {
            Some(&self.flags[index as usize])
        } else {
            None
        }
    }

    pub fn set_vehicle_tasks(&mut self, index: u8, info: VehicleTaskInfo)
        requires
            old(self).wf(),
        ensures
            final(self).wf(),
            final(self)@ == (FleetModel {
                vehicle_tasks: placed(old(self)@.vehicle_tasks, index as int, info@),
                ..old(self)@
            }),
    {
        if (index as usize) < self.vehicle_tasks.len() {
            self.vehicle_tasks.set(index as usize, info);
            assert(infos_of(self.vehicle_tasks@) =~= infos_of(old(self).vehicle_tasks@).update(
                index as int,
                info@,
            ));
        }
    }

    /// A vehicle's tasks.
    pub fn vehicle_tasks(&self, index: u8) -> (r: Option<&VehicleTaskInfo>)
        ensures
            match r {
                Some(t) => index < self@.vehicle_tasks.len() && t@
                    == self@.vehicle_tasks[index as int],
                None => index >= self@.vehicle_tasks.len(),
            },
    {
        if (index as usize) < self.vehicle_tasks.len() {
            Some(&self.vehicle_tasks[index as usize])
        } else {
            None
        }
    }

    /// The task board.
    pub fn tasks_snapshot(&self) -> (r: &Vec<TaskStatus>)
        ensures
            tasks_of(r@) == self@.tasks,
    {
        &self.tasks
    }

    /// Add a row to the task board.
    pub fn add_task(&mut self, t: TaskStatus)
        requires
            old(self).wf(),
        ensures
            final(self).wf(),
            final(self)@ == (FleetModel { tasks: old(self)@.tasks.push(t@), ..old(self)@ }),
    {
        self.tasks.push(t);
        assert(tasks_of(self.tasks@) =~= tasks_of(old(self).tasks@).push(t@));
    }

    /// Drop the tasks that have not started; tells how many there were.
    pub fn clear_waiting_tasks(&mut self) -> (n: usize)
        requires
            old(self).wf(),
        ensures
            final(self).wf(),
            n == waiting(old(self)@.tasks),
            final(self)@ == (FleetModel { tasks: cleared(old(self)@.tasks), ..old(self)@ }),
    {
        let ghost before = self.tasks@;
        let mut n: usize = 0;
        let mut i: usize = 0;
        assert(before.subrange(0, 0) =~= Seq::<TaskStatus>::empty());
        while i < self.tasks.len()
            invariant
                i <= self.tasks@.len(),
                self.tasks@.len() == before.len(),
                n <= i,
                n == waiting(tasks_of(before).subrange(0, i as int)),
                forall|k: int| 0 <= k < i ==> (#[trigger] self.tasks@[k])@ == cleared_task(before[k]@),
                forall|k: int| i <= k < before.len() ==> #[trigger] self.tasks@[k] == before[k],
                self.count == old(self).count,
                self.phase == old(self).phase,
                self.tick_count == old(self).tick_count,
                self.aborted == old(self).aborted,
                self.estop == old(self).estop,
                self.vehicle_tasks == old(self).vehicle_tasks,
                self.flags == old(self).flags,
                self.restart_requests == old(self).restart_requests,
                self.mission_active == old(self).mission_active,
                self.mission_bindings == old(self).mission_bindings,
                self.linked == old(self).linked,
                self.wf(),
            decreases self.tasks@.len() - i,
        {
            let ghost s = tasks_of(before).subrange(0, i + 1);
            assert(s.drop_last() =~= tasks_of(before).subrange(0, i as int));
            assert(s.last() == before[i as int]@);
            let st: TaskState = self.tasks[i].state;
            if st == TaskState::Pending || st == TaskState::Queued {
                self.tasks[i].state = TaskState::Cleared;
                n = n + 1;
            }
            i = i + 1;
        }
        assert(tasks_of(before).subrange(0, before.len() as int) =~= tasks_of(before));
        assert(tasks_of(self.tasks@) =~= cleared(tasks_of(before)));
        n
    }
}

/// A task that has not started.
pub open spec fn waits(t: TaskModel) -> bool {
    t.state is Pending || t.state is Queued
}

/// How many tasks have not started.
pub open spec fn waiting(s: Seq<TaskModel>) -> nat
    decreases s.len(),
{
    if s.len() == 0 {
        0
    } else {
        waiting(s.drop_last()) + (if waits(s.last()) {
            1nat
        } else {
            0nat
        })
    }
}

pub open spec fn cleared_task(t: TaskModel) -> TaskModel {
    if waits(t) {
        TaskModel { state: TaskState::Cleared, ..t }
    } else {
        t
    }
}

/// The board with every task that has not started marked cleared.
pub open spec fn cleared(s: Seq<TaskModel>) -> Seq<TaskModel> {
    Seq::new(s.len(), |i: int| cleared_task(s[i]))
}

// Laws.

/// Clearing leaves no waiting task, and clearing again changes nothing.
pub proof fn clearing_is_complete(s: Seq<TaskModel>)
    ensures
        waiting(cleared(s)) == 0,
        cleared(cleared(s)) == cleared(s),
    decreases s.len(),
{
    assert(cleared(cleared(s)) =~= cleared(s));
    if s.len() > 0 {
        clearing_is_complete(s.drop_last());
        assert(cleared(s).drop_last() =~= cleared(s.drop_last()));
    }
}

/// A restart that was asked for is taken exactly once, and only such.
pub proof fn restarts_are_taken_once(s: Seq<bool>, from: int, i: u8)
    requires
        s.len() <= 256,
        0 <= from,
    ensures
        requested_from(s, from).contains(i) <==> from <= i < s.len() && s[i as int],
        requested_from(all_same(s.len(), false), from) == Seq::<u8>::empty(),
    decreases s.len() - from,
{
    if from < s.len() {
        restarts_are_taken_once(s, from + 1, i);
        let rest = requested_from(s, from + 1);
        if s[from] {
            let all = seq![from as u8] + rest;
            assert(all[0] == from as u8);
            if rest.contains(i) {
                let k = choose|k: int| 0 <= k < rest.len() && rest[k] == i;
                assert(all[k + 1] == i);
            }
            if all.contains(i) {
                let k = choose|k: int| 0 <= k < all.len() && all[k] == i;
                if k > 0 {
                    assert(rest[k - 1] == i);
                }
            }
        }
    }
}

/// A mission that is bound to a vehicle is the one that is read back, an
/// unbound one is gone, and no other vehicle's binding changes.
pub proof fn bindings_are_read_back(
    bindings: Seq<Option<Seq<char>>>,
    index: u8,
    id: Option<Seq<char>>,
    other: u8,
)
    ensures
        placed(bindings, index as int, id).len() == bindings.len(),
        index < bindings.len() ==> placed(bindings, index as int, id)[index as int] == id,
        other != index && other < bindings.len() ==> placed(bindings, index as int, id)[other as int]
            == bindings[other as int],
        index >= bindings.len() ==> placed(bindings, index as int, id) == bindings,
{
}

/// Clearing the board marks exactly the tasks that are pending or queued, and
/// changes nothing else about any task.
pub proof fn clearing_spares_what_has_started(s: Seq<TaskModel>, i: int)
    requires
        0 <= i < s.len(),
    ensures
        cleared(s).len() == s.len(),
        s[i].state is Pending || s[i].state is Queued ==> cleared(s)[i].state is Cleared,
        !(s[i].state is Pending || s[i].state is Queued) ==> cleared(s)[i] == s[i],
        cleared(s)[i].id == s[i].id,
        cleared(s)[i].pos_ned_m == s[i].pos_ned_m,
        cleared(s)[i].assigned == s[i].assigned,
{
}

/// One more task on the board is one more that waits where it is pending or
/// queued, and none more where it is not.
pub proof fn waiting_tasks_are_counted(s: Seq<TaskModel>, t: TaskModel)
    ensures
        waiting(s.push(t)) == waiting(s) + (if t.state is Pending || t.state is Queued {
            1nat
        } else {
            0nat
        }),
        waiting(Seq::empty()) == 0,
{
    assert(s.push(t).drop_last() =~= s);
}

/// What is placed for one vehicle is found there, and nothing changes for the
/// others; a place the fleet does not have is passed over.
pub proof fn placing_touches_one_vehicle<T>(s: Seq<T>, i: int, v: T, j: int)
    requires
        0 <= j < s.len(),
    ensures
        placed(s, i, v).len() == s.len(),
        placed(s, i, v)[j] == (if i == j {
            v
        } else {
            s[j]
        }),
{
}

} // verus!
