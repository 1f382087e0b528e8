//! The mission compiler: which of a scenario's tasks can be flown at all.

use vstd::prelude::*;
use crate::allocation::Task;
#[allow(unused_imports)]
use crate::allocation::{tasks_of, TaskModel};
use crate::float::whole_to_f32;
#[allow(unused_imports)]
use crate::float::f32_of_whole;
use crate::scenario::{Scenario, TaskSpec};
#[allow(unused_imports)]
use crate::scenario::vehicle_count;
#[allow(unused_imports)]
use crate::supervisor::pairs_of;
use crate::text::same;

verus! {

/// Infinity, single precision: the deadline of a task without one.
pub const NO_DEADLINE: u32 = 0x7F80_0000;

/// Transit altitude of a vehicle in whole metres: layers of five metres.
pub open spec fn transit_layer(vehicle_index: int) -> int {
    10 + 5 * vehicle_index
}

/// Transit altitude of a vehicle, single precision.
pub fn transit_altitude_m(vehicle_index: u8) -> (r: u32)
    ensures
        r == f32_of_whole(transit_layer(vehicle_index as int) as nat),
{
    whole_to_f32(10 + 5 * (vehicle_index as u32))
}

/// What geometry says of a task, with the numbers of its refusal as text.
#[derive(Debug, Clone)]
pub struct TaskFacts {
    /// Inside the fence's polygon.
    pub in_fence: bool,
    /// Inside the fence's altitude box.
    pub altitude_ok: bool,
    /// Not farther from home than the fence's corners and a margin.
    pub in_reach: bool,
    pub position_text: String,
    pub breach_text: String,
    pub z_text: String,
    pub ceiling_text: String,
    pub floor_text: String,
    pub distance_text: String,
    pub reach_text: String,
}

/// Why a task cannot be flown, if it cannot.
pub open spec fn unflyable(f: TaskFacts) -> Option<Seq<char>> {
    if !f.in_fence {
        Some(
            "task outside geofence polygon (pos "@ + f.position_text@ + ", breach "@
                + f.breach_text@ + " m)"@,
        )
    } else if !f.altitude_ok {
        Some(
            "task outside altitude box (z "@ + f.z_text@ + " m NED; box -"@ + f.ceiling_text@
                + "..-"@ + f.floor_text@ + ")"@,
        )
    } else if !f.in_reach {
        Some(
            "task unreachable: "@ + f.distance_text@ + " m from home, budget "@ + f.reach_text@
                + " m"@,
        )
    } else {
        None
    }
}

fn refuse(f: &TaskFacts) -> (r: Option<String>)
    ensures
        crate::fleet::opt_text(r) == unflyable(*f),
{
    if !f.in_fence {
        let mut s = String::from_str("task outside geofence polygon (pos ");
        s.append(f.position_text.as_str());
        s.append(", breach ");
        s.append(f.breach_text.as_str());
        s.append(" m)");
        return Some(s);
    }
    if !f.altitude_ok {
        let mut s = String::from_str("task outside altitude box (z ");
        s.append(f.z_text.as_str());
        s.append(" m NED; box -");
        s.append(f.ceiling_text.as_str());
        s.append("..-");
        s.append(f.floor_text.as_str());
        s.append(")");
        return Some(s);
    }
    if !f.in_reach {
        let mut s = String::from_str("task unreachable: ");
        s.append(f.distance_text.as_str());
        s.append(" m from home, budget ");
        s.append(f.reach_text.as_str());
        s.append(" m");
        return Some(s);
    }
    None
}

/// A task ready for allocation.
pub open spec fn compiled(t: TaskSpec) -> TaskModel {
    TaskModel {
        id: t.id@,
        north_m: t.pos_ned_m.x,
        east_m: t.pos_ned_m.y,
        hover_s: t.hover_s,
        reward: t.reward,
        deadline_s: match t.deadline_s {
            Some(d) => d,
            None => NO_DEADLINE,
        },
    }
}

#[verifier::ext_equal]
pub struct PlanModel {
    pub tasks: Seq<TaskModel>,
    pub rejections: Seq<(Seq<char>, Seq<char>)>,
}

/// The first `n` tasks: each is taken, or refused with its reason.
pub open spec fn planned(tasks: Seq<TaskSpec>, facts: Seq<TaskFacts>, n: nat) -> PlanModel
    decreases n,
{
    if n == 0 {
        PlanModel { tasks: Seq::empty(), rejections: Seq::empty() }
    } else {
        let p = planned(tasks, facts, (n - 1) as nat);
        match unflyable(facts[n - 1]) {
            Some(reason) => PlanModel {
                rejections: p.rejections.push((tasks[n - 1].id@, reason)),
                ..p
            },
            None => PlanModel { tasks: p.tasks.push(compiled(tasks[n - 1])), ..p },
        }
    }
}

/// A mission plan.
#[derive(Debug, Clone)]
pub struct MissionPlan {
    /// Tasks to allocate.
    pub tasks: Vec<Task>,
    /// Ids of refused tasks, with the reason.
    pub rejections: Vec<(String, String)>,
    /// Transit altitude of each vehicle, single precision.
    pub transit_altitude_m: Vec<u32>,
}

/// The first task from `i` on under an id.
pub open spec fn task_from(tasks: Seq<TaskModel>, id: Seq<char>, i: int) -> Option<int>
    decreases tasks.len() - i,
{
    if i >= tasks.len() {
        None
    } else if tasks[i].id == id {
        Some(i)
    } else {
        task_from(tasks, id, i + 1)
    }
}

impl MissionPlan {
    /// The place of a task.
    pub fn task_index(&self, id: &str) -> (r: Option<usize>)
        ensures
            (match r {
                Some(i) => Some(i as int),
                None => None,
            }) == task_from(tasks_of(self.tasks@), id@, 0),
    {
        let ghost all = tasks_of(self.tasks@);
        let mut i: usize = 0;
        while i < self.tasks.len()
            invariant
                i <= self.tasks@.len(),
                all == tasks_of(self.tasks@),
                task_from(all, id@, 0) == task_from(all, id@, i as int),
            decreases self.tasks@.len() - i,
        {
            assert(all[i as int] == self.tasks@[i as int]@);
            if same(self.tasks[i].id.as_str(), id) {
                return Some(i);
            }
            i = i + 1;
        }
        None
    }

    /// Compile a scenario.
    pub fn compile(scenario: &Scenario, facts: &Vec<TaskFacts>) -> (r: MissionPlan)
        requires
            facts@.len() == scenario.tasks@.len(),
        ensures
            tasks_of(r.tasks@) == planned(scenario.tasks@, facts@, facts@.len()).tasks,
            pairs_of(r.rejections@) == planned(
                scenario.tasks@,
                facts@,
                facts@.len(),
            ).rejections,
            r.transit_altitude_m@ == Seq::new(
                vehicle_count(*scenario) as nat,
                |i: int| f32_of_whole(transit_layer(i) as nat),
            ),
    {
        let mut tasks: Vec<Task> = Vec::new();
        let mut rejections: Vec<(String, String)> = Vec::new();
        let ghost specs = scenario.tasks@;
        let mut i: usize = 0;
        assert(tasks_of(tasks@) =~= Seq::<TaskModel>::empty());
        assert(pairs_of(rejections@) =~= Seq::<(Seq<char>, Seq<char>)>::empty());
        while i < facts.len()
            invariant
                i <= facts@.len(),
                specs == scenario.tasks@,
                facts@.len() == specs.len(),
                tasks_of(tasks@) == planned(specs, facts@, i as nat).tasks,
                pairs_of(rejections@) == planned(specs, facts@, i as nat).rejections,
            decreases facts@.len() - i,
        {
            let t = &scenario.tasks[i];
            match refuse(&facts[i]) {
                Some(reason) => {
                    let ghost before = rejections@;
                    rejections.push((t.id.clone(), reason));
                    assert(pairs_of(rejections@) =~= pairs_of(before).push((t.id@, reason@)));
                },
                None => {
                    let ghost before = tasks@;
                    let task = Task {
                        id: t.id.clone(),
                        north_m: t.pos_ned_m.x,
                        east_m: t.pos_ned_m.y,
                        hover_s: t.hover_s,
                        reward: t.reward,
                        deadline_s: match t.deadline_s {
                            Some(d) => d,
                            None => NO_DEADLINE,
                        },
                    };
                    tasks.push(task);
                    assert(tasks_of(tasks@) =~= tasks_of(before).push(task@));
                    assert(task@ =~= compiled(*t));
                },
            }
            i = i + 1;
        }
        let count: u8 = scenario.count();
        let mut layers: Vec<u32> = Vec::new();
        let mut v: u8 = 0;
        while v < count
            invariant
                v <= count,
                layers@.len() == v,
                forall|k: int|
                    0 <= k < v ==> #[trigger] layers@[k] == f32_of_whole(transit_layer(k) as nat),
            decreases count - v,
        {
            layers.push(transit_altitude_m(v));
            v = v + 1;
        }
        assert(layers@ =~= Seq::new(
            count as nat,
            |i: int| f32_of_whole(transit_layer(i) as nat),
        ));
        MissionPlan { tasks, rejections, transit_altitude_m: layers }
    }
}

// Laws.

/// Every task of a scenario ends up in the plan or among the refusals.
pub proof fn every_task_is_decided(tasks: Seq<TaskSpec>, facts: Seq<TaskFacts>, n: nat)
    ensures
        planned(tasks, facts, n).tasks.len() + planned(tasks, facts, n).rejections.len() == n,
    decreases n,
{
    if n > 0 {
        every_task_is_decided(tasks, facts, (n - 1) as nat);
    }
}

/// Transit layers of different vehicles differ by at least five metres.
pub proof fn layers_are_apart(a: int, b: int)
    requires
        0 <= a < b,
    ensures
        transit_layer(b) - transit_layer(a) >= 5,
{
}

/// The task after `n` others is planned as it was given, north and east from
/// its position and with no deadline where it has none, where it lies inside
/// the fence, its altitude box and the vehicle's reach; else it is rejected
/// under its id.
pub proof fn next_task_is_planned_or_rejected(tasks: Seq<TaskSpec>, facts: Seq<TaskFacts>, n: nat)
    requires
        n < tasks.len(),
        tasks.len() == facts.len(),
    ensures
        ({
            let b = planned(tasks, facts, n);
            let p = planned(tasks, facts, n + 1);
            let t = tasks[n as int];
            let f = facts[n as int];
            if f.in_fence && f.altitude_ok && f.in_reach {
                let c = p.tasks.last();
                &&& p.tasks.len() == b.tasks.len() + 1
                &&& p.tasks.drop_last() == b.tasks
                &&& p.rejections == b.rejections
                &&& c.id == t.id@
                &&& c.north_m == t.pos_ned_m.x
                &&& c.east_m == t.pos_ned_m.y
                &&& c.hover_s == t.hover_s
                &&& c.reward == t.reward
                &&& t.deadline_s matches Some(d) ==> c.deadline_s == d
                &&& t.deadline_s is None ==> c.deadline_s == 0x7F80_0000
            } else {
                &&& p.tasks == b.tasks
                &&& p.rejections.len() == b.rejections.len() + 1
                &&& p.rejections.drop_last() == b.rejections
                &&& p.rejections.last().0 == t.id@
            }
        }),
{
    let b = planned(tasks, facts, n);
    let p = planned(tasks, facts, n + 1);
    if p.tasks.len() > b.tasks.len() {
        assert(p.tasks.drop_last() =~= b.tasks);
    } else {
        assert(p.rejections.drop_last() =~= b.rejections);
    }
}

/// A task is found by its id, the first of them where several have it, and
/// not found only where none has.
pub proof fn tasks_are_found_by_id(tasks: Seq<TaskModel>, id: Seq<char>, from: int)
    requires
        0 <= from <= tasks.len(),
    ensures
        match task_from(tasks, id, from) {
            Some(k) => from <= k < tasks.len() && tasks[k].id == id && forall|j: int|
                from <= j < k ==> (#[trigger] tasks[j]).id != id,
            None => forall|j: int| from <= j < tasks.len() ==> (#[trigger] tasks[j]).id != id,
        },
    decreases tasks.len() - from,
{
    if from < tasks.len() && tasks[from].id != id {
        tasks_are_found_by_id(tasks, id, from + 1);
    }
}

/// The first vehicle transits at ten metres, each further one five higher.
pub proof fn layers_start_at_ten_metres(k: int)
    ensures
        transit_layer(0) == 10,
        transit_layer(k + 1) == transit_layer(k) + 5,
{
}

} // verus!
