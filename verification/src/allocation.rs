//! Task allocation: the order in which tasks are auctioned, who wins each,
//! and what each vehicle is left with.
//!
//! Bids are floating-point travel times that the application computes; here
//! they are compared.

use vstd::prelude::*;
use crate::float::f32_lt;
#[allow(unused_imports)]
use crate::float::{f32_less, f32_nan};

verus! {

/// A mission unit: one waypoint visit. Numbers are single precision.
#[derive(Debug, Clone, PartialEq, Eq)]
pub struct Task {
    pub id: String,
    /// Metres from home.
    pub north_m: u32,
    pub east_m: u32,
    pub hover_s: u32,
    pub reward: u32,
    /// Seconds into the run; infinity where there is none.
    pub deadline_s: u32,
}

#[verifier::ext_equal]
pub struct TaskModel {
    pub id: Seq<char>,
    pub north_m: u32,
    pub east_m: u32,
    pub hover_s: u32,
    pub reward: u32,
    pub deadline_s: u32,
}

impl View for Task {
    type V = TaskModel;

    open spec fn view(&self) -> TaskModel {
        TaskModel {
            id: self.id@,
            north_m: self.north_m,
            east_m: self.east_m,
            hover_s: self.hover_s,
            reward: self.reward,
            deadline_s: self.deadline_s,
        }
    }
}

pub open spec fn tasks_of(s: Seq<Task>) -> Seq<TaskModel> {
    Seq::new(s.len(), |i: int| s[i]@)
}

// Assignments.

/// Who flies what: the tasks of each vehicle, in the order they are flown.
#[derive(Debug, Clone, PartialEq, Eq)]
pub struct Assignment {
    pub per_vehicle: Vec<Vec<usize>>,
}

pub open spec fn queues_of(s: Seq<Vec<usize>>) -> Seq<Seq<usize>> {
    Seq::new(s.len(), |i: int| s[i]@)
}

impl View for Assignment {
    type V = Seq<Seq<usize>>;

    open spec fn view(&self) -> Seq<Seq<usize>> {
        queues_of(self.per_vehicle@)
    }
}

/// No vehicle has a task.
pub open spec fn nobody(n: nat) -> Seq<Seq<usize>> {
    Seq::new(n, |i: int| Seq::<usize>::empty())
}

/// The first vehicle from `v` on that has the task.
pub open spec fn owner_from(a: Seq<Seq<usize>>, task: usize, v: int) -> Option<int>
    decreases a.len() - v,
{
    if v >= a.len() {
        None
    } else if a[v].contains(task) {
        Some(v)
    } else {
        owner_from(a, task, v + 1)
    }
}

/// Number of tasks of the first `n` vehicles.
pub open spec fn load_of(a: Seq<Seq<usize>>, n: nat) -> nat
    decreases n,
{
    if n == 0 {
        0
    } else {
        load_of(a, (n - 1) as nat) + a[n - 1].len()
    }
}

fn holds_task(queue: &Vec<usize>, task: usize) -> (r: bool)
    ensures
        r == queue@.contains(task),
{
    let mut i: usize = 0;
    while i < queue.len()
        invariant
            i <= queue@.len(),
            forall|k: int| 0 <= k < i ==> #[trigger] queue@[k] != task,
        decreases queue@.len() - i,
    {
        if queue[i] == task {
            assert(queue@[i as int] == task);
            return true;
        }
        i = i + 1;
    }
    false
}

proof fn load_grows(a: Seq<Seq<usize>>, n: nat, m: nat)
    requires
        n <= m,
    ensures
        load_of(a, n) <= load_of(a, m),
    decreases m,
{
    if n < m {
        load_grows(a, n, (m - 1) as nat);
    }
}

impl Assignment {
    /// An assignment of nothing.
    pub fn empty(n_vehicles: usize) -> (r: Self)
        ensures
            r@ == nobody(n_vehicles as nat),
    {
        let mut per_vehicle: Vec<Vec<usize>> = Vec::new();
        let mut i: usize = 0;
        while i < n_vehicles
            invariant
                i <= n_vehicles,
                per_vehicle@.len() == i,
                forall|k: int|
                    0 <= k < i ==> (#[trigger] per_vehicle@[k])@ == Seq::<usize>::empty(),
            decreases n_vehicles - i,
        {
            per_vehicle.push(Vec::new());
            i = i + 1;
        }
        let r = Assignment { per_vehicle };
        assert(r@ =~= nobody(n_vehicles as nat));
        r
    }

    /// The vehicle that flies a task.
    pub fn task_owner(&self, task_index: usize) -> (r: Option<usize>)
        ensures
            (match r {
                Some(v) => Some(v as int),
                None => None,
            }) == owner_from(self@, task_index, 0),
    {
        let mut v: usize = 0;
        while v < self.per_vehicle.len()
            invariant
                v <= self.per_vehicle@.len(),
                owner_from(self@, task_index, 0) == owner_from(self@, task_index, v as int),
            decreases self.per_vehicle@.len() - v,
        {
            assert(self@[v as int] == self.per_vehicle@[v as int]@);
            if holds_task(&self.per_vehicle[v], task_index) {
                return Some(v);
            }
            v = v + 1;
        }
        None
    }

    /// Number of tasks that are flown.
    pub fn assigned_count(&self) -> (r: usize)
        requires
            load_of(self@, self@.len()) <= usize::MAX,
        ensures
            r == load_of(self@, self@.len()),
    {
        let mut n: usize = 0;
        let mut v: usize = 0;
        while v < self.per_vehicle.len()
            invariant
                v <= self.per_vehicle@.len(),
                n == load_of(self@, v as nat),
                load_of(self@, self@.len()) <= usize::MAX,
            decreases self.per_vehicle@.len() - v,
        {
            proof {
                assert(self@[v as int] == self.per_vehicle@[v as int]@);
                load_grows(self@, (v + 1) as nat, self@.len());
            }
            n = n + self.per_vehicle[v].len();
            v = v + 1;
        }
        n
    }

    fn award(&mut self, v: usize, task: usize)
        requires
            v < old(self)@.len(),
        ensures
            final(self)@ == old(self)@.update(v as int, old(self)@[v as int].push(task)),
    {
        self.per_vehicle[v].push(task);
        assert(self@ =~= old(self)@.update(v as int, old(self)@[v as int].push(task)));
    }
}

// The order of an auction.

/// `a` is auctioned in front of `b`: its deadline is earlier, or as early and
/// its reward higher.
pub open spec fn sooner(a: TaskModel, b: TaskModel) -> bool {
    f32_less(a.deadline_s, b.deadline_s) || (!f32_less(b.deadline_s, a.deadline_s) && f32_less(
        b.reward,
        a.reward,
    ))
}

fn is_sooner(a: &Task, b: &Task) -> (r: bool)
    ensures
        r == sooner(a@, b@),
{
    f32_lt(a.deadline_s, b.deadline_s) || (!f32_lt(b.deadline_s, a.deadline_s) && f32_lt(
        b.reward,
        a.reward,
    ))
}

/// Where task `k` goes among `r`: in front of the first one from `i` on that
/// it comes before.
pub open spec fn slot_from(tasks: Seq<TaskModel>, r: Seq<usize>, k: int, i: int) -> int
    decreases r.len() - i,
{
    if i >= r.len() || sooner(tasks[k], tasks[r[i] as int]) {
        i
    } else {
        slot_from(tasks, r, k, i + 1)
    }
}

/// The first `n` tasks in the order of an auction; equal ones as they came.
pub open spec fn auction_order(tasks: Seq<TaskModel>, n: nat) -> Seq<usize>
    decreases n,
{
    if n == 0 {
        Seq::empty()
    } else {
        let r = auction_order(tasks, (n - 1) as nat);
        r.insert(slot_from(tasks, r, n - 1, 0), (n - 1) as usize)
    }
}

/// Deadlines and rewards that can be compared.
pub open spec fn comparable(tasks: Seq<TaskModel>) -> bool {
    forall|i: int|
        0 <= i < tasks.len() ==> !f32_nan((#[trigger] tasks[i]).deadline_s) && !f32_nan(
            tasks[i].reward,
        )
}

/// The order in which tasks are auctioned.
pub fn order_tasks(tasks: &Vec<Task>) -> (r: Vec<usize>)
    requires
        comparable(tasks_of(tasks@)),
    ensures
        r@ == auction_order(tasks_of(tasks@), tasks@.len()),
        r@.len() == tasks@.len(),
        forall|i: int| 0 <= i < r@.len() ==> #[trigger] r@[i] < tasks@.len(),
{
    let ghost all = tasks_of(tasks@);
    let mut r: Vec<usize> = Vec::new();
    let mut k: usize = 0;
    while k < tasks.len()
        invariant
            k <= tasks@.len(),
            all == tasks_of(tasks@),
            r@ == auction_order(all, k as nat),
            r@.len() == k,
            forall|i: int| 0 <= i < r@.len() ==> #[trigger] r@[i] < k,
        decreases tasks@.len() - k,
    {
        let mut i: usize = 0;
        while i < r.len() && !is_sooner(&tasks[k], &tasks[r[i]])
            invariant
                i <= r@.len(),
                k < tasks@.len(),
                all == tasks_of(tasks@),
                forall|j: int| 0 <= j < r@.len() ==> #[trigger] r@[j] < k,
                slot_from(all, r@, k as int, 0) == slot_from(all, r@, k as int, i as int),
            decreases r@.len() - i,
        {
            i = i + 1;
        }
        let ghost before = r@;
        r.insert(i, k);
        proof {
            assert forall|j: int| 0 <= j < r@.len() implies #[trigger] r@[j] < k + 1 by {
                if j < i {
                    assert(r@[j] == before[j]);
                } else if j > i {
                    assert(r@[j] == before[j - 1]);
                }
            }
        }
        k = k + 1;
    }
    r
}

// Bids.

/// Infinity, single precision.
pub const INFINITE_BID: u32 = 0x7F80_0000;

/// The best of the first `n` bids: the lowest below infinity, and of equal
/// ones the first.
pub open spec fn best_of(bids: Seq<u32>, n: nat) -> Option<int>
    decreases n,
{
    if n == 0 {
        None
    } else {
        let b = best_of(bids, (n - 1) as nat);
        let limit = match b {
            Some(v) => bids[v],
            None => INFINITE_BID,
        };
        if f32_less(bids[n - 1], limit) {
            Some(n - 1)
        } else {
            b
        }
    }
}

/// The vehicle with the best bid, if any bid counts.
pub fn best_bid(bids: &Vec<u32>) -> (r: Option<usize>)
    ensures
        (match r {
            Some(v) => Some(v as int),
            None => None,
        }) == best_of(bids@, bids@.len()),
        r matches Some(v) ==> v < bids@.len(),
{
    let mut best: Option<usize> = None;
    let mut limit: u32 = INFINITE_BID;
    let mut v: usize = 0;
    while v < bids.len()
        invariant
            v <= bids@.len(),
            (match best {
                Some(b) => Some(b as int),
                None => None,
            }) == best_of(bids@, v as nat),
            best matches Some(b) ==> b < v && limit == bids@[b as int],
            best is None ==> limit == INFINITE_BID,
        decreases bids@.len() - v,
    {
        if f32_lt(bids[v], limit) {
            best = Some(v);
            limit = bids[v];
        }
        v = v + 1;
    }
    best
}

/// The vehicle with the best bid, the first one where no bid counts.
pub fn nearest(bids: &Vec<u32>) -> (r: usize)
    requires
        bids@.len() > 0,
    ensures
        r == (match best_of(bids@, bids@.len()) {
            Some(v) => v,
            None => 0,
        }),
        r < bids@.len(),
{
    match best_bid(bids) {
        Some(v) => v,
        None => 0,
    }
}

/// The place of the least of several costs, the first one where none counts.
pub open spec fn place_of_least(costs: Seq<u32>) -> int {
    match best_of(costs, costs.len()) {
        Some(v) => v,
        None => 0,
    }
}

/// The first `n` tasks, each with the vehicle it costs least; `costs` has a
/// row for every task and in it an entry for every vehicle.
pub open spec fn least_costs(costs: Seq<Vec<u32>>, n_vehicles: nat, n: nat) -> Seq<Seq<usize>>
    decreases n,
{
    if n == 0 || n_vehicles == 0 {
        nobody(n_vehicles)
    } else {
        let a = least_costs(costs, n_vehicles, (n - 1) as nat);
        let v = place_of_least(costs[n - 1]@);
        a.update(v, a[v].push((n - 1) as usize))
    }
}

/// Give every task to the vehicle it costs least, whatever else it flies.
pub fn static_argmin(costs: &Vec<Vec<u32>>, n_vehicles: usize) -> (r: Assignment)
    requires
        forall|i: int| 0 <= i < costs@.len() ==> (#[trigger] costs@[i])@.len() == n_vehicles,
    ensures
        r@ == least_costs(costs@, n_vehicles as nat, costs@.len()),
{
    let mut a = Assignment::empty(n_vehicles);
    if n_vehicles == 0 {
        return a;
    }
    let mut t: usize = 0;
    while t < costs.len()
        invariant
            t <= costs@.len(),
            n_vehicles > 0,
            forall|i: int| 0 <= i < costs@.len() ==> (#[trigger] costs@[i])@.len() == n_vehicles,
            a@.len() == n_vehicles,
            a@ == least_costs(costs@, n_vehicles as nat, t as nat),
        decreases costs@.len() - t,
    {
        let v: usize = nearest(&costs[t]);
        a.award(v, t);
        t = t + 1;
    }
    a
}

/// An auction that goes through the tasks one by one.
pub struct Auction {
    order: Vec<usize>,
    next: usize,
    result: Assignment,
}

#[verifier::ext_equal]
pub struct AuctionModel {
    pub order: Seq<usize>,
    /// Number of tasks that have been on offer.
    pub next: nat,
    pub result: Seq<Seq<usize>>,
}

impl View for Auction {
    type V = AuctionModel;

    closed spec fn view(&self) -> AuctionModel {
        AuctionModel { order: self.order@, next: self.next as nat, result: self.result@ }
    }
}

/// The task on offer.
pub open spec fn offered(m: AuctionModel) -> Option<usize> {
    if m.next < m.order.len() {
        Some(m.order[m.next as int])
    } else {
        None
    }
}

/// The task on offer goes to the best bid; no bid that counts, no award.
pub open spec fn awarded(m: AuctionModel, bids: Seq<u32>) -> AuctionModel {
    let task = m.order[m.next as int];
    AuctionModel {
        next: m.next + 1,
        result: match best_of(bids, bids.len()) {
            Some(v) => m.result.update(v, m.result[v].push(task)),
            None => m.result,
        },
        ..m
    }
}

impl Auction {
    /// An auction of tasks among vehicles.
    pub fn new(tasks: &Vec<Task>, n_vehicles: usize) -> (r: Self)
        requires
            comparable(tasks_of(tasks@)),
        ensures
            r@ == (AuctionModel {
                order: auction_order(tasks_of(tasks@), tasks@.len()),
                next: 0,
                result: nobody(n_vehicles as nat),
            }),
    {
        Auction { order: order_tasks(tasks), next: 0, result: Assignment::empty(n_vehicles) }
    }

    /// The task on offer, none when all have been.
    pub fn on_offer(&self) -> (r: Option<usize>)
        ensures
            r == (if self@.next < self@.order.len() {
                Some(self@.order[self@.next as int])
            } else {
                None
            }),
            r == offered(self@),
    {
        if self.next < self.order.len() {
            Some(self.order[self.next])
        } else {
            None
        }
    }

    /// Award the task on offer; tells who got it.
    pub fn award(&mut self, bids: &Vec<u32>) -> (r: Option<usize>)
        requires
            old(self)@.next < old(self)@.order.len(),
            bids@.len() == old(self)@.result.len(),
        ensures
            final(self)@ == awarded(old(self)@, bids@),
            (match r {
                Some(v) => Some(v as int),
                None => None,
            }) == best_of(bids@, bids@.len()),
    {
        let offered: usize = self.order.len();
        assert(self.next < offered);
        let task: usize = self.order[self.next];
        let best = best_bid(bids);
        match best {
            Some(v) => {
                self.result.award(v, task);
            },
            None => {},
        }
        self.next = self.next + 1;
        best
    }

    /// Give the task on offer to the nearest vehicle, whatever the bids.
    pub fn award_nearest(&mut self, bids: &Vec<u32>) -> (r: usize)
        requires
            old(self)@.next < old(self)@.order.len(),
            bids@.len() == old(self)@.result.len(),
            bids@.len() > 0,
        ensures
            r == (match best_of(bids@, bids@.len()) {
                Some(v) => v,
                None => 0,
            }),
            final(self)@ == (AuctionModel {
                next: old(self)@.next + 1,
                result: old(self)@.result.update(
                    r as int,
                    old(self)@.result[r as int].push(old(self)@.order[old(self)@.next as int]),
                ),
                ..old(self)@
            }),
    {
        let offered: usize = self.order.len();
        assert(self.next < offered);
        let task: usize = self.order[self.next];
        let v: usize = nearest(bids);
        self.result.award(v, task);
        self.next = self.next + 1;
        v
    }

    /// Who flies what, so far.
    pub fn assignment(self) -> (r: Assignment)
        ensures
            r@ == self@.result,
    {
        self.result
    }
}

// Pooling.

/// A queue over the pool, over all tasks.
pub open spec fn unpooled(queue: Seq<usize>, pool: Seq<usize>) -> Seq<usize> {
    Seq::new(queue.len(), |i: int| pool[queue[i] as int])
}

/// Turn an assignment of pooled tasks into one of all tasks; `pool` names the
/// pooled tasks.
pub fn reallocate(pool: &Vec<usize>, sub: &Assignment) -> (r: Assignment)
    requires
        forall|v: int, i: int|
            0 <= v < sub@.len() && 0 <= i < sub@[v].len() ==> #[trigger] sub@[v][i] < pool@.len(),
    ensures
        r@ == Seq::new(sub@.len(), |v: int| unpooled(sub@[v], pool@)),
{
    let mut per_vehicle: Vec<Vec<usize>> = Vec::new();
    let mut v: usize = 0;
    while v < sub.per_vehicle.len()
        invariant
            v <= sub.per_vehicle@.len(),
            per_vehicle@.len() == v,
            forall|w: int, i: int|
                0 <= w < sub@.len() && 0 <= i < sub@[w].len() ==> #[trigger] sub@[w][i]
                    < pool@.len(),
            forall|w: int|
                0 <= w < v ==> (#[trigger] per_vehicle@[w])@ == unpooled(sub@[w], pool@),
        decreases sub.per_vehicle@.len() - v,
    {
        let local = &sub.per_vehicle[v];
        assert(sub@[v as int] == local@);
        let mut queue: Vec<usize> = Vec::new();
        let mut i: usize = 0;
        while i < local.len()
            invariant
                i <= local@.len(),
                v < sub@.len(),
                sub@[v as int] == local@,
                queue@.len() == i,
                forall|w: int, i: int|
                    0 <= w < sub@.len() && 0 <= i < sub@[w].len() ==> #[trigger] sub@[w][i]
                        < pool@.len(),
                forall|k: int| 0 <= k < i ==> #[trigger] queue@[k] == pool@[local@[k] as int],
            decreases local@.len() - i,
        {
            assert(sub@[v as int][i as int] < pool@.len());
            queue.push(pool[local[i]]);
            i = i + 1;
        }
        assert(queue@ =~= unpooled(sub@[v as int], pool@));
        per_vehicle.push(queue);
        v = v + 1;
    }
    let r = Assignment { per_vehicle };
    assert(r@ =~= Seq::new(sub@.len(), |v: int| unpooled(sub@[v], pool@)));
    r
}

// A deterministic random source.

/// Xorshift generator with a multiplied output.
#[derive(Debug, Clone, Copy, PartialEq, Eq, Structural)]
pub struct Rng(u64);

pub const RNG_MULTIPLIER: u64 = 0x2545_F491_4F6C_DD1D;

pub open spec fn shifted_once(x: u64) -> u64 {
    x ^ (x >> 12)
}

pub open spec fn shifted_twice(x: u64) -> u64 {
    x ^ (x << 25)
}

pub open spec fn shifted_thrice(x: u64) -> u64 {
    x ^ (x >> 27)
}

/// The state after a number was drawn.
pub open spec fn rng_next(x: u64) -> u64 {
    shifted_thrice(shifted_twice(shifted_once(x)))
}

/// The number drawn from a state.
pub open spec fn rng_output(x: u64) -> u64 {
    rng_next(x).wrapping_mul(RNG_MULTIPLIER)
}

impl View for Rng {
    type V = u64;

    closed spec fn view(&self) -> u64 {
        self.0
    }
}

impl Rng {
    /// A generator that always draws the same numbers from a seed.
    pub fn new(seed: u64) -> (r: Self)
        ensures
            r@ == seed | 1,
    {
        Rng(seed | 1)
    }

    /// Draw a number.
    pub fn next_u64(&mut self) -> (r: u64)
        ensures
            final(self)@ == rng_next(old(self)@),
            r == rng_output(old(self)@),
    {
        let mut x: u64 = self.0;
        x = x ^ (x >> 12);
        x = x ^ (x << 25);
        x = x ^ (x >> 27);
        self.0 = x;
        x.wrapping_mul(RNG_MULTIPLIER)
    }

    /// Draw a number from a range, both ends included.
    pub fn uniform_int(&mut self, lo: u32, hi: u32) -> (r: u32)
        requires
            lo <= hi,
            hi - lo < u32::MAX,
        ensures
            final(self)@ == rng_next(old(self)@),
            r == lo + rng_output(old(self)@) as int % (hi - lo + 1),
            lo <= r <= hi,
    {
        let span: u64 = (hi - lo + 1) as u64;
        let n: u64 = self.next_u64();
        lo + (n % span) as u32
    }
}

// Laws.

proof fn best_is_in_range(bids: Seq<u32>, n: nat)
    ensures
        best_of(bids, n) matches Some(v) ==> 0 <= v < n && f32_less(bids[v], INFINITE_BID),
    decreases n,
{
    if n > 0 {
        best_is_in_range(bids, (n - 1) as nat);
    }
}

/// The winner bids no more than anyone whose bid is a number, and less than
/// everyone in front of it; nobody wins only if nobody bids below infinity.
pub proof fn best_bid_wins(bids: Seq<u32>, n: nat, w: int)
    requires
        0 <= w < n <= bids.len(),
    ensures
        best_of(bids, n) matches Some(v) ==> 0 <= v < n && !f32_less(bids[w], bids[v]),
        best_of(bids, n) matches Some(v) ==> w < v && !f32_nan(bids[w]) ==> f32_less(
            bids[v],
            bids[w],
        ),
        best_of(bids, n) is None ==> !f32_less(bids[w], INFINITE_BID),
    decreases n,
{
    let m = (n - 1) as nat;
    best_is_in_range(bids, m);
    best_is_in_range(bids, n);
    if w < m {
        best_bid_wins(bids, m, w);
    }
}

proof fn order_holds(tasks: Seq<TaskModel>, n: nat)
    requires
        n <= usize::MAX,
    ensures
        auction_order(tasks, n).len() == n,
        forall|i: int| 0 <= i < n ==> (#[trigger] auction_order(tasks, n)[i]) < n,
        forall|i: int, j: int|
            0 <= i < j < n ==> #[trigger] auction_order(tasks, n)[i] != #[trigger] auction_order(
                tasks,
                n,
            )[j],
    decreases n,
{
    if n > 0 {
        let b = auction_order(tasks, (n - 1) as nat);
        order_holds(tasks, (n - 1) as nat);
        slot_in_range(tasks, b, n - 1, 0);
        let p = slot_from(tasks, b, n - 1, 0);
        let r = auction_order(tasks, n);
        assert forall|i: int| 0 <= i < n implies (#[trigger] r[i]) < n by {
            if i < p {
                assert(r[i] == b[i]);
            } else if i > p {
                assert(r[i] == b[i - 1]);
            }
        }
        assert forall|i: int, j: int| 0 <= i < j < n implies #[trigger] r[i] != #[trigger] r[j] by {
            let x = if i < p {
                i
            } else {
                i - 1
            };
            let y = if j < p {
                j
            } else {
                j - 1
            };
            if i != p {
                assert(r[i] == b[x]);
            }
            if j != p {
                assert(r[j] == b[y]);
            }
        }
    }
}

proof fn slot_in_range(tasks: Seq<TaskModel>, r: Seq<usize>, k: int, i: int)
    requires
        0 <= i <= r.len(),
    ensures
        i <= slot_from(tasks, r, k, i) <= r.len(),
        slot_from(tasks, r, k, i) < r.len() ==> sooner(
            tasks[k],
            tasks[r[slot_from(tasks, r, k, i)] as int],
        ),
        forall|j: int|
            i <= j < slot_from(tasks, r, k, i) ==> !sooner(tasks[k], tasks[(#[trigger] r[j]) as int]),
    decreases r.len() - i,
{
    if i < r.len() && !sooner(tasks[k], tasks[r[i] as int]) {
        slot_in_range(tasks, r, k, i + 1);
    }
}

/// Every task is auctioned exactly once, none behind one it comes before; tasks
/// of equal deadline and reward keep the order in which they were given.
pub proof fn order_is_by_deadline(tasks: Seq<TaskModel>, n: nat)
    requires
        n <= tasks.len(),
        n <= usize::MAX,
        comparable(tasks),
    ensures
        ({
            let r = auction_order(tasks, n);
            &&& r.len() == n
            &&& r.no_duplicates()
            &&& forall|i: int| 0 <= i < n ==> (#[trigger] r[i]) < n
            &&& forall|i: int, j: int|
                0 <= i < j < n ==> !sooner(
                    tasks[(#[trigger] r[j]) as int],
                    tasks[(#[trigger] r[i]) as int],
                ) && (!sooner(tasks[r[i] as int], tasks[r[j] as int]) ==> r[i] < r[j])
        }),
    decreases n,
{
    order_holds(tasks, n);
    if n > 0 {
        let k = n - 1;
        let b = auction_order(tasks, k as nat);
        order_is_by_deadline(tasks, k as nat);
        slot_in_range(tasks, b, k, 0);
        let p = slot_from(tasks, b, k, 0);
        let r = auction_order(tasks, n);
        assert forall|i: int, j: int| 0 <= i < j < n implies !sooner(
            tasks[(#[trigger] r[j]) as int],
            tasks[(#[trigger] r[i]) as int],
        ) && (!sooner(tasks[r[i] as int], tasks[r[j] as int]) ==> r[i] < r[j]) by {
            let x = if i < p {
                i
            } else {
                i - 1
            };
            let y = if j < p {
                j
            } else {
                j - 1
            };
            if i != p {
                assert(r[i] == b[x]);
            }
            if j != p {
                assert(r[j] == b[y]);
            }
            if i == p {
                assert(sooner(tasks[k], tasks[b[p] as int]));
                let late = tasks[r[j] as int];
                assert(!f32_nan(late.deadline_s) && !f32_nan(late.reward));
                assert(!f32_nan(tasks[k].deadline_s) && !f32_nan(tasks[k].reward));
                assert(!f32_nan(tasks[b[p] as int].deadline_s) && !f32_nan(
                    tasks[b[p] as int].reward,
                ));
                if y > p {
                    assert(!sooner(tasks[b[y] as int], tasks[b[p] as int]));
                }
            }
        }
    }
}

proof fn longer_queue_adds_one(a: Seq<Seq<usize>>, v: int, task: usize, n: nat)
    requires
        0 <= v < a.len(),
        n <= a.len(),
    ensures
        load_of(a.update(v, a[v].push(task)), n) == load_of(a, n) + if v < n {
            1nat
        } else {
            0nat
        },
    decreases n,
{
    if n > 0 {
        longer_queue_adds_one(a, v, task, (n - 1) as nat);
    }
}

/// Each award gives away one task, to the winner and to nobody else.
pub proof fn award_gives_one_task(m: AuctionModel, bids: Seq<u32>)
    requires
        m.next < m.order.len(),
        bids.len() == m.result.len(),
    ensures
        ({
            let r = awarded(m, bids);
            let best = best_of(bids, bids.len());
            &&& r.result.len() == m.result.len()
            &&& load_of(r.result, r.result.len()) == load_of(m.result, m.result.len()) + if best
                is Some {
                1nat
            } else {
                0nat
            }
            &&& forall|v: int|
                0 <= v < m.result.len() && best != Some(v) ==> #[trigger] r.result[v]
                    == m.result[v]
        }),
{
    best_is_in_range(bids, bids.len());
    match best_of(bids, bids.len()) {
        Some(v) => longer_queue_adds_one(
            m.result,
            v,
            m.order[m.next as int],
            m.result.len(),
        ),
        None => {},
    }
}

/// An auction after some rounds of bids.
pub open spec fn after_rounds(m: AuctionModel, rounds: Seq<Seq<u32>>) -> AuctionModel
    decreases rounds.len(),
{
    if rounds.len() == 0 {
        m
    } else {
        awarded(after_rounds(m, rounds.drop_last()), rounds.last())
    }
}

/// A vehicle flies a task as the `i`th of its queue.
pub open spec fn flies(a: Seq<Seq<usize>>, v: int, i: int, task: usize) -> bool {
    0 <= v < a.len() && 0 <= i < a[v].len() && a[v][i] == task
}

/// Some vehicle flies a task.
pub open spec fn is_flown(a: Seq<Seq<usize>>, task: usize) -> bool {
    exists|v: int, i: int| flies(a, v, i, task)
}

/// The tasks of `given`, each flown once, and no others.
pub open spec fn shares_out(a: Seq<Seq<usize>>, given: Seq<usize>) -> bool {
    &&& forall|k: int| 0 <= k < given.len() ==> is_flown(a, #[trigger] given[k])
    &&& forall|v: int, i: int|
        0 <= v < a.len() && 0 <= i < a[v].len() ==> given.contains(#[trigger] a[v][i])
    &&& forall|v: int, i: int, w: int, j: int, t: usize|
        #[trigger] flies(a, v, i, t) && #[trigger] flies(a, w, j, t) ==> v == w && i == j
}

proof fn sharing_goes_on(a: Seq<Seq<usize>>, given: Seq<usize>, v: int, task: usize)
    requires
        shares_out(a, given),
        0 <= v < a.len(),
        !given.contains(task),
    ensures
        shares_out(a.update(v, a[v].push(task)), given.push(task)),
{
    let b = a.update(v, a[v].push(task));
    let more = given.push(task);
    assert forall|k: int| 0 <= k < more.len() implies is_flown(b, #[trigger] more[k]) by {
        if k < given.len() {
            assert(is_flown(a, given[k]));
            let (w, i) = choose|w: int, i: int| flies(a, w, i, given[k]);
            assert(flies(b, w, i, more[k]));
        } else {
            assert(flies(b, v, a[v].len() as int, more[k]));
        }
    }
    assert forall|w: int, i: int| 0 <= w < b.len() && 0 <= i < b[w].len() implies more.contains(
        #[trigger] b[w][i],
    ) by {
        if w == v && i == a[v].len() {
            assert(more[given.len() as int] == task);
        } else {
            assert(b[w][i] == a[w][i]);
            let k = choose|k: int| 0 <= k < given.len() && given[k] == a[w][i];
            assert(more[k] == a[w][i]);
        }
    }
    assert forall|w: int, i: int, x: int, j: int, t: usize| #[trigger]
        flies(b, w, i, t) && #[trigger] flies(b, x, j, t) implies w == x && i == j by {
        let new_one = w == v && i == a[v].len();
        let new_other = x == v && j == a[v].len();
        if !new_one {
            assert(flies(a, w, i, t));
            assert(given.contains(a[w][i]));
        }
        if !new_other {
            assert(flies(a, x, j, t));
            assert(given.contains(a[x][j]));
        }
    }
}

proof fn rounds_share_out(m: AuctionModel, rounds: Seq<Seq<u32>>)
    requires
        m.next == 0,
        m.result == nobody(m.result.len()),
        m.order.no_duplicates(),
        rounds.len() <= m.order.len(),
        forall|k: int|
            0 <= k < rounds.len() ==> (#[trigger] rounds[k]).len() == m.result.len() && best_of(
                rounds[k],
                rounds[k].len(),
            ) is Some,
    ensures
        ({
            let r = after_rounds(m, rounds);
            &&& r.order == m.order
            &&& r.next == rounds.len()
            &&& r.result.len() == m.result.len()
            &&& shares_out(r.result, m.order.subrange(0, rounds.len() as int))
        }),
    decreases rounds.len(),
{
    if rounds.len() > 0 {
        let before = rounds.drop_last();
        let k = before.len() as int;
        assert(rounds.last() == rounds[k]);
        assert forall|j: int| 0 <= j < before.len() implies (#[trigger] before[j]).len()
            == m.result.len() && best_of(before[j], before[j].len()) is Some by {
            assert(before[j] == rounds[j]);
        }
        rounds_share_out(m, before);
        let r = after_rounds(m, before);
        let given = m.order.subrange(0, k);
        best_is_in_range(rounds.last(), rounds.last().len());
        let v = best_of(rounds.last(), rounds.last().len())->0;
        assert(!given.contains(m.order[k])) by {
            if given.contains(m.order[k]) {
                let j = choose|j: int| 0 <= j < given.len() && given[j] == m.order[k];
                assert(m.order[j] == m.order[k]);
            }
        }
        sharing_goes_on(r.result, given, v, m.order[k]);
        assert(m.order.subrange(0, k + 1) =~= given.push(m.order[k]));
    } else {
        assert(m.order.subrange(0, 0) =~= Seq::<usize>::empty());
    }
}

/// Where every task finds a bid that counts, the finished auction gives each
/// task to exactly one vehicle, and nothing else.
pub proof fn auction_shares_out_the_tasks(
    tasks: Seq<TaskModel>,
    n_vehicles: nat,
    rounds: Seq<Seq<u32>>,
)
    requires
        comparable(tasks),
        tasks.len() <= usize::MAX,
        rounds.len() == tasks.len(),
        forall|k: int|
            0 <= k < rounds.len() ==> (#[trigger] rounds[k]).len() == n_vehicles && best_of(
                rounds[k],
                rounds[k].len(),
            ) is Some,
    ensures
        ({
            let opened = AuctionModel {
                order: auction_order(tasks, tasks.len()),
                next: 0,
                result: nobody(n_vehicles),
            };
            let a = after_rounds(opened, rounds).result;
            &&& a.len() == n_vehicles
            &&& forall|t: usize| 0 <= t < tasks.len() ==> #[trigger] is_flown(a, t)
            &&& forall|v: int, i: int|
                0 <= v < a.len() && 0 <= i < a[v].len() ==> (#[trigger] a[v][i]) < tasks.len()
            &&& forall|v: int, i: int, w: int, j: int, t: usize|
                #[trigger] flies(a, v, i, t) && #[trigger] flies(a, w, j, t) ==> v == w && i == j
        }),
{
    let order = auction_order(tasks, tasks.len());
    let opened = AuctionModel { order, next: 0, result: nobody(n_vehicles) };
    order_is_by_deadline(tasks, tasks.len());
    rounds_share_out(opened, rounds);
    let a = after_rounds(opened, rounds).result;
    assert(order.subrange(0, rounds.len() as int) =~= order);
    assert forall|t: usize| 0 <= t < tasks.len() implies #[trigger] is_flown(a, t) by {
        every_task_is_in_order(order, t);
        let k = choose|k: int| 0 <= k < order.len() && order[k] == t;
        assert(is_flown(a, order[k]));
    }
    assert forall|v: int, i: int| 0 <= v < a.len() && 0 <= i < a[v].len() implies (
    #[trigger] a[v][i]) < tasks.len() by {
        assert(order.contains(a[v][i]));
    }
}

/// A list of `n` different numbers below `n` has every one of them.
proof fn every_task_is_in_order(order: Seq<usize>, t: usize)
    requires
        order.no_duplicates(),
        forall|i: int| 0 <= i < order.len() ==> (#[trigger] order[i]) < order.len(),
        t < order.len(),
    ensures
        order.contains(t),
{
    let s = order.map_values(|x: usize| x as int);
    assert(s.no_duplicates());
    let range = vstd::set_lib::set_int_range(0, order.len() as int);
    vstd::set_lib::lemma_int_range(0, order.len() as int);
    s.unique_seq_to_set();
    assert(s.to_set().subset_of(range)) by {
        assert forall|x: int| s.to_set().contains(x) implies range.contains(x) by {
            let i = choose|i: int| 0 <= i < s.len() && s[i] == x;
            assert(order[i] < order.len());
        }
    }
    vstd::set_lib::lemma_subset_equality(s.to_set(), range);
    assert(range.contains(t as int));
    let i = choose|i: int| 0 <= i < s.len() && s[i] == t as int;
    assert(order[i] == t);
}

} // verus!
