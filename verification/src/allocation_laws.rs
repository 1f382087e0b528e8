//! Who gets which task, told by the numbers alone.

use vstd::prelude::*;
#[allow(unused_imports)]
use crate::allocation::{
    auction_order, awarded, best_bid_wins, best_of, comparable, least_costs, load_of, nobody,
    offered, order_is_by_deadline, owner_from, place_of_least, rng_next, rng_output, sooner,
    unpooled, AuctionModel, TaskModel,
};
#[allow(unused_imports)]
use crate::float::{f32_order_is_by_rank, f32_rank, f32_ranked};

verus! {

/// A task comes no later than another: its deadline is earlier, or the
/// deadlines are equal and its reward is no smaller.
pub open spec fn no_later(a: TaskModel, b: TaskModel) -> bool {
    f32_rank(a.deadline_s) < f32_rank(b.deadline_s) || (f32_rank(a.deadline_s) == f32_rank(
        b.deadline_s,
    ) && f32_rank(a.reward) >= f32_rank(b.reward))
}

/// Tasks are auctioned by deadline, the earliest first; among equal deadlines
/// the largest reward comes first; among equal rewards the task given first.
pub proof fn earliest_then_dearest_comes_first(tasks: Seq<TaskModel>, i: int, j: int)
    requires
        comparable(tasks),
        tasks.len() <= usize::MAX,
        0 <= i < j < tasks.len(),
    ensures
        ({
            let r = auction_order(tasks, tasks.len());
            let a = tasks[r[i] as int];
            let b = tasks[r[j] as int];
            &&& no_later(a, b)
            &&& f32_rank(a.deadline_s) == f32_rank(b.deadline_s) && f32_rank(a.reward) == f32_rank(
                b.reward,
            ) ==> r[i] < r[j]
        }),
{
    order_is_by_deadline(tasks, tasks.len());
    let r = auction_order(tasks, tasks.len());
    assert(r[i] < tasks.len() && r[j] < tasks.len());
    let a = tasks[r[i] as int];
    let b = tasks[r[j] as int];
    assert(!sooner(b, a) && (!sooner(a, b) ==> r[i] < r[j]));
    f32_order_is_by_rank(a.deadline_s, b.deadline_s);
    f32_order_is_by_rank(b.deadline_s, a.deadline_s);
    f32_order_is_by_rank(a.reward, b.reward);
    f32_order_is_by_rank(b.reward, a.reward);
}

/// A bid that is a number below infinity.
pub open spec fn counts(bid: u32) -> bool {
    f32_ranked(bid) && f32_rank(bid) < 0x7F80_0000
}

/// `v` made the lowest bid, before anyone who bids the same.
pub open spec fn lowest(bids: Seq<u32>, v: int) -> bool {
    &&& 0 <= v < bids.len()
    &&& counts(bids[v])
    &&& forall|w: int|
        0 <= w < bids.len() && f32_ranked(#[trigger] bids[w]) ==> f32_rank(bids[v]) <= f32_rank(
            bids[w],
        ) && (w < v ==> f32_rank(bids[v]) < f32_rank(bids[w]))
}

pub open spec fn nobody_bids(bids: Seq<u32>) -> bool {
    forall|w: int| 0 <= w < bids.len() ==> !counts(#[trigger] bids[w])
}

proof fn best_is_lowest(bids: Seq<u32>)
    ensures
        match best_of(bids, bids.len()) {
            Some(v) => lowest(bids, v),
            None => nobody_bids(bids),
        },
{
    best_counts(bids, bids.len());
    let n = bids.len();
    assert forall|w: int| 0 <= w < n implies match best_of(bids, n) {
        Some(v) => f32_ranked(#[trigger] bids[w]) ==> f32_rank(bids[v]) <= f32_rank(bids[w]) && (w
            < v ==> f32_rank(bids[v]) < f32_rank(bids[w])),
        None => !counts(bids[w]),
    } by {
        best_bid_wins(bids, n, w);
        f32_order_is_by_rank(bids[w], 0x7F80_0000);
        if let Some(v) = best_of(bids, n) {
            f32_order_is_by_rank(bids[w], bids[v]);
            f32_order_is_by_rank(bids[v], bids[w]);
        }
    }
}

proof fn best_counts(bids: Seq<u32>, n: nat)
    requires
        n <= bids.len(),
    ensures
        best_of(bids, n) matches Some(v) ==> 0 <= v < n && counts(bids[v]),
    decreases n,
{
    if n > 0 {
        best_counts(bids, (n - 1) as nat);
        let limit = match best_of(bids, (n - 1) as nat) {
            Some(v) => bids[v],
            None => 0x7F80_0000u32,
        };
        f32_order_is_by_rank(bids[n - 1], limit);
    }
}

/// The task on offer goes to the back of the queue of the vehicle with the
/// lowest bid, to the first of them where several bid it; everybody else's
/// queue stays as it is. Where nobody makes a bid below infinity the task goes
/// to nobody. Either way the next task is on offer.
pub proof fn lowest_bidder_gets_the_task(m: AuctionModel, bids: Seq<u32>, v: int)
    requires
        m.next < m.order.len(),
        bids.len() == m.result.len(),
        0 <= v < m.result.len(),
    ensures
        ({
            let r = awarded(m, bids);
            &&& r.order == m.order
            &&& r.next == m.next + 1
            &&& r.result.len() == m.result.len()
            &&& if lowest(bids, v) {
                &&& r.result[v].len() == m.result[v].len() + 1
                &&& r.result[v].drop_last() == m.result[v]
                &&& r.result[v].last() == m.order[m.next as int]
            } else {
                r.result[v] == m.result[v]
            }
        }),
{
    best_is_lowest(bids);
    if let Some(b) = best_of(bids, bids.len()) {
        if lowest(bids, v) && v != b {
            assert(f32_ranked(bids[v]) && f32_ranked(bids[b]));
            assert(false);
        }
        assert(m.result[b].push(m.order[m.next as int]).drop_last() =~= m.result[b]);
    }
}

/// The vehicle a task is cheapest for: the lowest cost below infinity, else
/// the first vehicle.
pub open spec fn cheapest(costs: Seq<u32>, v: int) -> bool {
    lowest(costs, v) || (nobody_bids(costs) && v == 0)
}

proof fn least_costs_step(costs: Seq<Vec<u32>>, n_vehicles: nat, n: nat)
    requires
        n <= costs.len() <= usize::MAX,
        n_vehicles > 0,
        forall|i: int| 0 <= i < costs.len() ==> (#[trigger] costs[i])@.len() == n_vehicles,
    ensures
        ({
            let a = least_costs(costs, n_vehicles, n);
            &&& a.len() == n_vehicles
            &&& forall|v: int, i: int|
                0 <= v < a.len() && 0 <= i < a[v].len() ==> (#[trigger] a[v][i]) < n && cheapest(
                    costs[a[v][i] as int]@,
                    v,
                )
            &&& forall|v: int, i: int, j: int|
                0 <= v < a.len() && 0 <= i < j < a[v].len() ==> #[trigger] a[v][i]
                    < #[trigger] a[v][j]
            &&& load_of(a, a.len()) == n
        }),
    decreases n,
{
    if n == 0 {
        nobody_carries_nothing(n_vehicles, n_vehicles);
    } else {
        let k = n - 1;
        least_costs_step(costs, n_vehicles, k as nat);
        let b = least_costs(costs, n_vehicles, k as nat);
        let c = costs[k]@;
        let w = place_of_least(c);
        best_is_lowest(c);
        assert(cheapest(c, w));
        let a = least_costs(costs, n_vehicles, n);
        assert(a == b.update(w, b[w].push(k as usize)));
        assert forall|v: int, i: int| 0 <= v < a.len() && 0 <= i < a[v].len() implies (
        #[trigger] a[v][i]) < n && cheapest(costs[a[v][i] as int]@, v) by {
            if v == w && i == b[w].len() {
            } else {
                assert(a[v][i] == b[v][i]);
            }
        }
        assert forall|v: int, i: int, j: int|
            0 <= v < a.len() && 0 <= i < j < a[v].len() implies #[trigger] a[v][i]
            < #[trigger] a[v][j] by {
            assert(a[v][i] == b[v][i]);
            if v == w && j == b[w].len() {
                assert(b[v][i] < k);
            } else {
                assert(a[v][j] == b[v][j]);
            }
        }
        one_more_task_is_one_more(b, w, k as usize);
    }
}

proof fn nobody_carries_nothing(n_vehicles: nat, n: nat)
    requires
        n <= n_vehicles,
    ensures
        load_of(nobody(n_vehicles), n) == 0,
    decreases n,
{
    if n > 0 {
        nobody_carries_nothing(n_vehicles, (n - 1) as nat);
    }
}

proof fn queue_grows_by_one(a: Seq<Seq<usize>>, v: int, task: usize, n: nat)
    requires
        0 <= v < a.len(),
        n <= a.len(),
    ensures
        load_of(a.update(v, a[v].push(task)), n) == load_of(a, n) + if v < n {
            1nat
        } else {
            0nat
        },
    decreases n,
{
    if n > 0 {
        queue_grows_by_one(a, v, task, (n - 1) as nat);
    }
}

/// The number of assigned tasks is the number of queue entries: none to begin
/// with, and one more for every task put in a queue.
pub proof fn one_more_task_is_one_more(a: Seq<Seq<usize>>, v: int, task: usize)
    requires
        0 <= v < a.len(),
    ensures
        load_of(a.update(v, a[v].push(task)), a.len()) == load_of(a, a.len()) + 1,
        load_of(nobody(a.len()), a.len()) == 0,
{
    queue_grows_by_one(a, v, task, a.len());
    nobody_carries_nothing(a.len(), a.len());
}

/// By least cost, every vehicle flies, in order, tasks that are cheapest for
/// it, and as many tasks are flown as there are: each of them, by one vehicle.
pub proof fn tasks_go_where_they_are_cheapest(costs: Seq<Vec<u32>>, n_vehicles: nat)
    requires
        costs.len() <= usize::MAX,
        n_vehicles > 0,
        forall|i: int| 0 <= i < costs.len() ==> (#[trigger] costs[i])@.len() == n_vehicles,
    ensures
        ({
            let a = least_costs(costs, n_vehicles, costs.len());
            &&& a.len() == n_vehicles
            &&& forall|v: int, i: int|
                0 <= v < a.len() && 0 <= i < a[v].len() ==> (#[trigger] a[v][i]) < costs.len()
                    && cheapest(costs[a[v][i] as int]@, v)
            &&& forall|v: int, i: int, j: int|
                0 <= v < a.len() && 0 <= i < j < a[v].len() ==> #[trigger] a[v][i]
                    < #[trigger] a[v][j]
            &&& load_of(a, a.len()) == costs.len()
        }),
{
    least_costs_step(costs, n_vehicles, costs.len());
}

/// The owner of a task is the first vehicle whose queue has it, and nobody
/// where no queue does.
pub proof fn owner_has_the_task(a: Seq<Seq<usize>>, task: usize, from: int)
    requires
        0 <= from <= a.len(),
    ensures
        match owner_from(a, task, from) {
            Some(v) => from <= v < a.len() && a[v].contains(task) && forall|w: int|
                from <= w < v ==> !(#[trigger] a[w]).contains(task),
            None => forall|w: int| from <= w < a.len() ==> !(#[trigger] a[w]).contains(task),
        },
    decreases a.len() - from,
{
    if from < a.len() && !a[from].contains(task) {
        owner_has_the_task(a, task, from + 1);
    }
}

/// Tasks shared out by their place in a pool are the tasks of the pool at
/// those places, in the same order.
pub proof fn pool_places_become_tasks(queue: Seq<usize>, pool: Seq<usize>, i: int)
    requires
        0 <= i < queue.len(),
    ensures
        unpooled(queue, pool).len() == queue.len(),
        unpooled(queue, pool)[i] == pool[queue[i] as int],
{
}

/// The tasks are on offer one after the other in the order of the auction,
/// and after the last one there is none.
pub proof fn tasks_are_offered_in_turn(m: AuctionModel, bids: Seq<u32>)
    ensures
        m.next < m.order.len() ==> offered(m) == Some(m.order[m.next as int]),
        m.next + 1 < m.order.len() ==> offered(awarded(m, bids)) == Some(
            m.order[m.next as int + 1],
        ),
        m.next >= m.order.len() ==> offered(m) is None,
{
}

// Drawing numbers.

/// The state after a number is drawn: the old one mixed with itself three
/// times, divided by 2^12, multiplied by 2^25 and divided by 2^27. The number
/// drawn is the new state times an odd constant.
pub proof fn numbers_are_drawn_by_three_mixes(x: u64)
    ensures
        ({
            let a = x ^ (x / 0x1000);
            let b = a ^ ((a as int * 0x200_0000) % 0x1_0000_0000_0000_0000) as u64;
            let c = b ^ (b / 0x800_0000);
            &&& rng_next(x) == c
            &&& rng_output(x) == (c * 0x2545_F491_4F6C_DD1D) % 0x1_0000_0000_0000_0000
        }),
{
    let a = x ^ (x >> 12);
    let b = a ^ (a << 25);
    assert(x >> 12 == x / 0x1000) by (bit_vector);
    assert((a << 25) as u128 == ((a as u128 * 0x200_0000u128) as u128)
        % 0x1_0000_0000_0000_0000u128) by (bit_vector);
    assert(b >> 27 == b / 0x800_0000) by (bit_vector);
}

/// A state that is not zero never becomes zero, and no two states lead to the
/// same one.
pub proof fn states_do_not_collapse(x: u64, y: u64)
    requires
        rng_next(x) == rng_next(y),
    ensures
        x == y,
{
    let a = x ^ (x >> 12);
    let b = a ^ (a << 25);
    let c = b ^ (b >> 27);
    let p = y ^ (y >> 12);
    let q = p ^ (p << 25);
    let r = q ^ (q >> 27);
    assert(c == r);
    assert(b == q) by (bit_vector)
        requires
            c == b ^ (b >> 27),
            r == q ^ (q >> 27),
            c == r,
    ;
    assert(a == p) by (bit_vector)
        requires
            b == a ^ (a << 25),
            q == p ^ (p << 25),
            b == q,
    ;
    assert(x == y) by (bit_vector)
        requires
            a == x ^ (x >> 12),
            p == y ^ (y >> 12),
            a == p,
    ;
}

} // verus!
