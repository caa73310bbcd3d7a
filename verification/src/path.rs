//! Least-cost alignment of two ordered lists.
//!
//! Two lists are aligned by a script of steps. A `Horizontal` step takes one
//! item of the first list alone (a deletion), a `Vertical` step takes one
//! item of the second list alone (an insertion), and a `Diagonal` step takes
//! one item of each and pairs them. Taking an item alone costs its step
//! cost; pairing two items costs their pair cost, and is allowed only while
//! that is less than twice the larger of their two step costs.
use vstd::prelude::*;
use vstd::multiset::Multiset;
use vstd::pervasive::unreached;
use crate::grid::{
    all_nodes_ok, cell, entry_of, grid_index, lemma_all_seen, lemma_cell_index, lemma_pending_nonneg,
    lemma_pending_update,
    lemma_popped_cost, lemma_queue_not_empty, lemma_relax, lemma_settle, lemma_stale,
    lemma_step_fits, node_ok, pending, reached, relaxed, search_inv, width,
};
use crate::heap::{MinHeap, State};

verus! {

/// One step of an alignment script, or `Start` as the mark of the cell that
/// a search starts from.
#[derive(Debug, Clone, Copy, PartialEq, Eq, Structural)]
pub enum Direction {
    Start,
    Diagonal,
    Horizontal,
    Vertical,
}

/// A cell of the search grid.
#[derive(Debug, Clone, Copy)]
pub struct Node {
    pub cost: usize,
    pub from: Direction,
    pub done: bool,
}

/// The costs that an alignment is measured by: the step cost of each item of
/// either list, and the pair cost of each item of the first list with each
/// item of the second.
pub struct Costs {
    pub step_a: Seq<nat>,
    pub step_b: Seq<nat>,
    pub pair: Seq<Seq<nat>>,
}

/// The sum of `s[i..]`.
pub open spec fn tail_sum(s: Seq<nat>, i: int) -> int
    decreases s.len() - i,
{
    if i < 0 || i >= s.len() {
        0
    } else {
        s[i] + tail_sum(s, i + 1)
    }
}

impl Costs {
    /// Whether the costs are those of two lists: each pair of items has a cost.
    pub open spec fn wf(self) -> bool {
        &&& self.pair.len() == self.step_a.len()
        &&& forall|i: int| 0 <= i < self.pair.len() ==> (#[trigger] self.pair[i]).len() == self.step_b.len()
    }

    /// Whether item `i` of the first list may be paired with item `j` of the
    /// second.
    pub open spec fn allowed(self, i: int, j: int) -> bool {
        self.pair[i][j] < 2 * (if self.step_a[i] >= self.step_b[j] {
            self.step_a[i]
        } else {
            self.step_b[j]
        })
    }

    /// The cost of taking every item of both lists alone.
    pub open spec fn total(self) -> int {
        tail_sum(self.step_a, 0) + tail_sum(self.step_b, 0)
    }

    /// The limits within which the search can count: the grid of
    /// `(len_a + 1) * (len_b + 1)` cells can be indexed, and twice the total
    /// step cost is a number.
    pub open spec fn fits(self) -> bool {
        &&& (self.step_a.len() + 1) * (self.step_b.len() + 1) <= usize::MAX
        &&& 2 * self.total() < usize::MAX
    }
}

/// How many items of the first list a step takes.
pub open spec fn takes_a(d: Direction) -> int {
    if d == Direction::Diagonal || d == Direction::Horizontal {
        1
    } else {
        0
    }
}

/// How many items of the second list a step takes.
pub open spec fn takes_b(d: Direction) -> int {
    if d == Direction::Diagonal || d == Direction::Vertical {
        1
    } else {
        0
    }
}

/// How many items of the first list the first `k` steps of `p` take.
pub open spec fn pos_a(p: Seq<Direction>, k: int) -> int
    decreases k,
{
    if k <= 0 {
        0
    } else {
        pos_a(p, k - 1) + takes_a(p[k - 1])
    }
}

/// How many items of the second list the first `k` steps of `p` take.
pub open spec fn pos_b(p: Seq<Direction>, k: int) -> int
    decreases k,
{
    if k <= 0 {
        0
    } else {
        pos_b(p, k - 1) + takes_b(p[k - 1])
    }
}

/// Whether step `d` can be taken when `i` items of the first list and `j`
/// of the second have been taken.
pub open spec fn move_ok(c: Costs, d: Direction, i: int, j: int) -> bool {
    match d {
        Direction::Start => false,
        Direction::Horizontal => 0 <= i < c.step_a.len(),
        Direction::Vertical => 0 <= j < c.step_b.len(),
        Direction::Diagonal => 0 <= i < c.step_a.len() && 0 <= j < c.step_b.len() && c.allowed(
            i,
            j,
        ),
    }
}

/// What step `d` costs when `i` items of the first list and `j` of the
/// second have been taken.
pub open spec fn move_cost(c: Costs, d: Direction, i: int, j: int) -> int {
    match d {
        Direction::Start => 0,
        Direction::Horizontal => c.step_a[i] as int,
        Direction::Vertical => c.step_b[j] as int,
        Direction::Diagonal => c.pair[i][j] as int,
    }
}

/// The cost of the first `k` steps of `p`.
pub open spec fn cost_upto(c: Costs, p: Seq<Direction>, k: int) -> int
    decreases k,
{
    if k <= 0 {
        0
    } else {
        cost_upto(c, p, k - 1) + move_cost(c, p[k - 1], pos_a(p, k - 1), pos_b(p, k - 1))
    }
}

/// The cost of the script `p`.
pub open spec fn script_cost(c: Costs, p: Seq<Direction>) -> int {
    cost_upto(c, p, p.len() as int)
}

/// Whether the first `k` steps of `p` can be taken in turn.
pub open spec fn steps_ok(c: Costs, p: Seq<Direction>, k: int) -> bool {
    forall|t: int| 0 <= t < k ==> move_ok(c, #[trigger] p[t], pos_a(p, t), pos_b(p, t))
}

/// Whether `p` aligns the two lists: each step can be taken, no pair is a
/// forbidden one, and the steps take every item of both lists.
pub open spec fn is_script(c: Costs, p: Seq<Direction>) -> bool {
    &&& steps_ok(c, p, p.len() as int)
    &&& pos_a(p, p.len() as int) == c.step_a.len()
    &&& pos_b(p, p.len() as int) == c.step_b.len()
}

/// The script that takes every item alone: the first list, then the second.
pub open spec fn plain_script(c: Costs) -> Seq<Direction> {
    Seq::new(
        c.step_a.len() + c.step_b.len(),
        |k: int|
            if k < c.step_a.len() {
                Direction::Horizontal
            } else {
                Direction::Vertical
            },
    )
}

/// Whether `(i, j)` is a cell of the grid.
pub open spec fn in_grid(c: Costs, i: int, j: int) -> bool {
    0 <= i <= c.step_a.len() && 0 <= j <= c.step_b.len()
}

/// The least cost at which the items from `i` on of the first list can be
/// aligned with the items from `j` on of the second.
pub open spec fn best(c: Costs, i: int, j: int) -> int
    decreases c.step_a.len() - i + c.step_b.len() - j,
{
    let n = c.step_a.len() as int;
    let m = c.step_b.len() as int;
    if !in_grid(c, i, j) || (i == n && j == m) {
        0
    } else if i == n {
        c.step_b[j] + best(c, i, j + 1)
    } else if j == m {
        c.step_a[i] + best(c, i + 1, j)
    } else {
        let h = c.step_a[i] + best(c, i + 1, j);
        let v = c.step_b[j] + best(c, i, j + 1);
        let hv = if h <= v {
            h
        } else {
            v
        };
        if c.allowed(i, j) {
            let d = c.pair[i][j] + best(c, i + 1, j + 1);
            if d <= hv {
                d
            } else {
                hv
            }
        } else {
            hv
        }
    }
}

/// The cost of taking the items from `i` on alone is at most that of
/// taking all of them, and at least that of the item at `i`.
pub proof fn lemma_tail_sum_bounds(s: Seq<nat>, i: int)
    requires
        0 <= i <= s.len(),
    ensures
        0 <= tail_sum(s, i) <= tail_sum(s, 0),
        i < s.len() ==> s[i] <= tail_sum(s, i),
    decreases i,
{
    lemma_tail_sum_nonneg(s, i);
    if i > 0 {
        lemma_tail_sum_bounds(s, i - 1);
        assert(tail_sum(s, i - 1) == s[i - 1] + tail_sum(s, i));
    }
    if i < s.len() {
        lemma_tail_sum_nonneg(s, i + 1);
    }
}

/// The cost of taking the items from `i` on alone is not negative.
pub proof fn lemma_tail_sum_nonneg(s: Seq<nat>, i: int)
    ensures
        0 <= tail_sum(s, i),
    decreases s.len() - i,
{
    if 0 <= i < s.len() {
        lemma_tail_sum_nonneg(s, i + 1);
    }
}

/// The least cost is never negative and never more than the cost of taking
/// every remaining item alone.
pub proof fn lemma_best_bounds(c: Costs, i: int, j: int)
    requires
        in_grid(c, i, j),
    ensures
        0 <= best(c, i, j) <= tail_sum(c.step_a, i) + tail_sum(c.step_b, j),
    decreases c.step_a.len() - i + c.step_b.len() - j,
{
    let n = c.step_a.len() as int;
    let m = c.step_b.len() as int;
    lemma_tail_sum_nonneg(c.step_a, i);
    lemma_tail_sum_nonneg(c.step_b, j);
    if i == n && j == m {
    } else if i == n {
        lemma_best_bounds(c, i, j + 1);
    } else if j == m {
        lemma_best_bounds(c, i + 1, j);
    } else {
        lemma_best_bounds(c, i + 1, j);
        lemma_best_bounds(c, i, j + 1);
        lemma_best_bounds(c, i + 1, j + 1);
    }
}

/// One step and the least cost of the rest cost no less than the least cost
/// from where the step starts.
pub proof fn lemma_best_step(c: Costs, d: Direction, i: int, j: int)
    requires
        in_grid(c, i, j),
        move_ok(c, d, i, j),
    ensures
        best(c, i, j) <= move_cost(c, d, i, j) + best(c, i + takes_a(d), j + takes_b(d)),
{
    let n = c.step_a.len() as int;
    let m = c.step_b.len() as int;
    if i < n && j < m {
        lemma_best_bounds(c, i + 1, j + 1);
        lemma_best_bounds(c, i + 1, j);
        lemma_best_bounds(c, i, j + 1);
    }
}

proof fn lemma_pos_bounds(p: Seq<Direction>, k: int)
    ensures
        0 <= pos_a(p, k),
        0 <= pos_b(p, k),
    decreases k,
{
    if k > 0 {
        lemma_pos_bounds(p, k - 1);
    }
}

proof fn lemma_pos_monotone(p: Seq<Direction>, k: int, l: int)
    requires
        k <= l,
    ensures
        pos_a(p, k) <= pos_a(p, l),
        pos_b(p, k) <= pos_b(p, l),
    decreases l - k,
{
    if k < l {
        lemma_pos_monotone(p, k, l - 1);
        lemma_pos_bounds(p, l - 1);
    }
}

/// The steps of a script from the `k`th on cost no less than the least cost
/// from where they start.
pub proof fn lemma_script_tail_bound(c: Costs, p: Seq<Direction>, k: int)
    requires
        is_script(c, p),
        0 <= k <= p.len(),
    ensures
        in_grid(c, pos_a(p, k), pos_b(p, k)),
        best(c, pos_a(p, k), pos_b(p, k)) <= script_cost(c, p) - cost_upto(c, p, k),
    decreases p.len() - k,
{
    lemma_pos_bounds(p, k);
    lemma_pos_monotone(p, k, p.len() as int);
    if k < p.len() {
        lemma_script_tail_bound(c, p, k + 1);
        assert(move_ok(c, p[k], pos_a(p, k), pos_b(p, k)));
        assert(pos_a(p, k + 1) == pos_a(p, k) + takes_a(p[k]));
        assert(pos_b(p, k + 1) == pos_b(p, k) + takes_b(p[k]));
        assert(cost_upto(c, p, k + 1) == cost_upto(c, p, k) + move_cost(
            c,
            p[k],
            pos_a(p, k),
            pos_b(p, k),
        ));
        lemma_best_step(c, p[k], pos_a(p, k), pos_b(p, k));
    }
}

/// No script costs less than the least cost of the whole.
pub proof fn lemma_script_lower_bound(c: Costs, p: Seq<Direction>)
    requires
        is_script(c, p),
    ensures
        best(c, 0, 0) <= script_cost(c, p),
{
    lemma_script_tail_bound(c, p, 0);
}

/// What the first `k` steps of a script take and cost does not depend on
/// the steps after them.
proof fn lemma_push_keeps_prefix(c: Costs, p: Seq<Direction>, d: Direction, k: int)
    requires
        0 <= k <= p.len(),
    ensures
        pos_a(p.push(d), k) == pos_a(p, k),
        pos_b(p.push(d), k) == pos_b(p, k),
        cost_upto(c, p.push(d), k) == cost_upto(c, p, k),
    decreases k,
{
    if k > 0 {
        lemma_push_keeps_prefix(c, p, d, k - 1);
        assert(p.push(d)[k - 1] == p[k - 1]);
    }
}

proof fn lemma_push_step(c: Costs, p: Seq<Direction>, d: Direction)
    requires
        steps_ok(c, p, p.len() as int),
        move_ok(c, d, pos_a(p, p.len() as int), pos_b(p, p.len() as int)),
    ensures
        steps_ok(c, p.push(d), p.len() as int + 1),
        pos_a(p.push(d), p.len() as int + 1) == pos_a(p, p.len() as int) + takes_a(d),
        pos_b(p.push(d), p.len() as int + 1) == pos_b(p, p.len() as int) + takes_b(d),
        cost_upto(c, p.push(d), p.len() as int + 1) == cost_upto(c, p, p.len() as int) + move_cost(
            c,
            d,
            pos_a(p, p.len() as int),
            pos_b(p, p.len() as int),
        ),
{
    let q = p.push(d);
    let l = p.len() as int;
    lemma_push_keeps_prefix(c, p, d, l);
    assert(q[l] == d);
    assert forall|t: int| 0 <= t < l + 1 implies move_ok(c, #[trigger] q[t], pos_a(q, t), pos_b(q, t)) by {
        lemma_push_keeps_prefix(c, p, d, t);
        if t < l {
            assert(q[t] == p[t]);
        }
    }
}

/// The least cost of aligning two lists is the cost of some script.
pub proof fn lemma_plain_script(c: Costs)
    ensures
        is_script(c, plain_script(c)),
        script_cost(c, plain_script(c)) == c.total(),
{
    let p = plain_script(c);
    let n = c.step_a.len() as int;
    let m = c.step_b.len() as int;
    lemma_plain_prefix(c, n + m);
    assert forall|t: int| 0 <= t < p.len() implies move_ok(c, #[trigger] p[t], pos_a(p, t), pos_b(p, t)) by {
        lemma_plain_prefix(c, t);
    }
    lemma_tail_sum_nonneg(c.step_a, n);
    lemma_tail_sum_nonneg(c.step_b, m);
}

proof fn lemma_plain_prefix(c: Costs, k: int)
    requires
        0 <= k <= c.step_a.len() + c.step_b.len(),
    ensures
        pos_a(plain_script(c), k) == if k <= c.step_a.len() {
            k
        } else {
            c.step_a.len() as int
        },
        pos_b(plain_script(c), k) == if k <= c.step_a.len() {
            0
        } else {
            k - c.step_a.len()
        },
        cost_upto(c, plain_script(c), k) == if k <= c.step_a.len() {
            tail_sum(c.step_a, 0) - tail_sum(c.step_a, k)
        } else {
            tail_sum(c.step_a, 0) + tail_sum(c.step_b, 0) - tail_sum(c.step_b, k - c.step_a.len())
        },
    decreases k,
{
    let n = c.step_a.len() as int;
    if k > 0 {
        lemma_plain_prefix(c, k - 1);
        if k - 1 < n {
            assert(tail_sum(c.step_a, k - 1) == c.step_a[k - 1] + tail_sum(c.step_a, k));
        } else {
            assert(tail_sum(c.step_b, k - 1 - n) == c.step_b[k - 1 - n] + tail_sum(
                c.step_b,
                k - n,
            ));
        }
        if k - 1 == n {
            assert(tail_sum(c.step_a, n) == 0);
        }
    } else {
    }
    if k == n {
        assert(tail_sum(c.step_a, n) == 0);
    }
}


/// The step cost that `step` gives for `x`.
pub open spec fn step_cost_of<Item, S: Fn(&Item) -> usize>(step: S, x: Item) -> nat {
    (choose|r: usize| call_ensures(step, (&x,), r)) as nat
}

/// The pair cost that `pair` gives for `x` and `y`.
pub open spec fn pair_cost_of<Item, F: Fn(&Item, &Item) -> usize>(pair: F, x: Item, y: Item) -> nat {
    (choose|r: usize| call_ensures(pair, (&x, &y), r)) as nat
}

/// The costs that two cost functions give for two lists.
pub open spec fn costs_of<Item, S: Fn(&Item) -> usize, F: Fn(&Item, &Item) -> usize>(
    item1: Seq<Item>,
    item2: Seq<Item>,
    step: S,
    pair: F,
) -> Costs {
    Costs {
        step_a: Seq::new(item1.len(), |i: int| step_cost_of(step, item1[i])),
        step_b: Seq::new(item2.len(), |j: int| step_cost_of(step, item2[j])),
        pair: Seq::new(
            item1.len(),
            |i: int| Seq::new(item2.len(), |j: int| pair_cost_of(pair, item1[i], item2[j])),
        ),
    }
}

/// Whether two cost functions can be called on the items of two lists, and
/// give for the same items the same cost whenever they are called.
pub open spec fn cost_fns_ok<Item, S: Fn(&Item) -> usize, F: Fn(&Item, &Item) -> usize>(
    item1: Seq<Item>,
    item2: Seq<Item>,
    step: S,
    pair: F,
) -> bool {
    &&& forall|i: int| 0 <= i < item1.len() ==> call_requires(step, (&#[trigger] item1[i],))
    &&& forall|j: int| 0 <= j < item2.len() ==> call_requires(step, (&#[trigger] item2[j],))
    &&& forall|i: int, j: int|
        0 <= i < item1.len() && 0 <= j < item2.len() ==> call_requires(
            pair,
            (&#[trigger] item1[i], &#[trigger] item2[j]),
        )
    &&& forall|x: Item, r1: usize, r2: usize|
        #[trigger] call_ensures(step, (&x,), r1) && #[trigger] call_ensures(step, (&x,), r2) ==> r1
            == r2
    &&& forall|x: Item, y: Item, r1: usize, r2: usize|
        #[trigger] call_ensures(pair, (&x, &y), r1) && #[trigger] call_ensures(pair, (&x, &y), r2)
            ==> r1 == r2
}


/// The limits of `fits` bound the lengths of both lists and each step cost.
proof fn lemma_fits_bounds(c: Costs)
    requires
        c.fits(),
    ensures
        c.step_a.len() < usize::MAX,
        c.step_b.len() < usize::MAX,
        forall|i: int| 0 <= i < c.step_a.len() ==> 2 * #[trigger] c.step_a[i] < usize::MAX,
        forall|j: int| 0 <= j < c.step_b.len() ==> 2 * #[trigger] c.step_b[j] < usize::MAX,
{
    let n = c.step_a.len() as int;
    let m = c.step_b.len() as int;
    assert((n + 1) * (m + 1) >= n + 1 && (n + 1) * (m + 1) >= m + 1) by (nonlinear_arith)
        requires
            n >= 0,
            m >= 0,
    ;
    lemma_tail_sum_nonneg(c.step_a, 0);
    lemma_tail_sum_nonneg(c.step_b, 0);
    assert forall|i: int| 0 <= i < c.step_a.len() implies 2 * #[trigger] c.step_a[i] < usize::MAX by {
        lemma_tail_sum_bounds(c.step_a, i);
    }
    assert forall|j: int| 0 <= j < c.step_b.len() implies 2 * #[trigger] c.step_b[j] < usize::MAX by {
        lemma_tail_sum_bounds(c.step_b, j);
    }
}

/// Gives the cell at `index` the cost `cost` and the first step `from`, and
/// puts it into the queue at that cost, where `cost` is less than what the
/// cell has.
fn push(
    node: &mut Vec<Node>,
    heap: &mut MinHeap,
    index: usize,
    index1: usize,
    index2: usize,
    cost: usize,
    from: Direction,
)
    requires
        index < old(node).len(),
        old(heap).wf(),
    ensures
        final(heap).wf(),
        final(node)@.len() == old(node)@.len(),
        pending(final(node)@, final(node)@.len() as int) == pending(
            old(node)@,
            old(node)@.len() as int,
        ),
        cost < old(node)@[index as int].cost ==> {
            &&& final(node)@ == old(node)@.update(
                index as int,
                Node { cost, from, done: old(node)@[index as int].done },
            )
            &&& final(heap)@.len() == old(heap)@.len() + 1
            &&& forall|x: State|
                final(heap)@.contains(x) <==> (x == State { cost, index1, index2 } || old(
                    heap,
                )@.contains(x))
        },
        cost >= old(node)@[index as int].cost ==> final(node)@ == old(node)@ && final(heap)@ == old(
            heap,
        )@,
{
    let cur = node[index];
    if cost < cur.cost {
        let lowered = Node { cost, from, done: cur.done };
        proof {
            lemma_pending_update(node@, index as int, lowered, node@.len() as int);
        }
        node.set(index, lowered);
        heap.push(State { cost, index1, index2 });
    }
}

/// Reads the script off a searched grid: from the cell `(0, 0)` it follows
/// the first steps to the end of both lists.
fn backtrack(node: &Vec<Node>, len1: usize, Ghost(c): Ghost<Costs>) -> (path: Vec<Direction>)
    requires
        c.fits(),
        all_nodes_ok(c, node@),
        node@.len() == (c.step_a.len() + 1) * (c.step_b.len() + 1),
        len1 == c.step_a.len() + 1,
        reached(cell(c, node@, 0, 0)),
    ensures
        is_script(c, path@),
        script_cost(c, path@) == cell(c, node@, 0, 0).cost,
{
    let ghost n = c.step_a.len() as int;
    let ghost m = c.step_b.len() as int;
    let mut result: Vec<Direction> = Vec::new();
    let mut index1: usize = 0;
    let mut index2: usize = 0;
    proof {
        lemma_fits_bounds(c);
    }
    loop
        invariant
            c.fits(),
            n == c.step_a.len(),
            m == c.step_b.len(),
            n < usize::MAX,
            m < usize::MAX,
            all_nodes_ok(c, node@),
            node@.len() == (n + 1) * (m + 1),
            len1 == n + 1,
            in_grid(c, index1 as int, index2 as int),
            reached(cell(c, node@, index1 as int, index2 as int)),
            steps_ok(c, result@, result@.len() as int),
            pos_a(result@, result@.len() as int) == index1,
            pos_b(result@, result@.len() as int) == index2,
            cost_upto(c, result@, result@.len() as int) + cell(
                c,
                node@,
                index1 as int,
                index2 as int,
            ).cost == cell(c, node@, 0, 0).cost,
        decreases n - index1 + m - index2,
    {
        proof {
            lemma_cell_index(n + 1, m + 1, index1 as int, index2 as int);
            assert(node_ok(c, node@, index1 as int, index2 as int));
        }
        let index = index1 + index2 * len1;
        let from = node[index].from;
        proof {
            if from != Direction::Start {
                lemma_push_step(c, result@, from);
                assert(node_ok(c, node@, index1 + takes_a(from), index2 + takes_b(from)));
            }
        }
        match from {
            Direction::Start => {
                return result;
            },
            Direction::Diagonal => {
                index1 += 1;
                index2 += 1;
            },
            Direction::Horizontal => {
                index1 += 1;
            },
            Direction::Vertical => {
                index2 += 1;
            },
        }
        result.push(from);
    }
}

/// Whether the step costs `step1` and `step2` and the cost function `pair`
/// give the costs `c` for two lists, and `pair` can be called on their
/// items.
pub open spec fn costs_given<Item, F: Fn(&Item, &Item) -> usize>(
    item1: Seq<Item>,
    item2: Seq<Item>,
    step1: Seq<usize>,
    step2: Seq<usize>,
    pair: F,
    c: Costs,
) -> bool {
    &&& c.wf()
    &&& c.step_a.len() == item1.len()
    &&& c.step_b.len() == item2.len()
    &&& step1.len() == item1.len()
    &&& step2.len() == item2.len()
    &&& forall|i: int| 0 <= i < item1.len() ==> #[trigger] step1[i] == c.step_a[i]
    &&& forall|j: int| 0 <= j < item2.len() ==> #[trigger] step2[j] == c.step_b[j]
    &&& forall|i: int, j: int|
        0 <= i < item1.len() && 0 <= j < item2.len() ==> call_requires(
            pair,
            (&#[trigger] item1[i], &#[trigger] item2[j]),
        )
    &&& forall|i: int, j: int, r: usize|
        0 <= i < item1.len() && 0 <= j < item2.len() && #[trigger] call_ensures(
            pair,
            (&item1[i], &item2[j]),
            r,
        ) ==> r == c.pair[i][j]
}

/// Finds a least-cost script that aligns `item1` with `item2`.
///
/// `step_cost` gives the cost of taking an item alone, and `diff_cost` the
/// cost of pairing an item of `item1` with one of `item2`: 0 for items that
/// are equal, twice the step cost for items that have nothing in common.
/// The script is in the order of the lists. It pairs no two items whose
/// pair cost reaches twice the larger of their step costs, and no script
/// that keeps to that costs less; so it costs no more than taking every
/// item alone.
///
/// The search is Dijkstra's, on the grid of the cells `(i, j)` for `i` items
/// taken of `item1` and `j` of `item2`, from the cell of the two full lists
/// back to `(0, 0)`, where it ends.
pub fn shortest_path<Item, S, F>(
    item1: &[Item],
    item2: &[Item],
    step_cost: S,
    diff_cost: F,
) -> (path: Vec<Direction>) where S: Fn(&Item) -> usize, F: Fn(&Item, &Item) -> usize
    requires
        cost_fns_ok(item1@, item2@, step_cost, diff_cost),
        costs_of(item1@, item2@, step_cost, diff_cost).fits(),
    ensures
        is_script(costs_of(item1@, item2@, step_cost, diff_cost), path@),
        script_cost(costs_of(item1@, item2@, step_cost, diff_cost), path@) == best(
            costs_of(item1@, item2@, step_cost, diff_cost),
            0,
            0,
        ),
        script_cost(costs_of(item1@, item2@, step_cost, diff_cost), path@) <= costs_of(
            item1@,
            item2@,
            step_cost,
            diff_cost,
        ).total(),
        forall|p: Seq<Direction>|
            is_script(costs_of(item1@, item2@, step_cost, diff_cost), p) ==> script_cost(
                costs_of(item1@, item2@, step_cost, diff_cost),
                path@,
            ) <= script_cost(costs_of(item1@, item2@, step_cost, diff_cost), p),
        forall|k: int|
            0 <= k < path@.len() && path@[k] == Direction::Diagonal ==> costs_of(
                item1@,
                item2@,
                step_cost,
                diff_cost,
            ).allowed(pos_a(path@, k), pos_b(path@, k)),
        forall|k: int| 0 <= k < path@.len() ==> path@[k] != Direction::Start,
{
    let ghost c = costs_of(item1@, item2@, step_cost, diff_cost);
    let n = item1.len();
    let m = item2.len();
    let mut step1: Vec<usize> = Vec::new();
    let mut i: usize = 0;
    while i < n
        invariant
            i <= n,
            n == item1.len(),
            step1@.len() == i,
            c == costs_of(item1@, item2@, step_cost, diff_cost),
            cost_fns_ok(item1@, item2@, step_cost, diff_cost),
            forall|k: int| 0 <= k < i ==> step1@[k] == c.step_a[k],
        decreases n - i,
    {
        let s = step_cost(&item1[i]);
        step1.push(s);
        i += 1;
    }
    let mut step2: Vec<usize> = Vec::new();
    let mut j: usize = 0;
    while j < m
        invariant
            j <= m,
            m == item2.len(),
            step2@.len() == j,
            c == costs_of(item1@, item2@, step_cost, diff_cost),
            cost_fns_ok(item1@, item2@, step_cost, diff_cost),
            forall|k: int| 0 <= k < j ==> step2@[k] == c.step_b[k],
        decreases m - j,
    {
        let s = step_cost(&item2[j]);
        step2.push(s);
        j += 1;
    }
    align(item1, item2, step1.as_slice(), step2.as_slice(), diff_cost, Ghost(c))
}

/// Finds a least-cost script that aligns `item1` with `item2`, where
/// `step1` and `step2` hold the step costs of their items, and these and
/// the cost function `diff_cost` give the costs `c`.
pub fn align<Item, F>(
    item1: &[Item],
    item2: &[Item],
    step1: &[usize],
    step2: &[usize],
    diff_cost: F,
    Ghost(c): Ghost<Costs>,
) -> (path: Vec<Direction>) where F: Fn(&Item, &Item) -> usize
    requires
        costs_given(item1@, item2@, step1@, step2@, diff_cost, c),
        c.fits(),
    ensures
        is_script(c, path@),
        script_cost(c, path@) == best(c, 0, 0),
        script_cost(c, path@) <= c.total(),
        forall|p: Seq<Direction>| is_script(c, p) ==> script_cost(c, path@) <= script_cost(c, p),
        forall|k: int|
            0 <= k < path@.len() && path@[k] == Direction::Diagonal ==> c.allowed(
                pos_a(path@, k),
                pos_b(path@, k),
            ),
        forall|k: int| 0 <= k < path@.len() ==> path@[k] != Direction::Start,
{
    let n = item1.len();
    let m = item2.len();
    proof {
        lemma_fits_bounds(c);
    }
    let len1 = n + 1;
    let len2 = m + 1;
    let len = len1 * len2;

    let sa = step1;
    let sb = step2;

    let blank = Node { cost: usize::MAX, from: Direction::Start, done: false };
    let mut node: Vec<Node> = vec![blank; len];
    let mut heap = MinHeap::new();
    proof {
        lemma_cell_index(n + 1, m + 1, n as int, m as int);
        assert(len - 1 == grid_index(width(c), n as int, m as int)) by (nonlinear_arith)
            requires
                len == (n + 1) * (m + 1),
                grid_index(width(c), n as int, m as int) == n + m * (n + 1),
        ;
    }
    // The search starts at the end of both lists, so that following the
    // steps back from (0, 0) gives the script in its order.
    let ghost blank_nodes = node@;
    push(&mut node, &mut heap, len - 1, len1 - 1, len2 - 1, 0, Direction::Start);
    proof {
        lemma_search_start(c, blank_nodes, node@, heap@);
    }

    loop
        invariant
            heap.wf(),
            costs_given(item1@, item2@, sa@, sb@, diff_cost, c),
            c.fits(),
            search_inv(c, node@, heap@, 0, 0, 3),
            n == item1.len(),
            m == item2.len(),
            len1 == n + 1,
            sa@.len() == n,
            sb@.len() == m,
            forall|k: int| 0 <= k < n ==> sa@[k] == c.step_a[k],
            forall|k: int| 0 <= k < m ==> sb@[k] == c.step_b[k],
        decreases 3 * pending(node@, node@.len() as int) + heap@.len(),
    {
        let ghost nodes0 = node@;
        let ghost queue0 = heap@;
        proof {
            lemma_queue_not_empty(c, nodes0, queue0);
            lemma_pending_nonneg(nodes0, nodes0.len() as int);
        }
        let state = match heap.pop() {
            Some(state) => state,
            None => unreached(),
        };
        let index1 = state.index1;
        let index2 = state.index2;
        let ghost ci = index1 as int;
        let ghost cj = index2 as int;
        proof {
            assert(crate::grid::entry_ok(c, nodes0, state));
            lemma_cell_index(n + 1, m + 1, ci, cj);
        }
        if index1 == 0 && index2 == 0 {
            proof {
                lemma_popped_cost(c, nodes0, queue0, state);
                lemma_best_bounds(c, 0, 0);
            }
            let path = backtrack(&node, len1, Ghost(c));
            proof {
                assert forall|p: Seq<Direction>| is_script(c, p) implies script_cost(c, path@)
                    <= script_cost(c, p) by {
                    lemma_script_lower_bound(c, p);
                }
                assert forall|k: int| 0 <= k < path@.len() implies path@[k] != Direction::Start by {
                    assert(move_ok(c, path@[k], pos_a(path@, k), pos_b(path@, k)));
                }
                assert forall|k: int|
                    0 <= k < path@.len() && path@[k] == Direction::Diagonal implies c.allowed(
                    pos_a(path@, k),
                    pos_b(path@, k),
                ) by {
                    assert(move_ok(c, path@[k], pos_a(path@, k), pos_b(path@, k)));
                }
            }
            return path;
        }
        let index = index1 + index2 * len1;
        let cur = node[index];
        if cur.done {
            proof {
                lemma_stale(c, nodes0, queue0, heap@, state);
                assert(heap@.len() + 1 == queue0.len());
            }
            continue ;
        }
        let settled = Node { cost: cur.cost, from: cur.from, done: true };
        node.set(index, settled);
        proof {
            lemma_settle(c, nodes0, queue0, node@, heap@, state);
            lemma_pending_update(nodes0, index as int, settled, nodes0.len() as int);
            lemma_fits_bounds(c);
            assert(pending(node@, node@.len() as int) == pending(nodes0, nodes0.len() as int) - 1);
            assert(heap@.len() == queue0.len() - 1);
        }

        let ghost nodes1 = node@;
        let ghost queue1 = heap@;
        let ghost lowered = false;
        if index2 > 0 {
            let target2 = index2 - 1;
            assert(index >= len1) by (nonlinear_arith)
                requires
                    index == ci + cj * (n + 1),
                    len1 == n + 1,
                    cj >= 1,
                    ci >= 0,
            ;
            let target = index - len1;
            proof {
                lemma_cell_index(n + 1, m + 1, ci, cj - 1);
                assert(target == grid_index(width(c), ci, cj - 1)) by (nonlinear_arith)
                    requires
                        target == ci + cj * (n + 1) - (n + 1),
                        grid_index(width(c), ci, cj - 1) == ci + (cj - 1) * (n + 1),
                ;
            }
            if !node[target].done {
                proof {
                    lemma_step_fits(c, Direction::Vertical, ci, cj - 1);
                    lowered = cur.cost + sb@[cj - 1] < node@[target as int].cost;
                }
                let cost = cur.cost + sb[target2];
                push(&mut node, &mut heap, target, index1, target2, cost, Direction::Vertical);
            }
        }
        proof {
            assert(relaxed(c, nodes1, queue1, node@, heap@, ci, cj, 0, lowered));
            lemma_relax(c, nodes1, queue1, node@, heap@, ci, cj, 0, lowered);
            assert(pending(node@, node@.len() as int) == pending(nodes0, nodes0.len() as int) - 1);
            assert(heap@.len() <= queue0.len());
        }

        let ghost nodes2 = node@;
        let ghost queue2 = heap@;
        proof {
            lowered = false;
        }
        if index1 > 0 {
            let target1 = index1 - 1;
            let target = index - 1;
            proof {
                lemma_cell_index(n + 1, m + 1, ci - 1, cj);
            }
            if !node[target].done {
                proof {
                    lemma_step_fits(c, Direction::Horizontal, ci - 1, cj);
                    lowered = cur.cost + sa@[ci - 1] < node@[target as int].cost;
                }
                let cost = cur.cost + sa[target1];
                push(&mut node, &mut heap, target, target1, index2, cost, Direction::Horizontal);
            }
        }
        proof {
            assert(relaxed(c, nodes2, queue2, node@, heap@, ci, cj, 1, lowered));
            lemma_relax(c, nodes2, queue2, node@, heap@, ci, cj, 1, lowered);
            assert(pending(node@, node@.len() as int) == pending(nodes0, nodes0.len() as int) - 1);
            assert(heap@.len() <= queue0.len() + 1);
        }

        let ghost nodes3 = node@;
        let ghost queue3 = heap@;
        proof {
            lowered = false;
        }
        if index1 > 0 && index2 > 0 {
            let target1 = index1 - 1;
            let target2 = index2 - 1;
            assert(index >= len1 + 1) by (nonlinear_arith)
                requires
                    index == ci + cj * (n + 1),
                    len1 == n + 1,
                    cj >= 1,
                    ci >= 1,
            ;
            let target = index - len1 - 1;
            proof {
                lemma_cell_index(n + 1, m + 1, ci - 1, cj - 1);
                assert(target == grid_index(width(c), ci - 1, cj - 1)) by (nonlinear_arith)
                    requires
                        target == ci + cj * (n + 1) - (n + 1) - 1,
                        grid_index(width(c), ci - 1, cj - 1) == ci - 1 + (cj - 1) * (n + 1),
                ;
            }
            if !node[target].done {
                let diff_cost = diff_cost(&item1[target1], &item2[target2]);
                let step1 = sa[target1];
                let step2 = sb[target2];
                let step = if step1 >= step2 {
                    step1
                } else {
                    step2
                };
                assert(diff_cost == c.pair[ci - 1][cj - 1]);
                if diff_cost < 2 * step {
                    proof {
                        lemma_step_fits(c, Direction::Diagonal, ci - 1, cj - 1);
                        lowered = cur.cost + diff_cost < node@[target as int].cost;
                    }
                    let cost = cur.cost + diff_cost;
                    push(&mut node, &mut heap, target, target1, target2, cost, Direction::Diagonal);
                }
            }
        }
        proof {
            assert(relaxed(c, nodes3, queue3, node@, heap@, ci, cj, 2, lowered));
            lemma_relax(c, nodes3, queue3, node@, heap@, ci, cj, 2, lowered);
            lemma_all_seen(c, node@, heap@, ci, cj);
            assert(pending(node@, node@.len() as int) == pending(nodes0, nodes0.len() as int) - 1);
            assert(heap@.len() <= queue0.len() + 2);
            lemma_pending_nonneg(node@, node@.len() as int);
        }
    }
}

/// A grid of blank cells, with the cell of the two full lists reached at no
/// cost and waiting in the queue, is the state that a search starts in.
proof fn lemma_search_start(c: Costs, blank: Seq<Node>, nodes: Seq<Node>, queue: Multiset<State>)
    requires
        c.fits(),
        blank.len() == (c.step_a.len() + 1) * (c.step_b.len() + 1),
        forall|k: int|
            0 <= k < blank.len() ==> #[trigger] blank[k] == (Node {
                cost: usize::MAX,
                from: Direction::Start,
                done: false,
            }),
        nodes == blank.update(
            grid_index(width(c), c.step_a.len() as int, c.step_b.len() as int),
            Node { cost: 0, from: Direction::Start, done: false },
        ),
        forall|x: State|
            queue.contains(x) <==> x == entry_of(0, c.step_a.len() as int, c.step_b.len() as int),
    ensures
        search_inv(c, nodes, queue, 0, 0, 3),
{
    let n = c.step_a.len() as int;
    let m = c.step_b.len() as int;
    let x = Node { cost: 0, from: Direction::Start, done: false };
    lemma_fits_bounds(c);
    crate::grid::lemma_cell_update(c, blank, n, m, x);
    lemma_best_bounds(c, n, m);
    assert forall|i: int, j: int| in_grid(c, i, j) && !(i == n && j == m) implies #[trigger] cell(
        c,
        nodes,
        i,
        j,
    ) == (Node { cost: usize::MAX, from: Direction::Start, done: false }) by {
        lemma_cell_index(n + 1, m + 1, i, j);
        assert(cell(c, nodes, i, j) == cell(c, blank, i, j));
    }
    assert forall|i: int, j: int| in_grid(c, i, j) implies #[trigger] node_ok(c, nodes, i, j) by {}
    assert forall|i: int, j: int| in_grid(c, i, j) implies #[trigger] crate::grid::seen_at(
        c,
        nodes,
        0,
        0,
        3,
        i,
        j,
    ) by {}
    assert forall|i: int, j: int| in_grid(c, i, j) implies #[trigger] crate::grid::queued(
        c,
        nodes,
        queue,
        i,
        j,
    ) by {}
    assert forall|e: State| queue.contains(e) implies #[trigger] crate::grid::entry_ok(c, nodes, e) by {}
    if n == 0 && m == 0 {
    } else {
        assert(cell(c, nodes, 0, 0) == (Node {
            cost: usize::MAX,
            from: Direction::Start,
            done: false,
        }));
    }
}


/// The script that pairs each of `n` items with the item at its place.
pub open spec fn paired_script(n: nat) -> Seq<Direction> {
    Seq::new(n, |k: int| Direction::Diagonal)
}

/// Whether each item of two lists of the same length can be paired with the
/// item at its own place at no cost, while taking an item alone costs
/// something.
pub open spec fn same_lists(c: Costs) -> bool {
    &&& c.wf()
    &&& c.step_a.len() == c.step_b.len()
    &&& forall|i: int|
        0 <= i < c.step_a.len() ==> (#[trigger] c.pair[i])[i] == 0 && c.step_a[i] > 0 && c.step_b[i]
            > 0
}

proof fn lemma_paired_prefix(c: Costs, n: nat, k: int)
    requires
        same_lists(c),
        n == c.step_a.len(),
        0 <= k <= n,
    ensures
        pos_a(paired_script(n), k) == k,
        pos_b(paired_script(n), k) == k,
        cost_upto(c, paired_script(n), k) == 0,
    decreases k,
{
    if k > 0 {
        lemma_paired_prefix(c, n, k - 1);
        assert(c.pair[k - 1][k - 1] == 0);
    }
}

/// The cost of the first steps of a script is not negative, and no more
/// than the cost of more of its steps.
proof fn lemma_cost_upto_monotone(c: Costs, p: Seq<Direction>, k: int, l: int)
    requires
        k <= l,
    ensures
        0 <= cost_upto(c, p, k) <= cost_upto(c, p, l),
    decreases l - k,
{
    lemma_cost_upto_nonneg(c, p, k);
    if k < l {
        lemma_cost_upto_monotone(c, p, k, l - 1);
        lemma_cost_upto_nonneg(c, p, l - 1);
    }
}

proof fn lemma_cost_upto_nonneg(c: Costs, p: Seq<Direction>, k: int)
    ensures
        0 <= cost_upto(c, p, k),
    decreases k,
{
    if k > 0 {
        lemma_cost_upto_nonneg(c, p, k - 1);
    }
}

/// Where each item can be paired with the item at its own place at no cost,
/// and taking an item alone costs something, a least-cost script is the one
/// that pairs every item with the item at its place.
pub proof fn lemma_same_lists_all_paired(c: Costs, p: Seq<Direction>)
    requires
        same_lists(c),
        is_script(c, p),
        script_cost(c, p) == best(c, 0, 0),
    ensures
        p == paired_script(c.step_a.len()),
        forall|k: int| 0 <= k < p.len() ==> pos_a(p, k) == k && pos_b(p, k) == k,
{
    let n = c.step_a.len();
    let q = paired_script(n);
    lemma_paired_prefix(c, n, n as int);
    assert forall|t: int| 0 <= t < q.len() implies move_ok(c, #[trigger] q[t], pos_a(q, t), pos_b(q, t)) by {
        lemma_paired_prefix(c, n, t);
        assert(c.pair[t][t] == 0);
    }
    lemma_script_lower_bound(c, q);
    lemma_best_bounds(c, 0, 0);
    assert(script_cost(c, p) == 0);
    lemma_all_paired_prefix(c, p, p.len() as int);
    assert(p.len() == n);
    assert(p =~= q);
}

proof fn lemma_all_paired_prefix(c: Costs, p: Seq<Direction>, k: int)
    requires
        same_lists(c),
        is_script(c, p),
        script_cost(c, p) == 0,
        0 <= k <= p.len(),
    ensures
        pos_a(p, k) == k,
        pos_b(p, k) == k,
        cost_upto(c, p, k) == 0,
        forall|t: int| 0 <= t < k ==> p[t] == Direction::Diagonal && pos_a(p, t) == t && pos_b(p, t) == t,
    decreases k,
{
    lemma_cost_upto_monotone(c, p, k, p.len() as int);
    if k > 0 {
        lemma_all_paired_prefix(c, p, k - 1);
        let d = p[k - 1];
        let i = pos_a(p, k - 1);
        let j = pos_b(p, k - 1);
        assert(i == k - 1 && j == k - 1);
        assert(move_ok(c, d, i, j));
        assert(cost_upto(c, p, k) == cost_upto(c, p, k - 1) + move_cost(c, d, i, j));
        assert(cost_upto(c, p, k) == 0);
        assert(move_cost(c, d, i, j) == 0);
        if i < c.step_a.len() {
            assert(c.pair[i][i] == 0 && c.step_a[i] > 0 && c.step_b[i] > 0);
        }
        assert(d != Direction::Horizontal) by {
            if d == Direction::Horizontal {
                assert(c.step_a[i] > 0);
            }
        }
        assert(d != Direction::Vertical) by {
            if d == Direction::Vertical {
                assert(c.step_b[j] > 0);
            }
        }
        assert(d == Direction::Diagonal);
        assert(pos_a(p, k) == i + takes_a(d));
        assert(pos_b(p, k) == j + takes_b(d));
    }
}

} // verus!
