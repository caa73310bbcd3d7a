//! The grid that the search for a least-cost alignment works on, and what
//! holds of it while the search runs.
//!
//! The cell `(i, j)` of the grid stands for `i` items taken of the first
//! list and `j` of the second. The search starts at the cell of the two
//! full lists and walks towards `(0, 0)`, so the cost of a cell is the cost
//! of the steps that lead from it to the end of both lists.
use vstd::prelude::*;
use vstd::multiset::Multiset;
use crate::heap::State;
use crate::path::{
    best, in_grid, lemma_best_bounds, lemma_best_step, lemma_tail_sum_bounds, move_cost, move_ok,
    takes_a, takes_b, Costs, Direction, Node,
};

verus! {

/// Where the cell `(i, j)` stands in a grid of rows of `w` cells, a row for
/// each `j`.
#[verifier::opaque]
pub open spec fn grid_index(w: int, i: int, j: int) -> int {
    i + j * w
}

/// The number of cells in a row of the grid.
pub open spec fn width(c: Costs) -> int {
    c.step_a.len() as int + 1
}

/// The cell of the grid for `i` items of the first list and `j` of the
/// second.
pub open spec fn cell(c: Costs, nodes: Seq<Node>, i: int, j: int) -> Node {
    nodes[grid_index(width(c), i, j)]
}

/// Whether a path to the cell has been found.
pub open spec fn reached(x: Node) -> bool {
    x.cost < usize::MAX
}

/// What holds of each cell: a settled cell has been reached; the cost of a
/// reached cell is that of the steps that lead from it to the end of both
/// lists, of which `from` is the first and the rest start at a settled cell;
/// the cost of a settled cell is the least one.
pub open spec fn node_ok(c: Costs, nodes: Seq<Node>, i: int, j: int) -> bool {
    let x = cell(c, nodes, i, j);
    &&& x.done ==> reached(x)
    &&& reached(x) ==> {
        &&& x.cost >= best(c, i, j)
        &&& if i == c.step_a.len() && j == c.step_b.len() {
            x.cost == 0 && x.from == Direction::Start
        } else {
            let y = cell(c, nodes, i + takes_a(x.from), j + takes_b(x.from));
            &&& move_ok(c, x.from, i, j)
            &&& y.done
            &&& x.cost == y.cost + move_cost(c, x.from, i, j)
        }
    }
    &&& x.done ==> x.cost == best(c, i, j)
}

/// The `k`th of the three steps that end at a cell: 0 is the vertical one,
/// 1 the horizontal one, 2 the diagonal one.
pub open spec fn step_of(k: int) -> Direction {
    if k == 0 {
        Direction::Vertical
    } else if k == 1 {
        Direction::Horizontal
    } else {
        Direction::Diagonal
    }
}

/// Whether the search has looked at the `k`th step that ends at the cell
/// `(i, j)`: where that step can be taken, the cell it starts from costs no
/// more than the step and the cell `(i, j)` together.
pub open spec fn step_seen(c: Costs, nodes: Seq<Node>, i: int, j: int, k: int) -> bool {
    let d = step_of(k);
    let ti = i - takes_a(d);
    let tj = j - takes_b(d);
    ti >= 0 && tj >= 0 && move_ok(c, d, ti, tj) ==> cell(c, nodes, ti, tj).cost <= cell(
        c,
        nodes,
        i,
        j,
    ).cost + move_cost(c, d, ti, tj)
}

/// Whether the search has looked at the steps that end at `(i, j)`, if that
/// cell is settled: at all three, or at the first `stage` of them where
/// `(i, j)` is the cell `(ci, cj)` whose steps are being looked at.
pub open spec fn seen_at(
    c: Costs,
    nodes: Seq<Node>,
    ci: int,
    cj: int,
    stage: int,
    i: int,
    j: int,
) -> bool {
    cell(c, nodes, i, j).done ==> {
        &&& (stage > 0 || !(i == ci && j == cj)) ==> step_seen(c, nodes, i, j, 0)
        &&& (stage > 1 || !(i == ci && j == cj)) ==> step_seen(c, nodes, i, j, 1)
        &&& (stage > 2 || !(i == ci && j == cj)) ==> step_seen(c, nodes, i, j, 2)
    }
}

/// The queue entry for the cell `(i, j)` at the cost `cost`.
pub open spec fn entry_of(cost: int, i: int, j: int) -> State {
    State { cost: cost as usize, index1: i as usize, index2: j as usize }
}

/// Whether the cell `(i, j)`, if it is reached and not settled, waits in the
/// queue at its cost.
pub open spec fn queued(c: Costs, nodes: Seq<Node>, queue: Multiset<State>, i: int, j: int) -> bool {
    let x = cell(c, nodes, i, j);
    reached(x) && !x.done ==> queue.contains(entry_of(x.cost as int, i, j))
}

/// Whether a queue entry names a cell of the grid that costs no more than
/// the entry says.
pub open spec fn entry_ok(c: Costs, nodes: Seq<Node>, e: State) -> bool {
    &&& in_grid(c, e.index1 as int, e.index2 as int)
    &&& e.cost < usize::MAX
    &&& cell(c, nodes, e.index1 as int, e.index2 as int).cost <= e.cost
}

/// Whether every cell of the grid is in order.
pub open spec fn all_nodes_ok(c: Costs, nodes: Seq<Node>) -> bool {
    forall|i: int, j: int| in_grid(c, i, j) ==> #[trigger] node_ok(c, nodes, i, j)
}

/// Whether every cell that has been taken from the queue has handed its
/// cost on to the cells that a step leads to.
pub open spec fn all_seen(c: Costs, nodes: Seq<Node>, ci: int, cj: int, stage: int) -> bool {
    forall|i: int, j: int| in_grid(c, i, j) ==> #[trigger] seen_at(c, nodes, ci, cj, stage, i, j)
}

/// Whether every cell that has been reached and not yet taken is in the queue.
pub open spec fn all_queued(c: Costs, nodes: Seq<Node>, queue: Multiset<State>) -> bool {
    forall|i: int, j: int| in_grid(c, i, j) ==> #[trigger] queued(c, nodes, queue, i, j)
}

/// Whether every entry of the queue is in order.
pub open spec fn all_entries_ok(c: Costs, nodes: Seq<Node>, queue: Multiset<State>) -> bool {
    forall|e: State| queue.contains(e) ==> #[trigger] entry_ok(c, nodes, e)
}

/// The state of a search. `(ci, cj)` is the cell whose steps are being
/// looked at, and `stage` says how many of them have been.
pub open spec fn search_inv(
    c: Costs,
    nodes: Seq<Node>,
    queue: Multiset<State>,
    ci: int,
    cj: int,
    stage: int,
) -> bool {
    &&& c.step_a.len() < usize::MAX
    &&& c.step_b.len() < usize::MAX
    &&& nodes.len() == (c.step_a.len() + 1) * (c.step_b.len() + 1)
    &&& cell(c, nodes, c.step_a.len() as int, c.step_b.len() as int).cost == 0
    &&& !cell(c, nodes, 0, 0).done
    &&& all_nodes_ok(c, nodes)
    &&& all_seen(c, nodes, ci, cj, stage)
    &&& all_queued(c, nodes, queue)
    &&& all_entries_ok(c, nodes, queue)
}

/// How many of the first `k` cells are not settled.
pub open spec fn pending(nodes: Seq<Node>, k: int) -> int
    decreases k,
{
    if k <= 0 {
        0
    } else {
        pending(nodes, k - 1) + if nodes[k - 1].done {
            0int
        } else {
            1int
        }
    }
}

/// The number of cells that are still to be taken is not negative.
pub proof fn lemma_pending_nonneg(nodes: Seq<Node>, k: int)
    ensures
        0 <= pending(nodes, k),
    decreases k,
{
    if k > 0 {
        lemma_pending_nonneg(nodes, k - 1);
    }
}

/// How writing one cell changes the number of cells that are still to be
/// taken.
pub proof fn lemma_pending_update(nodes: Seq<Node>, idx: int, x: Node, k: int)
    requires
        0 <= idx < nodes.len(),
        0 <= k <= nodes.len(),
    ensures
        0 <= pending(nodes, k),
        pending(nodes.update(idx, x), k) == pending(nodes, k) + if idx < k {
            (if x.done {
                0int
            } else {
                1int
            }) - (if nodes[idx].done {
                0int
            } else {
                1int
            })
        } else {
            0int
        },
    decreases k,
{
    if k > 0 {
        lemma_pending_update(nodes, idx, x, k - 1);
    }
}

/// The index of a cell lies within the grid.
pub proof fn lemma_cell_index(w: int, h: int, i: int, j: int)
    requires
        0 <= i < w,
        0 <= j < h,
    ensures
        0 <= grid_index(w, i, j) < w * h,
        grid_index(w, i, j) == i + j * w,
{
    reveal(grid_index);
    assert(j * w <= (h - 1) * w) by (nonlinear_arith)
        requires
            0 <= j <= h - 1,
            0 < w,
    ;
    assert((h - 1) * w == w * h - w) by (nonlinear_arith);
    assert(0 <= j * w) by (nonlinear_arith)
        requires
            0 <= j,
            0 < w,
    ;
}

proof fn lemma_cell_distinct(w: int, i: int, j: int, i2: int, j2: int)
    requires
        0 <= i < w,
        0 <= i2 < w,
        grid_index(w, i, j) == grid_index(w, i2, j2),
    ensures
        i == i2,
        j == j2,
{
    reveal(grid_index);
    if j < j2 {
        assert(j2 * w >= (j + 1) * w) by (nonlinear_arith)
            requires
                j2 >= j + 1,
                0 < w,
        ;
        assert((j + 1) * w == j * w + w) by (nonlinear_arith);
    } else if j2 < j {
        assert(j * w >= (j2 + 1) * w) by (nonlinear_arith)
            requires
                j >= j2 + 1,
                0 < w,
        ;
        assert((j2 + 1) * w == j2 * w + w) by (nonlinear_arith);
    }
}

/// Whether `nodes1` is `nodes0` with `x` written to the cell `(ti, tj)`.
pub open spec fn cell_written(
    c: Costs,
    nodes0: Seq<Node>,
    nodes1: Seq<Node>,
    ti: int,
    tj: int,
    x: Node,
) -> bool {
    &&& nodes1.len() == nodes0.len()
    &&& cell(c, nodes1, ti, tj) == x
    &&& forall|i: int, j: int|
        in_grid(c, i, j) && !(i == ti && j == tj) ==> #[trigger] cell(c, nodes1, i, j) == cell(
            c,
            nodes0,
            i,
            j,
        )
}

/// Writing one cell of the grid leaves the other cells as they were.
pub proof fn lemma_cell_update(c: Costs, nodes: Seq<Node>, ti: int, tj: int, x: Node)
    requires
        in_grid(c, ti, tj),
        nodes.len() == (c.step_a.len() + 1) * (c.step_b.len() + 1),
    ensures
        0 <= grid_index(width(c), ti, tj) < nodes.len(),
        grid_index(width(c), ti, tj) == ti + tj * width(c),
        cell_written(c, nodes, nodes.update(grid_index(width(c), ti, tj), x), ti, tj, x),
        cell(c, nodes.update(grid_index(width(c), ti, tj), x), ti, tj) == x,
        forall|i: int, j: int|
            in_grid(c, i, j) && !(i == ti && j == tj) ==> #[trigger] cell(
                c,
                nodes.update(grid_index(width(c), ti, tj), x),
                i,
                j,
            ) == cell(c, nodes, i, j),
{
    let w = c.step_a.len() as int + 1;
    let h = c.step_b.len() as int + 1;
    lemma_cell_index(w, h, ti, tj);
    assert forall|i: int, j: int| in_grid(c, i, j) && !(i == ti && j == tj) implies #[trigger] cell(
        c,
        nodes.update(grid_index(w, ti, tj), x),
        i,
        j,
    ) == cell(c, nodes, i, j) by {
        lemma_cell_index(w, h, i, j);
        if grid_index(w, i, j) == grid_index(w, ti, tj) {
            lemma_cell_distinct(w, i, j, ti, tj);
        }
    }
}

/// Step costs and least costs stay within the limits of `fits`.
pub proof fn lemma_step_fits(c: Costs, d: Direction, ti: int, tj: int)
    requires
        c.fits(),
        in_grid(c, ti, tj),
        move_ok(c, d, ti, tj),
    ensures
        in_grid(c, ti + takes_a(d), tj + takes_b(d)),
        0 <= move_cost(c, d, ti, tj),
        0 <= best(c, ti + takes_a(d), tj + takes_b(d)),
        best(c, ti + takes_a(d), tj + takes_b(d)) + move_cost(c, d, ti, tj) <= 2 * c.total(),
        best(c, ti + takes_a(d), tj + takes_b(d)) <= c.total(),
{
    let i = ti + takes_a(d);
    let j = tj + takes_b(d);
    lemma_best_bounds(c, i, j);
    lemma_tail_sum_bounds(c.step_a, ti);
    lemma_tail_sum_bounds(c.step_b, tj);
    lemma_tail_sum_bounds(c.step_a, i);
    lemma_tail_sum_bounds(c.step_b, j);
}

/// While every entry of the queue costs at least `least`, so does every way
/// from a cell that is not settled to the end of both lists.
pub proof fn lemma_frontier(
    c: Costs,
    nodes: Seq<Node>,
    queue: Multiset<State>,
    least: int,
    i: int,
    j: int,
)
    requires
        c.fits(),
        search_inv(c, nodes, queue, 0, 0, 3),
        forall|e: State| queue.contains(e) ==> least <= e.cost,
        in_grid(c, i, j),
        !cell(c, nodes, i, j).done,
    ensures
        least <= best(c, i, j),
    decreases c.step_a.len() - i + c.step_b.len() - j, 1int,
{
    let n = c.step_a.len() as int;
    let m = c.step_b.len() as int;
    assert(queued(c, nodes, queue, i, j));
    if i == n && j == m {
    } else {
        if i < n {
            lemma_frontier_step(c, nodes, queue, least, i, j, Direction::Horizontal);
        }
        if j < m {
            lemma_frontier_step(c, nodes, queue, least, i, j, Direction::Vertical);
        }
        if i < n && j < m && c.allowed(i, j) {
            lemma_frontier_step(c, nodes, queue, least, i, j, Direction::Diagonal);
        }
    }
}

proof fn lemma_frontier_step(
    c: Costs,
    nodes: Seq<Node>,
    queue: Multiset<State>,
    least: int,
    i: int,
    j: int,
    d: Direction,
)
    requires
        c.fits(),
        search_inv(c, nodes, queue, 0, 0, 3),
        forall|e: State| queue.contains(e) ==> least <= e.cost,
        in_grid(c, i, j),
        !cell(c, nodes, i, j).done,
        move_ok(c, d, i, j),
    ensures
        least <= move_cost(c, d, i, j) + best(c, i + takes_a(d), j + takes_b(d)),
    decreases c.step_a.len() - i + c.step_b.len() - j, 0int,
{
    let ni = i + takes_a(d);
    let nj = j + takes_b(d);
    lemma_step_fits(c, d, i, j);
    if cell(c, nodes, ni, nj).done {
        assert(node_ok(c, nodes, ni, nj));
        assert(seen_at(c, nodes, 0, 0, 3, ni, nj));
        let k: int = if d == Direction::Vertical {
            0
        } else if d == Direction::Horizontal {
            1
        } else {
            2
        };
        assert(step_seen(c, nodes, ni, nj, k));
        assert(queued(c, nodes, queue, i, j));
        assert(reached(cell(c, nodes, i, j)));
    } else {
        lemma_frontier(c, nodes, queue, least, ni, nj);
    }
}

/// While the cell `(0, 0)` is not settled, some cell waits in the queue.
pub proof fn lemma_queue_not_empty(c: Costs, nodes: Seq<Node>, queue: Multiset<State>)
    requires
        c.fits(),
        search_inv(c, nodes, queue, 0, 0, 3),
    ensures
        queue.len() > 0,
{
    if queue.len() == 0 {
        assert forall|e: State| !queue.contains(e) by {
            if queue.contains(e) {
                vstd::multiset::lemma_multiset_empty_len(queue);
            }
        }
        lemma_all_settled(c, nodes, queue, 0, 0);
    }
}

proof fn lemma_all_settled(c: Costs, nodes: Seq<Node>, queue: Multiset<State>, i: int, j: int)
    requires
        c.fits(),
        search_inv(c, nodes, queue, 0, 0, 3),
        forall|e: State| !queue.contains(e),
        in_grid(c, i, j),
    ensures
        cell(c, nodes, i, j).done,
    decreases c.step_a.len() - i + c.step_b.len() - j,
{
    let n = c.step_a.len() as int;
    let m = c.step_b.len() as int;
    assert(queued(c, nodes, queue, i, j));
    if i == n && j == m {
    } else {
        let d = if i < n {
            Direction::Horizontal
        } else {
            Direction::Vertical
        };
        let k: int = if i < n {
            1
        } else {
            0
        };
        let ni = i + takes_a(d);
        let nj = j + takes_b(d);
        lemma_all_settled(c, nodes, queue, ni, nj);
        lemma_step_fits(c, d, i, j);
        assert(node_ok(c, nodes, ni, nj));
        assert(seen_at(c, nodes, 0, 0, 3, ni, nj));
        assert(step_seen(c, nodes, ni, nj, k));
    }
}

/// The entry that leaves the queue first names a cell that costs what the
/// entry says, and no way from that cell costs less.
pub proof fn lemma_popped_cost(c: Costs, nodes: Seq<Node>, queue: Multiset<State>, e: State)
    requires
        c.fits(),
        search_inv(c, nodes, queue, 0, 0, 3),
        queue.contains(e),
        forall|x: State| queue.contains(x) ==> e.cost <= x.cost,
        !cell(c, nodes, e.index1 as int, e.index2 as int).done,
    ensures
        in_grid(c, e.index1 as int, e.index2 as int),
        cell(c, nodes, e.index1 as int, e.index2 as int).cost == e.cost,
        e.cost == best(c, e.index1 as int, e.index2 as int),
        e.cost < usize::MAX,
{
    let i = e.index1 as int;
    let j = e.index2 as int;
    assert(entry_ok(c, nodes, e));
    assert(queued(c, nodes, queue, i, j));
    assert(node_ok(c, nodes, i, j));
    lemma_frontier(c, nodes, queue, e.cost as int, i, j);
}

/// Taking a stale entry out of the queue keeps the state of the search.
pub proof fn lemma_stale(
    c: Costs,
    nodes: Seq<Node>,
    queue0: Multiset<State>,
    queue1: Multiset<State>,
    e: State,
)
    requires
        search_inv(c, nodes, queue0, 0, 0, 3),
        queue0.contains(e),
        cell(c, nodes, e.index1 as int, e.index2 as int).done,
        forall|x: State| queue1.contains(x) ==> queue0.contains(x),
        forall|x: State| queue0.contains(x) && x != e ==> queue1.contains(x),
    ensures
        search_inv(c, nodes, queue1, 0, 0, 3),
{
    assert forall|i: int, j: int| in_grid(c, i, j) implies #[trigger] queued(c, nodes, queue1, i, j) by {
        assert(queued(c, nodes, queue0, i, j));
    }
    assert forall|x: State| queue1.contains(x) implies #[trigger] entry_ok(c, nodes, x) by {
        assert(entry_ok(c, nodes, x));
    }
}


/// Writing a cell keeps what holds of each cell, where the new cell is in
/// order itself and a settled cell stays settled at its cost.
proof fn lemma_write_nodes_ok(c: Costs, nodes0: Seq<Node>, nodes1: Seq<Node>, ti: int, tj: int, x: Node)
    requires
        all_nodes_ok(c, nodes0),
        in_grid(c, ti, tj),
        cell_written(c, nodes0, nodes1, ti, tj, x),
        node_ok(c, nodes1, ti, tj),
        cell(c, nodes0, ti, tj).done ==> x.done && x.cost == cell(c, nodes0, ti, tj).cost,
    ensures
        all_nodes_ok(c, nodes1),
{
    assert forall|a: int, b: int| in_grid(c, a, b) implies #[trigger] node_ok(c, nodes1, a, b) by {
        if !(a == ti && b == tj) {
            assert(node_ok(c, nodes0, a, b));
            let y = cell(c, nodes0, a, b);
            if reached(y) && !(a == c.step_a.len() && b == c.step_b.len()) {
                let na = a + takes_a(y.from);
                let nb = b + takes_b(y.from);
                assert(in_grid(c, na, nb));
                if !(na == ti && nb == tj) {
                    assert(cell(c, nodes1, na, nb) == cell(c, nodes0, na, nb));
                }
            }
        }
    }
}

/// The steps that have been looked at stay so when a cell is written at no
/// higher cost, while the settled cells keep their state.
proof fn lemma_write_seen(
    c: Costs,
    nodes0: Seq<Node>,
    nodes1: Seq<Node>,
    ti: int,
    tj: int,
    x: Node,
    ci: int,
    cj: int,
    stage: int,
    a: int,
    b: int,
    k: int,
)
    requires
        in_grid(c, ti, tj),
        in_grid(c, a, b),
        cell_written(c, nodes0, nodes1, ti, tj, x),
        x.cost <= cell(c, nodes0, ti, tj).cost,
        !(a == ti && b == tj),
        0 <= k < 3,
        step_seen(c, nodes0, a, b, k),
    ensures
        step_seen(c, nodes1, a, b, k),
{
    let d = step_of(k);
    let pa = a - takes_a(d);
    let pb = b - takes_b(d);
    if pa >= 0 && pb >= 0 && move_ok(c, d, pa, pb) {
        assert(in_grid(c, pa, pb));
        if !(pa == ti && pb == tj) {
            assert(cell(c, nodes1, pa, pb) == cell(c, nodes0, pa, pb));
        }
    }
}

/// Settling the cell that the first entry of the queue names keeps the state
/// of the search, with none of the steps that end at the cell looked at yet.
pub proof fn lemma_settle(
    c: Costs,
    nodes0: Seq<Node>,
    queue0: Multiset<State>,
    nodes1: Seq<Node>,
    queue1: Multiset<State>,
    e: State,
)
    requires
        c.fits(),
        search_inv(c, nodes0, queue0, 0, 0, 3),
        queue0.contains(e),
        forall|x: State| queue0.contains(x) ==> e.cost <= x.cost,
        forall|x: State| queue1.contains(x) ==> queue0.contains(x),
        forall|x: State| queue0.contains(x) && x != e ==> queue1.contains(x),
        !cell(c, nodes0, e.index1 as int, e.index2 as int).done,
        !(e.index1 == 0 && e.index2 == 0),
        nodes1 == nodes0.update(
            grid_index(width(c), e.index1 as int, e.index2 as int),
            Node { done: true, ..cell(c, nodes0, e.index1 as int, e.index2 as int) },
        ),
    ensures
        search_inv(c, nodes1, queue1, e.index1 as int, e.index2 as int, 0),
        cell(c, nodes1, e.index1 as int, e.index2 as int).done,
        cell(c, nodes1, e.index1 as int, e.index2 as int).cost == best(
            c,
            e.index1 as int,
            e.index2 as int,
        ),
        cell(c, nodes1, e.index1 as int, e.index2 as int).cost == e.cost,
{
    let ci = e.index1 as int;
    let cj = e.index2 as int;
    let n = c.step_a.len() as int;
    let m = c.step_b.len() as int;
    let old = cell(c, nodes0, ci, cj);
    let x = Node { done: true, ..old };
    lemma_popped_cost(c, nodes0, queue0, e);
    lemma_cell_update(c, nodes0, ci, cj, x);
    assert(node_ok(c, nodes0, ci, cj));
    assert(node_ok(c, nodes1, ci, cj)) by {
        if !(ci == n && cj == m) {
            assert(in_grid(c, ci + takes_a(old.from), cj + takes_b(old.from)));
        }
    }
    lemma_write_nodes_ok(c, nodes0, nodes1, ci, cj, x);
    assert forall|a: int, b: int| in_grid(c, a, b) implies #[trigger] seen_at(
        c,
        nodes1,
        ci,
        cj,
        0,
        a,
        b,
    ) by {
        if !(a == ci && b == cj) {
            assert(seen_at(c, nodes0, 0, 0, 3, a, b));
            if cell(c, nodes1, a, b).done {
                lemma_write_seen(c, nodes0, nodes1, ci, cj, x, ci, cj, 0, a, b, 0);
                lemma_write_seen(c, nodes0, nodes1, ci, cj, x, ci, cj, 0, a, b, 1);
                lemma_write_seen(c, nodes0, nodes1, ci, cj, x, ci, cj, 0, a, b, 2);
            }
        }
    }
    assert forall|a: int, b: int| in_grid(c, a, b) implies #[trigger] queued(
        c,
        nodes1,
        queue1,
        a,
        b,
    ) by {
        if !(a == ci && b == cj) {
            assert(queued(c, nodes0, queue0, a, b));
        }
    }
    assert forall|y: State| queue1.contains(y) implies #[trigger] entry_ok(c, nodes1, y) by {
        assert(entry_ok(c, nodes0, y));
        let yi = y.index1 as int;
        let yj = y.index2 as int;
        if !(yi == ci && yj == cj) {
            assert(cell(c, nodes1, yi, yj) == cell(c, nodes0, yi, yj));
        }
    }
    assert(cell(c, nodes1, n, m).cost == 0) by {
        if !(ci == n && cj == m) {
            assert(cell(c, nodes1, n, m) == cell(c, nodes0, n, m));
        }
    }
    assert(!cell(c, nodes1, 0, 0).done) by {
        assert(cell(c, nodes1, 0, 0) == cell(c, nodes0, 0, 0));
    }
}

/// What looking at the `k`th step that ends at the settled cell `(i, j)`
/// does. `lowered` says whether the cell that the step starts from was
/// given a lower cost, and put into the queue at that cost.
pub open spec fn relaxed(
    c: Costs,
    nodes0: Seq<Node>,
    queue0: Multiset<State>,
    nodes1: Seq<Node>,
    queue1: Multiset<State>,
    i: int,
    j: int,
    k: int,
    lowered: bool,
) -> bool {
    let d = step_of(k);
    let ti = i - takes_a(d);
    let tj = j - takes_b(d);
    let cost = cell(c, nodes0, i, j).cost + move_cost(c, d, ti, tj);
    if lowered {
        &&& ti >= 0 && tj >= 0 && move_ok(c, d, ti, tj)
        &&& !cell(c, nodes0, ti, tj).done
        &&& cost < cell(c, nodes0, ti, tj).cost
        &&& nodes1 == nodes0.update(
            grid_index(width(c), ti, tj),
            Node { cost: cost as usize, from: d, done: false },
        )
        &&& forall|x: State|
            queue1.contains(x) <==> (x == entry_of(cost, ti, tj) || queue0.contains(x))
    } else {
        &&& nodes1 == nodes0
        &&& queue1 == queue0
        &&& (ti >= 0 && tj >= 0 && move_ok(c, d, ti, tj) ==> cell(c, nodes0, ti, tj).done || cost
            >= cell(c, nodes0, ti, tj).cost)
    }
}

/// Looking at the `k`th step that ends at the settled cell `(i, j)` keeps
/// the state of the search.
pub proof fn lemma_relax(
    c: Costs,
    nodes0: Seq<Node>,
    queue0: Multiset<State>,
    nodes1: Seq<Node>,
    queue1: Multiset<State>,
    i: int,
    j: int,
    k: int,
    lowered: bool,
)
    requires
        c.fits(),
        search_inv(c, nodes0, queue0, i, j, k),
        0 <= k < 3,
        in_grid(c, i, j),
        cell(c, nodes0, i, j).done,
        relaxed(c, nodes0, queue0, nodes1, queue1, i, j, k, lowered),
    ensures
        search_inv(c, nodes1, queue1, i, j, k + 1),
        cell(c, nodes1, i, j) == cell(c, nodes0, i, j),
{
    let n = c.step_a.len() as int;
    let m = c.step_b.len() as int;
    let d = step_of(k);
    let ti = i - takes_a(d);
    let tj = j - takes_b(d);
    let cost = cell(c, nodes0, i, j).cost + move_cost(c, d, ti, tj);
    assert(node_ok(c, nodes0, i, j));
    if ti >= 0 && tj >= 0 && move_ok(c, d, ti, tj) {
        lemma_best_step(c, d, ti, tj);
        lemma_step_fits(c, d, ti, tj);
        assert(node_ok(c, nodes0, ti, tj));
    }
    if lowered {
        let x = Node { cost: cost as usize, from: d, done: false };
        lemma_cell_update(c, nodes0, ti, tj, x);
        assert(cell(c, nodes1, i, j) == cell(c, nodes0, i, j));
        assert(node_ok(c, nodes1, ti, tj));
        lemma_write_nodes_ok(c, nodes0, nodes1, ti, tj, x);
        assert forall|a: int, b: int| in_grid(c, a, b) implies #[trigger] seen_at(
            c,
            nodes1,
            i,
            j,
            k + 1,
            a,
            b,
        ) by {
            if !(a == ti && b == tj) {
                assert(seen_at(c, nodes0, i, j, k, a, b));
                if cell(c, nodes1, a, b).done {
                    if a == i && b == j {
                        if k > 0 {
                            lemma_write_seen(c, nodes0, nodes1, ti, tj, x, i, j, 0, a, b, 0);
                        }
                        if k > 1 {
                            lemma_write_seen(c, nodes0, nodes1, ti, tj, x, i, j, 0, a, b, 1);
                        }
                    } else {
                        lemma_write_seen(c, nodes0, nodes1, ti, tj, x, i, j, 0, a, b, 0);
                        lemma_write_seen(c, nodes0, nodes1, ti, tj, x, i, j, 0, a, b, 1);
                        lemma_write_seen(c, nodes0, nodes1, ti, tj, x, i, j, 0, a, b, 2);
                    }
                }
            }
        }
        assert forall|a: int, b: int| in_grid(c, a, b) implies #[trigger] queued(
            c,
            nodes1,
            queue1,
            a,
            b,
        ) by {
            if !(a == ti && b == tj) {
                assert(queued(c, nodes0, queue0, a, b));
            }
        }
        assert forall|y: State| queue1.contains(y) implies #[trigger] entry_ok(c, nodes1, y) by {
            if queue0.contains(y) {
                assert(entry_ok(c, nodes0, y));
                let yi = y.index1 as int;
                let yj = y.index2 as int;
                if !(yi == ti && yj == tj) {
                    assert(cell(c, nodes1, yi, yj) == cell(c, nodes0, yi, yj));
                }
            }
        }
        assert(cell(c, nodes1, n, m).cost == 0) by {
            assert(cell(c, nodes1, n, m) == cell(c, nodes0, n, m));
        }
        assert(!cell(c, nodes1, 0, 0).done) by {
            if !(ti == 0 && tj == 0) {
                assert(cell(c, nodes1, 0, 0) == cell(c, nodes0, 0, 0));
            }
        }
    } else {
        assert forall|a: int, b: int| in_grid(c, a, b) implies #[trigger] seen_at(
            c,
            nodes1,
            i,
            j,
            k + 1,
            a,
            b,
        ) by {
            assert(seen_at(c, nodes0, i, j, k, a, b));
        }
    }
}

/// When all three steps that end at a cell have been looked at, the search
/// is where it was before it settled the cell.
pub proof fn lemma_all_seen(c: Costs, nodes: Seq<Node>, queue: Multiset<State>, i: int, j: int)
    requires
        search_inv(c, nodes, queue, i, j, 3),
    ensures
        search_inv(c, nodes, queue, 0, 0, 3),
{
    assert forall|a: int, b: int| in_grid(c, a, b) implies #[trigger] seen_at(
        c,
        nodes,
        0,
        0,
        3,
        a,
        b,
    ) by {
        assert(seen_at(c, nodes, i, j, 3, a, b));
    }
}

} // verus!
