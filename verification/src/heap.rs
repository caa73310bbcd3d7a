//! A binary min-heap of search states, ordered by accumulated cost.
use vstd::prelude::*;
use vstd::multiset::Multiset;

verus! {

/// A grid cell together with the cost at which the search reached it.
#[derive(Debug, Clone, Copy)]
pub struct State {
    pub cost: usize,
    pub index1: usize,
    pub index2: usize,
}

/// A priority queue that hands out a state of least cost first.
pub struct MinHeap {
    items: Vec<State>,
}

/// Every entry but the root costs at least as much as its parent.
pub open spec fn heap_ordered(s: Seq<State>) -> bool {
    forall|k: int| 1 <= k < s.len() ==> s[(k - 1) / 2].cost <= (#[trigger] s[k]).cost
}

/// The order holds everywhere but between `pos` and its parent, and the
/// children of `pos` already respect the parent of `pos`.
spec fn ordered_but_above(s: Seq<State>, pos: int) -> bool {
    &&& forall|k: int| 1 <= k < s.len() && k != pos ==> s[(k - 1) / 2].cost <= (#[trigger] s[k]).cost
    &&& forall|k: int|
        1 <= k < s.len() && (k - 1) / 2 == pos && pos >= 1 ==> s[(pos - 1) / 2].cost <= (
        #[trigger] s[k]).cost
}

/// The order holds everywhere but between `pos` and its children, and the
/// children of `pos` already respect the parent of `pos`.
spec fn ordered_but_below(s: Seq<State>, pos: int) -> bool {
    &&& forall|k: int|
        1 <= k < s.len() && (k - 1) / 2 != pos ==> s[(k - 1) / 2].cost <= (#[trigger] s[k]).cost
    &&& forall|k: int|
        1 <= k < s.len() && (k - 1) / 2 == pos && pos >= 1 ==> s[(pos - 1) / 2].cost <= (
        #[trigger] s[k]).cost
}

/// In an ordered heap no entry is cheaper than the root.
proof fn lemma_root_is_least(s: Seq<State>, k: int)
    requires
        heap_ordered(s),
        0 <= k < s.len(),
    ensures
        s[0].cost <= s[k].cost,
    decreases k,
{
    if k > 0 {
        lemma_root_is_least(s, (k - 1) / 2);
    }
}

/// Exchanging two entries keeps the collection of entries.
proof fn lemma_swap_keeps_entries(s: Seq<State>, i: int, j: int)
    requires
        0 <= i < s.len(),
        0 <= j < s.len(),
    ensures
        s.update(i, s[j]).update(j, s[i]).to_multiset() == s.to_multiset(),
{
    broadcast use vstd::multiset::group_multiset_axioms;

    let t = s.update(i, s[j]);
    vstd::seq_lib::to_multiset_update(s, i, s[j]);
    vstd::seq_lib::to_multiset_update(t, j, s[i]);
    vstd::seq_lib::to_multiset_contains(s, s[i]);
    vstd::seq_lib::to_multiset_contains(s, s[j]);
    assert(s.contains(s[i]));
    assert(s.contains(s[j]));
    assert(t.update(j, s[i]).to_multiset() =~= s.to_multiset());
}

impl MinHeap {
    /// The entries held, with their multiplicities.
    pub closed spec fn view(&self) -> Multiset<State> {
        self.items@.to_multiset()
    }

    /// The internal order that makes the root a least entry.
    pub closed spec fn wf(&self) -> bool {
        heap_ordered(self.items@)
    }

    /// An empty heap.
    pub fn new() -> (heap: MinHeap)
        ensures
            heap.wf(),
            heap@ == Multiset::<State>::empty(),
            heap@.len() == 0,
    {
        let heap = MinHeap { items: Vec::new() };
        proof {
            broadcast use vstd::seq_lib::group_to_multiset_ensures;

            assert(heap.items@.to_multiset() =~= Multiset::<State>::empty());
        }
        heap
    }

    /// The number of entries held.
    pub fn len(&self) -> (n: usize)
        ensures
            n == self@.len(),
    {
        proof {
            vstd::seq_lib::to_multiset_len(self.items@);
        }
        self.items.len()
    }

    fn swap(&mut self, i: usize, j: usize)
        requires
            i < old(self).items.len(),
            j < old(self).items.len(),
        ensures
            final(self).items@ == old(self).items@.update(i as int, old(self).items@[j as int]).update(
                j as int,
                old(self).items@[i as int],
            ),
            final(self).items@.to_multiset() == old(self).items@.to_multiset(),
    {
        let a = self.items[i];
        let b = self.items[j];
        self.items.set(i, b);
        self.items.set(j, a);
        proof {
            lemma_swap_keeps_entries(old(self).items@, i as int, j as int);
        }
    }

    /// Adds an entry.
    pub fn push(&mut self, state: State)
        requires
            old(self).wf(),
        ensures
            final(self).wf(),
            final(self)@ == old(self)@.insert(state),
            final(self)@.len() == old(self)@.len() + 1,
            forall|x: State| final(self)@.contains(x) <==> (x == state || old(self)@.contains(x)),
    {
        self.items.push(state);
        proof {
            vstd::seq_lib::to_multiset_build(old(self).items@, state);
        }
        let mut pos = self.items.len() - 1;
        while pos > 0 && self.items[(pos - 1) / 2].cost > self.items[pos].cost
            invariant
                pos < self.items.len(),
                self.items@.to_multiset() == old(self).items@.to_multiset().insert(state),
                ordered_but_above(self.items@, pos as int),
            decreases pos,
        {
            let parent = (pos - 1) / 2;
            self.swap(parent, pos);
            pos = parent;
        }
        proof {
            broadcast use vstd::multiset::group_multiset_axioms;

            assert(heap_ordered(self.items@));
            vstd::seq_lib::to_multiset_len(self.items@);
            vstd::seq_lib::to_multiset_len(old(self).items@);
        }
    }

    /// Takes out an entry of least cost, if there is any entry.
    pub fn pop(&mut self) -> (least: Option<State>)
        requires
            old(self).wf(),
        ensures
            final(self).wf(),
            least is None <==> old(self)@.len() == 0,
            least is None ==> final(self)@ == old(self)@,
            least is Some ==> {
                let e = least->Some_0;
                &&& old(self)@ == final(self)@.insert(e)
                &&& final(self)@.len() + 1 == old(self)@.len()
                &&& old(self)@.contains(e)
                &&& forall|x: State| old(self)@.contains(x) ==> e.cost <= x.cost
                &&& forall|x: State| final(self)@.contains(x) ==> old(self)@.contains(x)
                &&& forall|x: State| old(self)@.contains(x) && x != e ==> final(self)@.contains(x)
            },
    {
        proof {
            vstd::seq_lib::to_multiset_len(self.items@);
        }
        let n = self.items.len();
        if n == 0 {
            return None;
        }
        let top = self.items[0];
        let last = self.items[n - 1];
        self.items.set(0, last);
        self.items.pop();
        proof {
            broadcast use vstd::multiset::group_multiset_axioms;

            let s = old(self).items@;
            let t = s.update(0, last);
            vstd::seq_lib::to_multiset_update(s, 0, last);
            assert(self.items@ =~= t.remove(n - 1));
            vstd::seq_lib::to_multiset_remove(t, n - 1);
            vstd::seq_lib::to_multiset_contains(s, last);
            vstd::seq_lib::to_multiset_contains(s, top);
            assert(s.contains(last));
            assert(s.contains(top));
            assert(self.items@.to_multiset().insert(top) =~= s.to_multiset());
            assert forall|x: State| s.to_multiset().contains(x) implies top.cost <= x.cost by {
                vstd::seq_lib::to_multiset_contains(s, x);
                let k = choose|k: int| 0 <= k < s.len() && s[k] == x;
                lemma_root_is_least(s, k);
            }
        }
        let len = self.items.len();
        let mut pos: usize = 0;
        while pos < len / 2
            invariant
                len == self.items.len(),
                pos < len || len == 0,
                self.items@.to_multiset().insert(top) == old(self).items@.to_multiset(),
                ordered_but_below(self.items@, pos as int),
            ensures
                heap_ordered(self.items@),
            decreases len - pos,
        {
            let left = 2 * pos + 1;
            let right = left + 1;
            let child = if right < len && self.items[right].cost < self.items[left].cost {
                right
            } else {
                left
            };
            if self.items[pos].cost <= self.items[child].cost {
                assert(heap_ordered(self.items@));
                break ;
            }
            self.swap(pos, child);
            pos = child;
        }
        proof {
            broadcast use vstd::multiset::group_multiset_axioms;

            assert(heap_ordered(self.items@));
            vstd::seq_lib::to_multiset_len(self.items@);
        }
        Some(top)
    }
}

} // verus!
