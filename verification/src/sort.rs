//! Sorting a list by a comparison, keeping the order of the items that the
//! comparison does not tell apart.
use std::cmp::Ordering;
use vstd::prelude::*;
use vstd::slice::slice_subrange;
use crate::seqs::{first_half, lemma_halves, lemma_rest_ends, lemma_rest_step, rest, second_half};

verus! {

/// The merge of two runs: at each place the first item of `a`, unless the
/// first item of `b` comes before it.
pub open spec fn merge_runs<T>(a: Seq<T>, b: Seq<T>, ord: spec_fn(T, T) -> Ordering) -> Seq<T>
    decreases a.len() + b.len(),
{
    if a.len() == 0 {
        b
    } else if b.len() == 0 {
        a
    } else if ord(b[0], a[0]) == Ordering::Less {
        seq![b[0]] + merge_runs(a, b.drop_first(), ord)
    } else {
        seq![a[0]] + merge_runs(a.drop_first(), b, ord)
    }
}

/// The list `s` sorted by `ord`: its two halves, each sorted, merged.
pub open spec fn sorted<T>(s: Seq<T>, ord: spec_fn(T, T) -> Ordering) -> Seq<T>
    decreases s.len(),
{
    if s.len() <= 1 {
        s
    } else {
        merge_runs(sorted(first_half(s), ord), sorted(second_half(s), ord), ord)
    }
}

/// Whether the comparison `cmp` can be called on any two items, and gives
/// the order `ord`.
pub open spec fn gives_order<T, C: Fn(T, T) -> Ordering>(cmp: &C, ord: spec_fn(T, T) -> Ordering) -> bool {
    &&& forall|x: T, y: T| #[trigger] call_requires(cmp, (x, y))
    &&& forall|x: T, y: T, o: Ordering| #[trigger] call_ensures(cmp, (x, y), o) ==> o == ord(x, y)
}

/// Merges two runs.
fn merge_sorted<T: Copy, C: Fn(T, T) -> Ordering>(
    a: &Vec<T>,
    b: &Vec<T>,
    cmp: &C,
    Ghost(ord): Ghost<spec_fn(T, T) -> Ordering>,
) -> (list: Vec<T>)
    requires
        gives_order(cmp, ord),
    ensures
        list@ == merge_runs(a@, b@, ord),
{
    let mut list: Vec<T> = Vec::new();
    let mut i: usize = 0;
    let mut j: usize = 0;
    let len_a = a.len();
    let len_b = b.len();
    proof {
        lemma_rest_ends(a@, 0);
        lemma_rest_ends(b@, 0);
        assert(list@ + merge_runs(a@, b@, ord) =~= merge_runs(a@, b@, ord));
    }
    while i < len_a || j < len_b
        invariant
            len_a == a@.len(),
            len_b == b@.len(),
            i <= a@.len(),
            j <= b@.len(),
            gives_order(cmp, ord),
            list@ + merge_runs(rest(a@, i), rest(b@, j), ord) == merge_runs(a@, b@, ord),
        decreases a@.len() - i + b@.len() - j,
    {
        let ghost before = list@;
        let ghost tail = merge_runs(rest(a@, i), rest(b@, j), ord);
        proof {
            lemma_rest_ends(a@, i);
            lemma_rest_ends(b@, j);
            if i < a@.len() {
                lemma_rest_step(a@, i);
            }
            if j < b@.len() {
                lemma_rest_step(b@, j);
            }
        }
        let from_b = if i == a.len() {
            true
        } else if j == b.len() {
            false
        } else {
            match cmp(b[j], a[i]) {
                Ordering::Less => true,
                _ => false,
            }
        };
        if from_b {
            list.push(b[j]);
            j += 1;
        } else {
            list.push(a[i]);
            i += 1;
        }
        proof {
            let after = merge_runs(rest(a@, i), rest(b@, j), ord);
            assert(tail =~= seq![tail[0]] + after);
            assert(list@ + after =~= before + (seq![tail[0]] + after));
        }
    }
    proof {
        lemma_rest_ends(a@, i);
        lemma_rest_ends(b@, j);
        assert(list@ + merge_runs(rest(a@, i), rest(b@, j), ord) =~= list@);
    }
    list
}

/// Sorts `list` by `cmp`. Items that `cmp` does not tell apart stay in the
/// order in which they are.
pub fn sort_by<T: Copy, C: Fn(T, T) -> Ordering>(
    list: &[T],
    cmp: &C,
    Ghost(ord): Ghost<spec_fn(T, T) -> Ordering>,
) -> (out: Vec<T>)
    requires
        gives_order(cmp, ord),
    ensures
        out@ == sorted(list@, ord),
    decreases list@.len(),
{
    let len = list.len();
    if len <= 1 {
        let mut out: Vec<T> = Vec::new();
        if len == 1 {
            out.push(list[0]);
        }
        assert(out@ =~= list@);
        return out;
    }
    let mid = len / 2;
    proof {
        lemma_halves(list@, mid);
    }
    let left = sort_by(slice_subrange(list, 0, mid), cmp, Ghost(ord));
    let right = sort_by(slice_subrange(list, mid, len), cmp, Ghost(ord));
    merge_sorted(&left, &right, cmp, Ghost(ord))
}

/// Merging two runs keeps each item of either, as often as it is there.
pub proof fn lemma_merge_runs_permutes<T>(a: Seq<T>, b: Seq<T>, ord: spec_fn(T, T) -> Ordering)
    ensures
        merge_runs(a, b, ord).to_multiset() == a.to_multiset().add(b.to_multiset()),
    decreases a.len() + b.len(),
{
    broadcast use vstd::multiset::group_multiset_axioms;

    if a.len() == 0 {
        assert(a.to_multiset() =~= vstd::multiset::Multiset::<T>::empty()) by {
            vstd::seq_lib::to_multiset_len(a);
            vstd::multiset::lemma_multiset_empty_len(a.to_multiset());
        }
        assert(merge_runs(a, b, ord).to_multiset() =~= a.to_multiset().add(b.to_multiset()));
    } else if b.len() == 0 {
        assert(b.to_multiset() =~= vstd::multiset::Multiset::<T>::empty()) by {
            vstd::seq_lib::to_multiset_len(b);
            vstd::multiset::lemma_multiset_empty_len(b.to_multiset());
        }
        assert(merge_runs(a, b, ord).to_multiset() =~= a.to_multiset().add(b.to_multiset()));
    } else if ord(b[0], a[0]) == Ordering::Less {
        let tail = merge_runs(a, b.drop_first(), ord);
        lemma_merge_runs_permutes(a, b.drop_first(), ord);
        vstd::seq_lib::lemma_seq_union_to_multiset_commutative(seq![b[0]], tail);
        vstd::seq_lib::lemma_multiset_commutative(seq![b[0]], tail);
        vstd::seq_lib::lemma_multiset_commutative(seq![b[0]], b.drop_first());
        assert(seq![b[0]] + b.drop_first() =~= b);
        assert(merge_runs(a, b, ord).to_multiset() =~= a.to_multiset().add(b.to_multiset()));
    } else {
        let tail = merge_runs(a.drop_first(), b, ord);
        lemma_merge_runs_permutes(a.drop_first(), b, ord);
        vstd::seq_lib::lemma_multiset_commutative(seq![a[0]], tail);
        vstd::seq_lib::lemma_multiset_commutative(seq![a[0]], a.drop_first());
        assert(seq![a[0]] + a.drop_first() =~= a);
        assert(merge_runs(a, b, ord).to_multiset() =~= a.to_multiset().add(b.to_multiset()));
    }
}

/// Sorting keeps each item, as often as it is there.
pub proof fn lemma_sorted_permutes<T>(s: Seq<T>, ord: spec_fn(T, T) -> Ordering)
    ensures
        sorted(s, ord).to_multiset() == s.to_multiset(),
        sorted(s, ord).len() == s.len(),
    decreases s.len(),
{
    if s.len() > 1 {
        let a = first_half(s);
        let b = second_half(s);
        assert(a + b =~= s);
        lemma_sorted_permutes(a, ord);
        lemma_sorted_permutes(b, ord);
        lemma_merge_runs_permutes(sorted(a, ord), sorted(b, ord), ord);
        vstd::seq_lib::lemma_multiset_commutative(a, b);
    }
    vstd::seq_lib::to_multiset_len(s);
    vstd::seq_lib::to_multiset_len(sorted(s, ord));
}

/// Whether `ord` is an order in which any two items can be compared: it
/// says that `x` comes before `y` just where it says that `y` comes after
/// `x`, and an item that does not come after a second, which does not come
/// after a third, does not come after the third.
pub open spec fn orders_all<T>(ord: spec_fn(T, T) -> Ordering) -> bool {
    &&& forall|x: T, y: T| (#[trigger] ord(x, y) == Ordering::Less) <==> ord(y, x) == Ordering::Greater
    &&& forall|x: T, y: T, z: T|
        #[trigger] ord(x, y) != Ordering::Greater && #[trigger] ord(y, z) != Ordering::Greater ==> ord(x, z)
            != Ordering::Greater
}

/// Whether no item of `s` comes after a later one.
pub open spec fn in_order<T>(s: Seq<T>, ord: spec_fn(T, T) -> Ordering) -> bool {
    forall|i: int, j: int| 0 <= i < j < s.len() ==> ord(s[i], s[j]) != Ordering::Greater
}

/// Whether `x` comes after no item of `s`.
pub open spec fn not_after<T>(x: T, s: Seq<T>, ord: spec_fn(T, T) -> Ordering) -> bool {
    forall|i: int| 0 <= i < s.len() ==> ord(x, s[i]) != Ordering::Greater
}

/// An item that comes after no item of two runs comes after no item of
/// their merge.
proof fn lemma_merge_runs_not_after<T>(x: T, a: Seq<T>, b: Seq<T>, ord: spec_fn(T, T) -> Ordering)
    requires
        not_after(x, a, ord),
        not_after(x, b, ord),
    ensures
        not_after(x, merge_runs(a, b, ord), ord),
    decreases a.len() + b.len(),
{
    if a.len() == 0 || b.len() == 0 {
    } else if ord(b[0], a[0]) == Ordering::Less {
        let tail = merge_runs(a, b.drop_first(), ord);
        assert forall|i: int| 0 <= i < b.drop_first().len() implies ord(x, b.drop_first()[i])
            != Ordering::Greater by {
            assert(b.drop_first()[i] == b[i + 1]);
        }
        lemma_merge_runs_not_after(x, a, b.drop_first(), ord);
        let m = merge_runs(a, b, ord);
        assert forall|i: int| 0 <= i < m.len() implies ord(x, m[i]) != Ordering::Greater by {
            if i == 0 {
                assert(m[0] == b[0]);
            } else {
                assert(m[i] == tail[i - 1]);
            }
        }
    } else {
        let tail = merge_runs(a.drop_first(), b, ord);
        assert forall|i: int| 0 <= i < a.drop_first().len() implies ord(x, a.drop_first()[i])
            != Ordering::Greater by {
            assert(a.drop_first()[i] == a[i + 1]);
        }
        lemma_merge_runs_not_after(x, a.drop_first(), b, ord);
        let m = merge_runs(a, b, ord);
        assert forall|i: int| 0 <= i < m.len() implies ord(x, m[i]) != Ordering::Greater by {
            if i == 0 {
                assert(m[0] == a[0]);
            } else {
                assert(m[i] == tail[i - 1]);
            }
        }
    }
}

/// The merge of two runs that are in order is in order.
pub proof fn lemma_merge_runs_in_order<T>(a: Seq<T>, b: Seq<T>, ord: spec_fn(T, T) -> Ordering)
    requires
        orders_all(ord),
        in_order(a, ord),
        in_order(b, ord),
    ensures
        in_order(merge_runs(a, b, ord), ord),
    decreases a.len() + b.len(),
{
    if a.len() == 0 || b.len() == 0 {
    } else {
        let from_b = ord(b[0], a[0]) == Ordering::Less;
        let head = if from_b {
            b[0]
        } else {
            a[0]
        };
        let a2 = if from_b {
            a
        } else {
            a.drop_first()
        };
        let b2 = if from_b {
            b.drop_first()
        } else {
            b
        };
        let tail = merge_runs(a2, b2, ord);
        let m = merge_runs(a, b, ord);
        assert(m =~= seq![head] + tail);
        assert forall|i: int, j: int| 0 <= i < j < a2.len() implies ord(a2[i], a2[j])
            != Ordering::Greater by {
            if !from_b {
                assert(a2[i] == a[i + 1] && a2[j] == a[j + 1]);
            }
        }
        assert forall|i: int, j: int| 0 <= i < j < b2.len() implies ord(b2[i], b2[j])
            != Ordering::Greater by {
            if from_b {
                assert(b2[i] == b[i + 1] && b2[j] == b[j + 1]);
            }
        }
        lemma_merge_runs_in_order(a2, b2, ord);
        // The head comes after no item of either run.
        assert(ord(head, a[0]) != Ordering::Greater && ord(head, b[0]) != Ordering::Greater) by {
            if from_b {
                assert(ord(b[0], b[0]) != Ordering::Less) by {
                    if ord(b[0], b[0]) == Ordering::Less {
                        assert(ord(b[0], b[0]) == Ordering::Greater);
                    }
                }
                assert(ord(b[0], b[0]) != Ordering::Greater);
            } else {
                assert(ord(a[0], a[0]) != Ordering::Greater) by {
                    if ord(a[0], a[0]) == Ordering::Greater {
                        assert(ord(a[0], a[0]) == Ordering::Less);
                    }
                }
                assert(ord(a[0], b[0]) != Ordering::Greater);
            }
        }
        assert forall|i: int| 0 <= i < a2.len() implies ord(head, a2[i]) != Ordering::Greater by {
            let k = if from_b {
                i
            } else {
                i + 1
            };
            assert(a2[i] == a[k]);
            if k > 0 {
                assert(ord(a[0], a[k]) != Ordering::Greater);
                assert(ord(head, a[0]) != Ordering::Greater);
            }
        }
        assert forall|i: int| 0 <= i < b2.len() implies ord(head, b2[i]) != Ordering::Greater by {
            let k = if from_b {
                i + 1
            } else {
                i
            };
            assert(b2[i] == b[k]);
            if k > 0 {
                assert(ord(b[0], b[k]) != Ordering::Greater);
                assert(ord(head, b[0]) != Ordering::Greater);
            }
        }
        lemma_merge_runs_not_after(head, a2, b2, ord);
        assert forall|i: int, j: int| 0 <= i < j < m.len() implies ord(m[i], m[j])
            != Ordering::Greater by {
            assert(m[j] == tail[j - 1]);
            if i == 0 {
                assert(m[0] == head);
            } else {
                assert(m[i] == tail[i - 1]);
            }
        }
    }
}

/// A sorted list is in order, where the order is one in which any two
/// items can be compared.
pub proof fn lemma_sorted_in_order<T>(s: Seq<T>, ord: spec_fn(T, T) -> Ordering)
    requires
        orders_all(ord),
    ensures
        in_order(sorted(s, ord), ord),
    decreases s.len(),
{
    if s.len() > 1 {
        lemma_sorted_in_order(first_half(s), ord);
        lemma_sorted_in_order(second_half(s), ord);
        lemma_merge_runs_in_order(sorted(first_half(s), ord), sorted(second_half(s), ord), ord);
    }
}

} // verus!
