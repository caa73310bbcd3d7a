//! Correlation of two lists that are sorted by the identity of their items.
//!
//! Both lists are walked once, side by side. Where the items at the two
//! places have the same identity they are handed out together; otherwise
//! the one that comes first in the order of identities is handed out alone.
use std::cmp::Ordering;
use vstd::prelude::*;
use crate::seqs::{lemma_rest_ends, lemma_rest_step, rest};

verus! {

/// An item of the first list alone, an item of the second list alone, or an
/// item of each that have the same identity.
#[derive(Debug, Clone, Copy)]
pub enum MergeResult<T> {
    Left(T),
    Right(T),
    Both(T, T),
}

/// What the comparison `cmp` gives for an item of the first list and an item
/// of the second.
pub open spec fn ord_of<T, C: Fn(T, T) -> Ordering>(cmp: C, a: T, b: T) -> Ordering {
    choose|o: Ordering| call_ensures(cmp, (a, b), o)
}

/// Whether `cmp` can be called on the items of `a` and `b`, and gives for
/// the same items the same answer whenever it is called.
pub open spec fn cmp_ok<T, C: Fn(T, T) -> Ordering>(cmp: C, a: Seq<T>, b: Seq<T>) -> bool {
    &&& forall|i: int, j: int|
        0 <= i < a.len() && 0 <= j < b.len() ==> call_requires(
            cmp,
            (#[trigger] a[i], #[trigger] b[j]),
        )
    &&& forall|x: T, y: T, o1: Ordering, o2: Ordering|
        #[trigger] call_ensures(cmp, (x, y), o1) && #[trigger] call_ensures(cmp, (x, y), o2) ==> o1
            == o2
}

/// The order that the comparison `cmp` gives.
pub open spec fn order_of<T, C: Fn(T, T) -> Ordering>(cmp: C) -> spec_fn(T, T) -> Ordering {
    |a: T, b: T| ord_of(cmp, a, b)
}

/// Whether `cmp` can be called on the items of `a` and `b`, and gives the
/// order `ord` for them.
pub open spec fn cmp_gives<T, C: Fn(T, T) -> Ordering>(
    cmp: C,
    ord: spec_fn(T, T) -> Ordering,
    a: Seq<T>,
    b: Seq<T>,
) -> bool {
    &&& forall|i: int, j: int|
        0 <= i < a.len() && 0 <= j < b.len() ==> call_requires(
            cmp,
            (#[trigger] a[i], #[trigger] b[j]),
        )
    &&& forall|i: int, j: int, o: Ordering|
        0 <= i < a.len() && 0 <= j < b.len() && #[trigger] call_ensures(cmp, (a[i], b[j]), o) ==> o
            == ord(a[i], b[j])
}

/// The merge of `a` and `b` under the order `ord` of an item of `a` and an
/// item of `b`.
pub open spec fn merged<T>(a: Seq<T>, b: Seq<T>, ord: spec_fn(T, T) -> Ordering) -> Seq<
    MergeResult<T>,
>
    decreases a.len() + b.len(),
{
    if a.len() == 0 && b.len() == 0 {
        Seq::empty()
    } else if b.len() == 0 {
        seq![MergeResult::Left(a[0])] + merged(a.drop_first(), b, ord)
    } else if a.len() == 0 {
        seq![MergeResult::Right(b[0])] + merged(a, b.drop_first(), ord)
    } else {
        match ord(a[0], b[0]) {
            Ordering::Equal => seq![MergeResult::Both(a[0], b[0])] + merged(
                a.drop_first(),
                b.drop_first(),
                ord,
            ),
            Ordering::Less => seq![MergeResult::Left(a[0])] + merged(a.drop_first(), b, ord),
            Ordering::Greater => seq![MergeResult::Right(b[0])] + merged(a, b.drop_first(), ord),
        }
    }
}

impl<T> MergeResult<T> {
    /// The item by which a result is ordered for display: the one of the
    /// first list where there is one.
    pub open spec fn shown(self) -> T {
        match self {
            MergeResult::Left(a) => a,
            MergeResult::Right(b) => b,
            MergeResult::Both(a, _) => a,
        }
    }

    /// Whether the item by which a result is ordered is one of the second
    /// list.
    pub open spec fn shown_right(self) -> bool {
        self is Right
    }

    /// Compares two results by the items that they are ordered by, with `f`.
    /// `f` gets with each item the argument of the list that the item is
    /// from.
    pub fn cmp<Arg, F>(x: &Self, y: &Self, arg_left: Arg, arg_right: Arg, f: F) -> (o: Ordering) where
        Arg: Copy,
        F: Fn(&T, Arg, &T, Arg) -> Ordering,

        requires
            call_requires(
                f,
                (
                    &x.shown(),
                    if x.shown_right() {
                        arg_right
                    } else {
                        arg_left
                    },
                    &y.shown(),
                    if y.shown_right() {
                        arg_right
                    } else {
                        arg_left
                    },
                ),
            ),
        ensures
            call_ensures(
                f,
                (
                    &x.shown(),
                    if x.shown_right() {
                        arg_right
                    } else {
                        arg_left
                    },
                    &y.shown(),
                    if y.shown_right() {
                        arg_right
                    } else {
                        arg_left
                    },
                ),
                o,
            ),
    {
        match x {
            MergeResult::Both(x_left, _) => match y {
                MergeResult::Both(y_left, _) => f(x_left, arg_left, y_left, arg_left),
                MergeResult::Left(y_left) => f(x_left, arg_left, y_left, arg_left),
                MergeResult::Right(y_right) => f(x_left, arg_left, y_right, arg_right),
            },
            MergeResult::Left(x_left) => match y {
                MergeResult::Both(y_left, _) => f(x_left, arg_left, y_left, arg_left),
                MergeResult::Left(y_left) => f(x_left, arg_left, y_left, arg_left),
                MergeResult::Right(y_right) => f(x_left, arg_left, y_right, arg_right),
            },
            MergeResult::Right(x_right) => match y {
                MergeResult::Both(y_left, _) => f(x_right, arg_right, y_left, arg_left),
                MergeResult::Left(y_left) => f(x_right, arg_right, y_left, arg_left),
                MergeResult::Right(y_right) => f(x_right, arg_right, y_right, arg_right),
            },
        }
    }
}

/// A walk over two sorted lists that hands out their merge, result by
/// result.
pub struct MergeIterator<'a, T, C> {
    iter_left: &'a [T],
    iter_right: &'a [T],
    next_left: usize,
    next_right: usize,
    item_cmp: C,
}

impl<'a, T: Copy, C> MergeIterator<'a, T, C> {
    /// The places are within the lists.
    pub closed spec fn wf(&self) -> bool {
        self.next_left <= self.iter_left@.len() && self.next_right <= self.iter_right@.len()
    }

    /// The items of the first list that are still to come.
    pub closed spec fn left(&self) -> Seq<T> {
        rest(self.iter_left@, self.next_left)
    }

    /// The items of the second list that are still to come.
    pub closed spec fn right(&self) -> Seq<T> {
        rest(self.iter_right@, self.next_right)
    }

    /// The comparison that the walk goes by.
    pub closed spec fn item_cmp(&self) -> C {
        self.item_cmp
    }

    /// A walk over two lists, each in the order that `cmp` gives.
    pub fn new(left: &'a [T], right: &'a [T], cmp: C) -> (iter: Self)
        ensures
            iter.wf(),
            iter.left() == left@,
            iter.right() == right@,
            iter.item_cmp() == cmp,
    {
        proof {
            lemma_rest_ends(left@, 0);
            lemma_rest_ends(right@, 0);
        }
        MergeIterator {
            iter_left: left,
            iter_right: right,
            next_left: 0,
            next_right: 0,
            item_cmp: cmp,
        }
    }

    /// Hands out the next result of the merge, or `None` when both lists are
    /// at their end.
    pub fn next(&mut self) -> (item: Option<MergeResult<T>>) where C: Fn(T, T) -> Ordering
        requires
            old(self).wf(),
            cmp_ok(old(self).item_cmp(), old(self).left(), old(self).right()),
        ensures
            final(self).wf(),
            final(self).item_cmp() == old(self).item_cmp(),
            item is None <==> old(self).left().len() == 0 && old(self).right().len() == 0,
            match item {
                None => final(self).left() == old(self).left() && final(self).right() == old(
                    self,
                ).right(),
                Some(MergeResult::Left(a)) => {
                    &&& old(self).left().len() > 0
                    &&& a == old(self).left()[0]
                    &&& final(self).left() == old(self).left().drop_first()
                    &&& final(self).right() == old(self).right()
                },
                Some(MergeResult::Right(b)) => {
                    &&& old(self).right().len() > 0
                    &&& b == old(self).right()[0]
                    &&& final(self).left() == old(self).left()
                    &&& final(self).right() == old(self).right().drop_first()
                },
                Some(MergeResult::Both(a, b)) => {
                    &&& old(self).left().len() > 0
                    &&& old(self).right().len() > 0
                    &&& a == old(self).left()[0]
                    &&& b == old(self).right()[0]
                    &&& final(self).left() == old(self).left().drop_first()
                    &&& final(self).right() == old(self).right().drop_first()
                },
            },
            item is Some ==> merged(
                old(self).left(),
                old(self).right(),
                order_of(old(self).item_cmp()),
            ) == seq![item->Some_0] + merged(
                final(self).left(),
                final(self).right(),
                order_of(old(self).item_cmp()),
            ),
            item is Some ==> final(self).left().len() + final(self).right().len() < old(
                self,
            ).left().len() + old(self).right().len(),
            cmp_ok(final(self).item_cmp(), final(self).left(), final(self).right()),
    {
        proof {
            lemma_cmp_ok_gives(self.item_cmp(), self.left(), self.right());
            lemma_cmp_ok_rest(self.item_cmp(), self.left(), self.right());
        }
        self.next_by(Ghost(order_of(self.item_cmp)))
    }

    /// Hands out the next result of the merge by the order `ord`, which
    /// the comparison of the walk gives.
    pub fn next_by(&mut self, Ghost(ord): Ghost<spec_fn(T, T) -> Ordering>) -> (item: Option<
        MergeResult<T>,
    >) where C: Fn(T, T) -> Ordering
        requires
            old(self).wf(),
            cmp_gives(old(self).item_cmp(), ord, old(self).left(), old(self).right()),
        ensures
            final(self).wf(),
            final(self).item_cmp() == old(self).item_cmp(),
            item is None <==> old(self).left().len() == 0 && old(self).right().len() == 0,
            match item {
                None => final(self).left() == old(self).left() && final(self).right() == old(
                    self,
                ).right(),
                Some(MergeResult::Left(a)) => {
                    &&& old(self).left().len() > 0
                    &&& a == old(self).left()[0]
                    &&& final(self).left() == old(self).left().drop_first()
                    &&& final(self).right() == old(self).right()
                },
                Some(MergeResult::Right(b)) => {
                    &&& old(self).right().len() > 0
                    &&& b == old(self).right()[0]
                    &&& final(self).left() == old(self).left()
                    &&& final(self).right() == old(self).right().drop_first()
                },
                Some(MergeResult::Both(a, b)) => {
                    &&& old(self).left().len() > 0
                    &&& old(self).right().len() > 0
                    &&& a == old(self).left()[0]
                    &&& b == old(self).right()[0]
                    &&& final(self).left() == old(self).left().drop_first()
                    &&& final(self).right() == old(self).right().drop_first()
                },
            },
            item is Some ==> merged(old(self).left(), old(self).right(), ord) == seq![
                item->Some_0,
            ] + merged(final(self).left(), final(self).right(), ord),
    {
        proof {
            lemma_rest_ends(self.iter_left@, self.next_left);
            lemma_rest_ends(self.iter_right@, self.next_right);
        }
        let has_left = self.next_left < self.iter_left.len();
        let has_right = self.next_right < self.iter_right.len();
        if has_left && has_right {
            let left = self.iter_left[self.next_left];
            let right = self.iter_right[self.next_right];
            proof {
                lemma_rest_step(self.iter_left@, self.next_left);
                lemma_rest_step(self.iter_right@, self.next_right);
                assert(left == old(self).left()[0]);
                assert(right == old(self).right()[0]);
            }
            let order = (self.item_cmp)(left, right);
            match order {
                Ordering::Equal => {
                    self.next_left += 1;
                    self.next_right += 1;
                    Some(MergeResult::Both(left, right))
                },
                Ordering::Less => {
                    self.next_left += 1;
                    Some(MergeResult::Left(left))
                },
                Ordering::Greater => {
                    self.next_right += 1;
                    Some(MergeResult::Right(right))
                },
            }
        } else if has_left {
            let left = self.iter_left[self.next_left];
            proof {
                lemma_rest_step(self.iter_left@, self.next_left);
            }
            self.next_left += 1;
            Some(MergeResult::Left(left))
        } else if has_right {
            let right = self.iter_right[self.next_right];
            proof {
                lemma_rest_step(self.iter_right@, self.next_right);
            }
            self.next_right += 1;
            Some(MergeResult::Right(right))
        } else {
            None
        }
    }

    /// Hands out all the results that are still to come.
    pub fn collect(self) -> (list: Vec<MergeResult<T>>) where C: Fn(T, T) -> Ordering
        requires
            self.wf(),
            cmp_ok(self.item_cmp(), self.left(), self.right()),
        ensures
            list@ == merged(self.left(), self.right(), order_of(self.item_cmp())),
    {
        proof {
            lemma_cmp_ok_gives(self.item_cmp(), self.left(), self.right());
        }
        let ghost ord = order_of(self.item_cmp());
        self.collect_by(Ghost(ord))
    }

    /// Hands out all the results that are still to come, by the order
    /// `ord`, which the comparison of the walk gives.
    pub fn collect_by(self, Ghost(ord): Ghost<spec_fn(T, T) -> Ordering>) -> (list: Vec<
        MergeResult<T>,
    >) where C: Fn(T, T) -> Ordering
        requires
            self.wf(),
            cmp_gives(self.item_cmp(), ord, self.left(), self.right()),
        ensures
            list@ == merged(self.left(), self.right(), ord),
    {
        let mut iter = self;
        let mut list: Vec<MergeResult<T>> = Vec::new();
        loop
            invariant
                iter.wf(),
                iter.item_cmp() == self.item_cmp(),
                cmp_gives(iter.item_cmp(), ord, iter.left(), iter.right()),
                list@ + merged(iter.left(), iter.right(), ord) == merged(
                    self.left(),
                    self.right(),
                    ord,
                ),
            decreases iter.left().len() + iter.right().len(),
        {
            let ghost before = list@;
            let ghost tail = merged(iter.left(), iter.right(), ord);
            let ghost left = iter.left();
            let ghost right = iter.right();
            match iter.next_by(Ghost(ord)) {
                Some(item) => {
                    list.push(item);
                    proof {
                        let after = merged(iter.left(), iter.right(), ord);
                        assert(before.push(item) + after =~= before + (seq![item] + after));
                        lemma_cmp_gives_rest(iter.item_cmp(), ord, left, right);
                    }
                },
                None => {
                    assert(before + tail =~= before);
                    return list;
                },
            }
        }
    }
}

/// A comparison that can be used on two lists can be used on what is left
/// of them after their first items.
pub proof fn lemma_cmp_ok_rest<T, C: Fn(T, T) -> Ordering>(cmp: C, a: Seq<T>, b: Seq<T>)
    requires
        cmp_ok(cmp, a, b),
    ensures
        a.len() > 0 ==> cmp_ok(cmp, a.drop_first(), b),
        b.len() > 0 ==> cmp_ok(cmp, a, b.drop_first()),
        a.len() > 0 && b.len() > 0 ==> cmp_ok(cmp, a.drop_first(), b.drop_first()),
{
    if a.len() > 0 {
        let a1 = a.drop_first();
        assert forall|i: int, j: int| 0 <= i < a1.len() && 0 <= j < b.len() implies call_requires(
            cmp,
            (#[trigger] a1[i], #[trigger] b[j]),
        ) by {
            assert(a1[i] == a[i + 1]);
        }
    }
    if b.len() > 0 {
        let b1 = b.drop_first();
        assert forall|i: int, j: int| 0 <= i < a.len() && 0 <= j < b1.len() implies call_requires(
            cmp,
            (#[trigger] a[i], #[trigger] b1[j]),
        ) by {
            assert(b1[j] == b[j + 1]);
        }
    }
    if a.len() > 0 && b.len() > 0 {
        let a1 = a.drop_first();
        let b1 = b.drop_first();
        assert forall|i: int, j: int| 0 <= i < a1.len() && 0 <= j < b1.len() implies call_requires(
            cmp,
            (#[trigger] a1[i], #[trigger] b1[j]),
        ) by {
            assert(a1[i] == a[i + 1]);
            assert(b1[j] == b[j + 1]);
        }
    }
}

/// A comparison that is deterministic gives its own order.
pub proof fn lemma_cmp_ok_gives<T, C: Fn(T, T) -> Ordering>(cmp: C, a: Seq<T>, b: Seq<T>)
    requires
        cmp_ok(cmp, a, b),
    ensures
        cmp_gives(cmp, order_of(cmp), a, b),
{
}

/// A comparison that gives an order on two lists gives it on what is left
/// of them after their first items.
pub proof fn lemma_cmp_gives_rest<T, C: Fn(T, T) -> Ordering>(
    cmp: C,
    ord: spec_fn(T, T) -> Ordering,
    a: Seq<T>,
    b: Seq<T>,
)
    requires
        cmp_gives(cmp, ord, a, b),
    ensures
        a.len() > 0 ==> cmp_gives(cmp, ord, a.drop_first(), b),
        b.len() > 0 ==> cmp_gives(cmp, ord, a, b.drop_first()),
        a.len() > 0 && b.len() > 0 ==> cmp_gives(cmp, ord, a.drop_first(), b.drop_first()),
{
    if a.len() > 0 {
        let a1 = a.drop_first();
        assert forall|i: int, j: int| 0 <= i < a1.len() && 0 <= j < b.len() implies call_requires(
            cmp,
            (#[trigger] a1[i], #[trigger] b[j]),
        ) by {
            assert(a1[i] == a[i + 1]);
        }
        assert forall|i: int, j: int, o: Ordering|
            0 <= i < a1.len() && 0 <= j < b.len() && #[trigger] call_ensures(
                cmp,
                (a1[i], b[j]),
                o,
            ) implies o == ord(a1[i], b[j]) by {
            assert(a1[i] == a[i + 1]);
        }
    }
    if b.len() > 0 {
        let b1 = b.drop_first();
        assert forall|i: int, j: int| 0 <= i < a.len() && 0 <= j < b1.len() implies call_requires(
            cmp,
            (#[trigger] a[i], #[trigger] b1[j]),
        ) by {
            assert(b1[j] == b[j + 1]);
        }
        assert forall|i: int, j: int, o: Ordering|
            0 <= i < a.len() && 0 <= j < b1.len() && #[trigger] call_ensures(
                cmp,
                (a[i], b1[j]),
                o,
            ) implies o == ord(a[i], b1[j]) by {
            assert(b1[j] == b[j + 1]);
        }
    }
    if a.len() > 0 && b.len() > 0 {
        let a1 = a.drop_first();
        let b1 = b.drop_first();
        assert forall|i: int, j: int| 0 <= i < a1.len() && 0 <= j < b1.len() implies call_requires(
            cmp,
            (#[trigger] a1[i], #[trigger] b1[j]),
        ) by {
            assert(a1[i] == a[i + 1]);
            assert(b1[j] == b[j + 1]);
        }
        assert forall|i: int, j: int, o: Ordering|
            0 <= i < a1.len() && 0 <= j < b1.len() && #[trigger] call_ensures(
                cmp,
                (a1[i], b1[j]),
                o,
            ) implies o == ord(a1[i], b1[j]) by {
            assert(a1[i] == a[i + 1]);
            assert(b1[j] == b[j + 1]);
        }
    }
}

/// The items of the first list that a merge holds, in their order.
pub open spec fn lefts<T>(list: Seq<MergeResult<T>>) -> Seq<T>
    decreases list.len(),
{
    if list.len() == 0 {
        Seq::empty()
    } else {
        match list[0] {
            MergeResult::Left(a) => seq![a] + lefts(list.drop_first()),
            MergeResult::Both(a, _) => seq![a] + lefts(list.drop_first()),
            MergeResult::Right(_) => lefts(list.drop_first()),
        }
    }
}

/// The items of the second list that a merge holds, in their order.
pub open spec fn rights<T>(list: Seq<MergeResult<T>>) -> Seq<T>
    decreases list.len(),
{
    if list.len() == 0 {
        Seq::empty()
    } else {
        match list[0] {
            MergeResult::Right(b) => seq![b] + rights(list.drop_first()),
            MergeResult::Both(_, b) => seq![b] + rights(list.drop_first()),
            MergeResult::Left(_) => rights(list.drop_first()),
        }
    }
}

/// Whether `cmp` orders items as their keys are ordered.
pub open spec fn keyed<T>(ord: spec_fn(T, T) -> Ordering, key: spec_fn(T) -> int) -> bool {
    forall|x: T, y: T|
        #![trigger ord(x, y)]
        match ord(x, y) {
            Ordering::Less => key(x) < key(y),
            Ordering::Equal => key(x) == key(y),
            Ordering::Greater => key(x) > key(y),
        }
}

/// Whether the keys of `s` grow from item to item, so that no key occurs
/// twice.
pub open spec fn increasing<T>(s: Seq<T>, key: spec_fn(T) -> int) -> bool {
    forall|i: int, j: int| 0 <= i < j < s.len() ==> key(#[trigger] s[i]) < key(#[trigger] s[j])
}

/// The key that a result of a merge stands at.
pub open spec fn key_of<T>(item: MergeResult<T>, key: spec_fn(T) -> int) -> int {
    match item {
        MergeResult::Left(a) => key(a),
        MergeResult::Right(b) => key(b),
        MergeResult::Both(a, _) => key(a),
    }
}

/// Whether a result of the merge of `a` and `b` is of the kind that the
/// keys ask for: a pair has one key, and an item that stands alone has a
/// key that no item of the other list has.
pub open spec fn kind_ok<T>(item: MergeResult<T>, a: Seq<T>, b: Seq<T>, key: spec_fn(T) -> int) -> bool {
    match item {
        MergeResult::Both(x, y) => key(x) == key(y),
        MergeResult::Left(x) => forall|j: int| 0 <= j < b.len() ==> key(#[trigger] b[j]) != key(x),
        MergeResult::Right(y) => forall|i: int| 0 <= i < a.len() ==> key(#[trigger] a[i]) != key(y),
    }
}

/// Every item of either list is in the merge once, alone or in a pair, and
/// in the order of its list.
pub proof fn lemma_merge_holds_each_item_once<T>(
    a: Seq<T>,
    b: Seq<T>,
    cmp: spec_fn(T, T) -> Ordering,
)
    ensures
        lefts(merged(a, b, cmp)) == a,
        rights(merged(a, b, cmp)) == b,
    decreases a.len() + b.len(),
{
    let list = merged(a, b, cmp);
    if a.len() == 0 && b.len() == 0 {
        assert(lefts(list) =~= a);
        assert(rights(list) =~= b);
    } else {
        let tail = list.drop_first();
        if b.len() == 0 || (a.len() != 0 && cmp(a[0], b[0]) == Ordering::Less) {
            lemma_merge_holds_each_item_once(a.drop_first(), b, cmp);
            assert(tail =~= merged(a.drop_first(), b, cmp));
            assert(seq![a[0]] + a.drop_first() =~= a);
        } else if a.len() == 0 || cmp(a[0], b[0]) == Ordering::Greater {
            lemma_merge_holds_each_item_once(a, b.drop_first(), cmp);
            assert(tail =~= merged(a, b.drop_first(), cmp));
            assert(seq![b[0]] + b.drop_first() =~= b);
        } else {
            lemma_merge_holds_each_item_once(a.drop_first(), b.drop_first(), cmp);
            assert(tail =~= merged(a.drop_first(), b.drop_first(), cmp));
            assert(seq![a[0]] + a.drop_first() =~= a);
            assert(seq![b[0]] + b.drop_first() =~= b);
        }
    }
}

/// Where both lists are sorted by keys that occur once in each, and `cmp`
/// orders as the keys do, no result of the merge stands below `low`, a
/// bound that no key is below.
proof fn lemma_merge_keys<T>(
    a: Seq<T>,
    b: Seq<T>,
    cmp: spec_fn(T, T) -> Ordering,
    key: spec_fn(T) -> int,
    low: int,
)
    requires
        keyed(cmp, key),
        increasing(a, key),
        increasing(b, key),
        forall|i: int| 0 <= i < a.len() ==> low <= key(#[trigger] a[i]),
        forall|j: int| 0 <= j < b.len() ==> low <= key(#[trigger] b[j]),
    ensures
        forall|p: int|
            0 <= p < merged(a, b, cmp).len() ==> low <= key_of(#[trigger] merged(a, b, cmp)[p], key),
        forall|p: int, q: int|
            0 <= p < q < merged(a, b, cmp).len() ==> key_of(#[trigger] merged(a, b, cmp)[p], key)
                < key_of(#[trigger] merged(a, b, cmp)[q], key),
        forall|p: int|
            0 <= p < merged(a, b, cmp).len() ==> kind_ok(#[trigger] merged(a, b, cmp)[p], a, b, key),
    decreases a.len() + b.len(),
{
    let list = merged(a, b, cmp);
    if a.len() == 0 && b.len() == 0 {
    } else {
        let take_a = b.len() == 0 || (a.len() != 0 && cmp(a[0], b[0]) != Ordering::Greater);
        let take_b = a.len() == 0 || (b.len() != 0 && cmp(a[0], b[0]) != Ordering::Less);
        let a1 = if take_a {
            a.drop_first()
        } else {
            a
        };
        let b1 = if take_b {
            b.drop_first()
        } else {
            b
        };
        let head = list[0];
        let k = key_of(head, key);
        let tail = merged(a1, b1, cmp);
        assert(list =~= seq![head] + tail);
        assert forall|i: int| 0 <= i < a1.len() implies k + 1 <= key(#[trigger] a1[i]) by {
            if take_a {
                assert(a1[i] == a[i + 1]);
                assert(key(a[0]) < key(a[i + 1]));
            } else {
                assert(key(b[0]) <= key(b[0]));
                assert(key(a[0]) <= key(a[i]) || i == 0);
            }
        }
        assert forall|j: int| 0 <= j < b1.len() implies k + 1 <= key(#[trigger] b1[j]) by {
            if take_b {
                assert(b1[j] == b[j + 1]);
                assert(key(b[0]) < key(b[j + 1]));
            } else {
                assert(key(b[0]) <= key(b[j]) || j == 0);
            }
        }
        assert(increasing(a1, key)) by {
            if take_a {
                assert forall|i: int, j: int| 0 <= i < j < a1.len() implies key(#[trigger] a1[i])
                    < key(#[trigger] a1[j]) by {
                    assert(a1[i] == a[i + 1]);
                    assert(a1[j] == a[j + 1]);
                }
            }
        }
        assert(increasing(b1, key)) by {
            if take_b {
                assert forall|i: int, j: int| 0 <= i < j < b1.len() implies key(#[trigger] b1[i])
                    < key(#[trigger] b1[j]) by {
                    assert(b1[i] == b[i + 1]);
                    assert(b1[j] == b[j + 1]);
                }
            }
        }
        lemma_merge_keys(a1, b1, cmp, key, k + 1);
        assert forall|p: int| 0 <= p < list.len() implies low <= key_of(#[trigger] list[p], key) by {
            if p > 0 {
                assert(list[p] == tail[p - 1]);
            }
        }
        assert forall|p: int, q: int| 0 <= p < q < list.len() implies key_of(
            #[trigger] list[p],
            key,
        ) < key_of(#[trigger] list[q], key) by {
            assert(list[q] == tail[q - 1]);
            if p > 0 {
                assert(list[p] == tail[p - 1]);
            }
        }
        assert forall|p: int| 0 <= p < list.len() implies kind_ok(#[trigger] list[p], a, b, key) by {
            if p > 0 {
                let item = tail[p - 1];
                assert(list[p] == item);
                assert(kind_ok(item, a1, b1, key));
                assert(k + 1 <= key_of(item, key));
                match item {
                    MergeResult::Both(x, y) => {},
                    MergeResult::Left(x) => {
                        assert forall|j: int| 0 <= j < b.len() implies key(#[trigger] b[j]) != key(
                            x,
                        ) by {
                            if take_b {
                                if j > 0 {
                                    assert(b1[j - 1] == b[j]);
                                }
                            }
                        }
                    },
                    MergeResult::Right(y) => {
                        assert forall|i: int| 0 <= i < a.len() implies key(#[trigger] a[i]) != key(
                            y,
                        ) by {
                            if take_a {
                                if i > 0 {
                                    assert(a1[i - 1] == a[i]);
                                }
                            }
                        }
                    },
                }
            } else {
                match head {
                    MergeResult::Both(x, y) => {},
                    MergeResult::Left(x) => {
                        assert forall|j: int| 0 <= j < b.len() implies key(#[trigger] b[j]) != key(
                            x,
                        ) by {
                            assert(k + 1 <= key(b1[j]));
                        }
                    },
                    MergeResult::Right(y) => {
                        assert forall|i: int| 0 <= i < a.len() implies key(#[trigger] a[i]) != key(
                            y,
                        ) by {
                            assert(k + 1 <= key(a1[i]));
                        }
                    },
                }
            }
        }
    }
}

/// The merge of two lists that are sorted by keys that occur once in each
/// is sorted by key; each key stands in it once; two items are paired where
/// they have the same key, and an item stands alone where no item of the
/// other list has its key.
pub proof fn lemma_merge_in_key_order<T>(
    a: Seq<T>,
    b: Seq<T>,
    cmp: spec_fn(T, T) -> Ordering,
    key: spec_fn(T) -> int,
)
    requires
        keyed(cmp, key),
        increasing(a, key),
        increasing(b, key),
    ensures
        forall|p: int, q: int|
            0 <= p < q < merged(a, b, cmp).len() ==> key_of(#[trigger] merged(a, b, cmp)[p], key)
                < key_of(#[trigger] merged(a, b, cmp)[q], key),
        forall|p: int|
            0 <= p < merged(a, b, cmp).len() ==> kind_ok(#[trigger] merged(a, b, cmp)[p], a, b, key),
        lefts(merged(a, b, cmp)) == a,
        rights(merged(a, b, cmp)) == b,
{
    lemma_merge_holds_each_item_once(a, b, cmp);
    if a.len() == 0 && b.len() == 0 {
    } else {
        let low = if a.len() > 0 && b.len() > 0 {
            if key(a[0]) <= key(b[0]) {
                key(a[0])
            } else {
                key(b[0])
            }
        } else if a.len() > 0 {
            key(a[0])
        } else {
            key(b[0])
        };
        assert forall|i: int| 0 <= i < a.len() implies low <= key(#[trigger] a[i]) by {
            assert(i == 0 || key(a[0]) < key(a[i]));
        }
        assert forall|j: int| 0 <= j < b.len() implies low <= key(#[trigger] b[j]) by {
            assert(j == 0 || key(b[0]) < key(b[j]));
        }
        lemma_merge_keys(a, b, cmp, key, low);
    }
}

} // verus!
