//! What an entry has to offer to be printed and compared, and the printing
//! and comparing of lists of entries.
use std::cmp::Ordering;
use vstd::prelude::*;
use vstd::string::StringSliceAdditionalSpecFns;
use crate::file::FileHash;
use crate::merge::{merged, MergeIterator, MergeResult};
use crate::sort::{sort_by, sorted};
use crate::path::{
    align, best, costs_given, is_script, lemma_tail_sum_bounds, lemma_tail_sum_nonneg, pos_a, pos_b,
    script_cost, tail_sum, Costs, Direction,
};
use crate::print::{
    diffed, lemma_diffed_and, line_option_out, pair_out, printed, Cursor, Cursor2, DiffPrefix,
    DiffState, Out, Out2, PrintState,
};
use crate::seqs::{at, group_bytes, upto};
use crate::text::put_str;
use crate::{Error, Flags};

verus! {

/// The choices that a comparison makes where it aligns lists: the script
/// that it aligns a list by, and the choices that it makes within the
/// entries that it compares.
pub struct Choice {
    pub script: Seq<Direction>,
    pub subs: Seq<Choice>,
}

/// Printing the first `n` of a list of items, one after the other.
pub open spec fn fold_out(n: int, item: spec_fn(int) -> Out) -> Out
    decreases n,
{
    if n <= 0 {
        Out::nothing()
    } else {
        fold_out(n - 1, item).and(item(n - 1))
    }
}

/// Comparing the first `n` of a list of items, one after the other.
pub open spec fn fold_out2(n: int, item: spec_fn(int) -> Out2) -> Out2
    decreases n,
{
    if n <= 0 {
        Out2::nothing()
    } else {
        fold_out2(n - 1, item).and(item(n - 1))
    }
}

/// What printing the first `n` items does depends on these items alone.
pub proof fn lemma_fold_out_same(n: int, item1: spec_fn(int) -> Out, item2: spec_fn(int) -> Out)
    requires
        forall|k: int| 0 <= k < n ==> #[trigger] item1(k) == item2(k),
    ensures
        fold_out(n, item1) == fold_out(n, item2),
    decreases n,
{
    if n > 0 {
        lemma_fold_out_same(n - 1, item1, item2);
    }
}

/// What comparing the first `n` items does depends on these items alone.
pub proof fn lemma_fold_out2_same(n: int, item1: spec_fn(int) -> Out2, item2: spec_fn(int) -> Out2)
    requires
        forall|k: int| 0 <= k < n ==> #[trigger] item1(k) == item2(k),
    ensures
        fold_out2(n, item1) == fold_out2(n, item2),
    decreases n,
{
    if n > 0 {
        lemma_fold_out2_same(n - 1, item1, item2);
    }
}

/// Printing items none of which fails does not fail.
pub proof fn lemma_fold_out_ok(n: int, item: spec_fn(int) -> Out)
    requires
        forall|k: int| 0 <= k < n ==> !(#[trigger] item(k)).failed,
    ensures
        !fold_out(n, item).failed,
    decreases n,
{
    if n > 0 {
        lemma_fold_out_ok(n - 1, item);
    }
}

/// Once printing has failed, it stays failed.
pub proof fn lemma_fold_out_failed(n: int, m: int, item: spec_fn(int) -> Out)
    requires
        n <= m,
        fold_out(n, item).failed,
    ensures
        fold_out(m, item).failed,
    decreases m - n,
{
    if n < m {
        lemma_fold_out_failed(n, m - 1, item);
    }
}

/// Once comparing has failed, it stays failed, and the choices that come
/// after do not matter.
pub proof fn lemma_fold_out2_failed(n: int, m: int, item: spec_fn(int) -> Out2)
    requires
        n <= m,
        fold_out2(n, item).failed,
    ensures
        fold_out2(m, item).failed,
        fold_out2(m, item).valid == fold_out2(n, item).valid,
    decreases m - n,
{
    if n < m {
        lemma_fold_out2_failed(n, m - 1, item);
    }
}

/// The costs of aligning a list of `n` items with one of `m`.
pub open spec fn list_costs(
    n: nat,
    m: nat,
    step_a: spec_fn(int) -> nat,
    step_b: spec_fn(int) -> nat,
    pair: spec_fn(int, int) -> nat,
) -> Costs {
    Costs {
        step_a: Seq::new(n, step_a),
        step_b: Seq::new(m, step_b),
        pair: Seq::new(n, |i: int| Seq::new(m, |j: int| pair(i, j))),
    }
}

/// Whether `script` is a least-cost script for the costs `c`.
pub open spec fn optimal(c: Costs, script: Seq<Direction>) -> bool {
    is_script(c, script) && script_cost(c, script) == best(c, 0, 0)
}

/// Whether a comparison that makes valid choices took the state `s0` and
/// the output `w0` to `s1` and `w1` as `out` says.
pub open spec fn chosen(
    out: Out2,
    s0: DiffState,
    w0: Seq<u8>,
    s1: DiffState,
    w1: Seq<u8>,
    ok: bool,
) -> bool {
    out.valid && diffed(s0, w0, s1, w1, ok, out)
}

/// An entry that can be printed, and compared with another of its kind.
pub trait Print: Sized {
    /// What the entry is printed within.
    type Arg;

    /// What printing the entry at a cursor does.
    spec fn print_out(&self, cx: Cursor, hash: &FileHash, options: &Flags, arg: &Self::Arg) -> Out;

    /// Prints the entry.
    fn print(&self, w: &mut Vec<u8>, state: &mut PrintState, arg: &Self::Arg) -> (r: Result<
        (),
        Error,
    >)
        ensures
            printed(
                *old(state),
                old(w)@,
                *final(state),
                final(w)@,
                r is Ok,
                self.print_out(old(state).cursor(), old(state).hash, old(state).options, arg),
            ),
    ;

    /// What comparing two entries at the cursors of their files does, with
    /// the choices `choice`.
    spec fn diff_out(
        cx: Cursor2,
        hash_a: &FileHash,
        hash_b: &FileHash,
        options: &Flags,
        arg_a: &Self::Arg,
        a: &Self,
        arg_b: &Self::Arg,
        b: &Self,
        choice: Choice,
    ) -> Out2;

    /// Compares two entries.
    fn diff(
        w: &mut Vec<u8>,
        state: &mut DiffState,
        arg_a: &Self::Arg,
        a: &Self,
        arg_b: &Self::Arg,
        b: &Self,
    ) -> (r: Result<(), Error>)
        requires
            old(state).wf(),
        ensures
            exists|choice: Choice|
                chosen(
                    #[trigger] Self::diff_out(
                        old(state).cursor(),
                        old(state).a.hash,
                        old(state).b.hash,
                        old(state).options,
                        arg_a,
                        a,
                        arg_b,
                        b,
                        choice,
                    ),
                    *old(state),
                    old(w)@,
                    *final(state),
                    final(w)@,
                    r is Ok,
                ),
    ;
}

/// An entry of a list whose order matters: two such lists are aligned.
pub trait DiffList: Print {
    /// The cost of taking the entry alone. It is more than 0.
    spec fn step(&self, hash: &FileHash, arg: &Self::Arg) -> nat;

    fn step_cost(&self, hash: &FileHash, arg: &Self::Arg) -> (cost: usize)
        ensures
            cost == self.step(hash, arg),
    ;

    /// The cost of pairing two entries: 0 for entries that are printed
    /// alike, twice the step cost for entries that have nothing in common.
    spec fn pair(
        hash_a: &FileHash,
        arg_a: &Self::Arg,
        a: &Self,
        hash_b: &FileHash,
        arg_b: &Self::Arg,
        b: &Self,
    ) -> nat;

    fn diff_cost(
        hash_a: &FileHash,
        arg_a: &Self::Arg,
        a: &Self,
        hash_b: &FileHash,
        arg_b: &Self::Arg,
        b: &Self,
    ) -> (cost: usize)
        ensures
            cost == Self::pair(hash_a, arg_a, a, hash_b, arg_b, b),
    ;
}

/// An entry that is found by its identity: two lists of such entries are
/// merged.
pub trait SortList: Print {
    /// The order of two entries by identity. Two entries that are in the
    /// order `Equal` are the same entry, in two files.
    spec fn id_order(
        hash_a: &FileHash,
        a: &Self,
        hash_b: &FileHash,
        b: &Self,
        options: &Flags,
    ) -> Ordering;

    fn cmp_id(hash_a: &FileHash, a: &Self, hash_b: &FileHash, b: &Self, options: &Flags) -> (o:
        Ordering)
        ensures
            o == Self::id_order(hash_a, a, hash_b, b, options),
    ;

    /// The order in which the entries of a file are put before two files
    /// are merged.
    spec fn sort_order(
        hash_a: &FileHash,
        a: &Self,
        hash_b: &FileHash,
        b: &Self,
        options: &Flags,
    ) -> Ordering;

    fn cmp_id_for_sort(
        hash_a: &FileHash,
        a: &Self,
        hash_b: &FileHash,
        b: &Self,
        options: &Flags,
    ) -> (o: Ordering)
        ensures
            o == Self::sort_order(hash_a, a, hash_b, b, options),
    ;

    /// The order in which entries are printed.
    spec fn display_order(
        hash_a: &FileHash,
        a: &Self,
        hash_b: &FileHash,
        b: &Self,
        options: &Flags,
    ) -> Ordering;

    fn cmp_by(hash_a: &FileHash, a: &Self, hash_b: &FileHash, b: &Self, options: &Flags) -> (o:
        Ordering)
        ensures
            o == Self::display_order(hash_a, a, hash_b, b, options),
    ;
}

/// The line that a list begins with: the label of the list, where the list
/// has any items.
pub open spec fn label_text(label: &str, len: nat) -> Seq<u8> {
    if len > 0 {
        label.spec_bytes() + ":".spec_bytes()
    } else {
        Seq::empty()
    }
}

/// Gives the line that a list begins with.
pub fn list_label(label: &str, len: usize) -> (text: Vec<u8>)
    ensures
        text@ == label_text(label, len as nat),
{
    broadcast use group_bytes;

    let mut text: Vec<u8> = Vec::new();
    if len > 0 {
        put_str(&mut text, label);
        put_str(&mut text, ":");
    }
    text
}

/// Printing a list: its label, where it has one, and its items one level
/// further in. An empty list is not printed.
pub open spec fn list_out<T: Print>(
    cx: Cursor,
    hash: &FileHash,
    options: &Flags,
    label: &str,
    arg: &T::Arg,
    list: Seq<T>,
) -> Out {
    if list.len() == 0 {
        Out::nothing()
    } else {
        line_option_out(
            cx,
            if label.spec_bytes().len() > 0 {
                label_text(label, list.len())
            } else {
                Seq::empty()
            },
        ).and(
            fold_out(
                list.len() as int,
                |k: int| list[k].print_out(cx.deeper(), hash, options, arg),
            ),
        )
    }
}

impl<'a> PrintState<'a> {
    /// Prints a list: its label, where it has one, and its items one level
    /// further in. An empty list is not printed.
    pub fn list<T: Print>(&mut self, label: &str, w: &mut Vec<u8>, arg: &T::Arg, list: &[T]) -> (r:
        Result<(), Error>)
        ensures
            printed(
                *old(self),
                old(w)@,
                *final(self),
                final(w)@,
                r is Ok,
                list_out::<T>(old(self).cursor(), old(self).hash, old(self).options, label, arg, list@),
            ),
    {
        broadcast use group_bytes;

        if list.len() == 0 {
            return Ok(());
        }
        if label.as_bytes().len() != 0 {
            let text = list_label(label, list.len());
            self.line(w, text.as_slice());
        }
        let ghost s1 = *self;
        let ghost w1 = w@;
        let ghost item = |k: int|
            list@[k].print_out(old(self).cursor().deeper(), old(self).hash, old(self).options, arg);
        let before = self.indent_begin();
        let mut i: usize = 0;
        let mut result: Result<(), Error> = Ok(());
        while i < list.len() && result.is_ok()
            invariant
                i <= list@.len(),
                self.cursor() == old(self).cursor().deeper(),
                self.file == old(self).file,
                self.hash == old(self).hash,
                self.options == old(self).options,
                item == (|k: int|
                    list@[k].print_out(
                        old(self).cursor().deeper(),
                        old(self).hash,
                        old(self).options,
                        arg,
                    )),
                result is Ok == !fold_out(i as int, item).failed,
                result is Ok ==> w@ == w1 + fold_out(i as int, item).bytes,
                result is Ok ==> self.diff == (s1.diff || fold_out(i as int, item).changed),
            decreases list@.len() - i + (if result is Ok { 1int } else { 0int }),
        {
            result = list[i].print(w, self, arg);
            i += 1;
        }
        proof {
            if result is Err {
                lemma_fold_out_failed(i as int, list@.len() as int, item);
            }
        }
        self.indent_end(before);
        result
    }
}


/// Whether each step of a script finds the items that it takes in lists of
/// `n` and `m` items.
pub open spec fn steps_in_range(script: Seq<Direction>, n: int, m: int) -> bool {
    forall|k: int|
        0 <= k < script.len() ==> {
            &&& (#[trigger] script[k] == Direction::Diagonal || script[k] == Direction::Horizontal
                ==> 0 <= pos_a(script, k) < n)
            &&& (script[k] == Direction::Diagonal || script[k] == Direction::Vertical ==> 0
                <= pos_b(script, k) < m)
        }
}

/// The steps of a script for two lists find their items in the lists.
pub proof fn lemma_steps_in_range(c: Costs, script: Seq<Direction>)
    requires
        is_script(c, script),
    ensures
        steps_in_range(script, c.step_a.len() as int, c.step_b.len() as int),
{
    assert forall|k: int| 0 <= k < script.len() implies {
        &&& (#[trigger] script[k] == Direction::Diagonal || script[k] == Direction::Horizontal ==> 0
            <= pos_a(script, k) < c.step_a.len())
        &&& (script[k] == Direction::Diagonal || script[k] == Direction::Vertical ==> 0 <= pos_b(
            script,
            k,
        ) < c.step_b.len())
    } by {
        assert(crate::path::move_ok(c, script[k], pos_a(script, k), pos_b(script, k)));
    }
}

/// The costs of aligning two lists of entries.
pub open spec fn costs_for<T: DiffList>(
    hash_a: &FileHash,
    arg_a: &T::Arg,
    list_a: Seq<T>,
    hash_b: &FileHash,
    arg_b: &T::Arg,
    list_b: Seq<T>,
) -> Costs {
    list_costs(
        list_a.len(),
        list_b.len(),
        |i: int| list_a[i].step(hash_a, arg_a),
        |j: int| list_b[j].step(hash_b, arg_b),
        |i: int, j: int| T::pair(hash_a, arg_a, &list_a[i], hash_b, arg_b, &list_b[j]),
    )
}

/// One step of comparing two lists of entries: the entries at `i` and `j`
/// compared, or one of them printed as removed or as added.
pub open spec fn entry_move_out<T: DiffList>(
    cx: Cursor2,
    hash_a: &FileHash,
    hash_b: &FileHash,
    options: &Flags,
    arg_a: &T::Arg,
    list_a: Seq<T>,
    arg_b: &T::Arg,
    list_b: Seq<T>,
    step: Direction,
    i: int,
    j: int,
    sub: Choice,
) -> Out2 {
    match step {
        Direction::Diagonal => T::diff_out(
            cx,
            hash_a,
            hash_b,
            options,
            arg_a,
            &list_a[i],
            arg_b,
            &list_b[j],
            sub,
        ),
        Direction::Horizontal => Out2::on_a(
            list_a[i].print_out(cx.a.marked(DiffPrefix::Less), hash_a, options, arg_a),
        ),
        Direction::Vertical => Out2::on_b(
            list_b[j].print_out(cx.b.marked(DiffPrefix::Greater), hash_b, options, arg_b),
        ),
        Direction::Start => Out2::nothing(),
    }
}

/// The `k`th step of comparing two lists of entries by a script.
pub open spec fn entry_step_out<T: DiffList>(
    cx: Cursor2,
    hash_a: &FileHash,
    hash_b: &FileHash,
    options: &Flags,
    arg_a: &T::Arg,
    list_a: Seq<T>,
    arg_b: &T::Arg,
    list_b: Seq<T>,
    script: Seq<Direction>,
    subs: Seq<Choice>,
    k: int,
) -> Out2 {
    entry_move_out::<T>(
        cx,
        hash_a,
        hash_b,
        options,
        arg_a,
        list_a,
        arg_b,
        list_b,
        script[k],
        pos_a(script, k),
        pos_b(script, k),
        subs[k],
    )
}

/// Comparing two lists of entries by a least-cost script: two entries that
/// the script pairs are compared, an entry that it takes alone is printed
/// as removed or as added. Lists too long to be aligned are not compared.
pub open spec fn aligned_out<T: DiffList>(
    cx: Cursor2,
    hash_a: &FileHash,
    hash_b: &FileHash,
    options: &Flags,
    arg_a: &T::Arg,
    list_a: Seq<T>,
    arg_b: &T::Arg,
    list_b: Seq<T>,
    choice: Choice,
) -> Out2 {
    let c = costs_for::<T>(hash_a, arg_a, list_a, hash_b, arg_b, list_b);
    if !c.fits() {
        Out2::failure()
    } else {
        let body = fold_out2(
            choice.script.len() as int,
            |k: int|
                entry_step_out::<T>(
                    cx,
                    hash_a,
                    hash_b,
                    options,
                    arg_a,
                    list_a,
                    arg_b,
                    list_b,
                    choice.script,
                    choice.subs,
                    k,
                ),
        );
        Out2 { valid: optimal(c, choice.script) && body.valid, ..body }
    }
}

/// Comparing two lists of entries whose order matters: the label of the
/// lists, where they have one, and one level further in the entries, as a
/// least-cost script aligns them. Two empty lists are not compared.
pub open spec fn diff_list_out<T: DiffList>(
    cx: Cursor2,
    hash_a: &FileHash,
    hash_b: &FileHash,
    options: &Flags,
    label: &str,
    arg_a: &T::Arg,
    list_a: Seq<T>,
    arg_b: &T::Arg,
    list_b: Seq<T>,
    choice: Choice,
) -> Out2 {
    if list_a.len() == 0 && list_b.len() == 0 {
        Out2::nothing()
    } else {
        (if label.spec_bytes().len() > 0 {
            pair_out(cx, label_text(label, list_a.len()), label_text(label, list_b.len()))
        } else {
            Out2::nothing()
        }).and(
            aligned_out::<T>(
                cx.deeper(),
                hash_a,
                hash_b,
                options,
                arg_a,
                list_a,
                arg_b,
                list_b,
                choice,
            ),
        )
    }
}

/// The step costs of a list of entries, and their sum where it is a number.
fn step_costs<T: DiffList>(hash: &FileHash, arg: &T::Arg, list: &[T]) -> (r: (Vec<usize>, Option<usize>))
    ensures
        r.0@.len() == list@.len(),
        forall|i: int| 0 <= i < list@.len() ==> r.0@[i] == (#[trigger] list@[i]).step(hash, arg),
        match r.1 {
            Some(total) => total == tail_sum(
                Seq::new(list@.len(), |i: int| list@[i].step(hash, arg)),
                0,
            ),
            None => tail_sum(Seq::new(list@.len(), |i: int| list@[i].step(hash, arg)), 0)
                > usize::MAX,
        },
{
    let ghost steps = Seq::new(list@.len(), |i: int| list@[i].step(hash, arg));
    let mut costs: Vec<usize> = Vec::new();
    let mut i: usize = 0;
    while i < list.len()
        invariant
            i <= list@.len(),
            costs@.len() == i,
            forall|k: int| 0 <= k < i ==> costs@[k] == (#[trigger] list@[k]).step(hash, arg),
        decreases list@.len() - i,
    {
        costs.push(list[i].step_cost(hash, arg));
        i += 1;
    }
    let mut total: Option<usize> = Some(0);
    let mut j: usize = list.len();
    while j > 0
        invariant
            j <= list@.len(),
            costs@.len() == list@.len(),
            steps == Seq::new(list@.len(), |i: int| list@[i].step(hash, arg)),
            forall|k: int| 0 <= k < list@.len() ==> costs@[k] == (#[trigger] list@[k]).step(hash, arg),
            match total {
                Some(total) => total == tail_sum(steps, j as int),
                None => tail_sum(steps, 0) > usize::MAX,
            },
        decreases j,
    {
        j -= 1;
        proof {
            lemma_tail_sum_bounds(steps, j as int);
            lemma_tail_sum_nonneg(steps, j + 1);
            assert(steps[j as int] == list@[j as int].step(hash, arg));
        }
        total = match total {
            Some(total) => total.checked_add(costs[j]),
            None => None,
        };
    }
    (costs, total)
}

/// Whether two lists with these lengths and these sums of step costs can
/// be aligned.
pub fn lists_fit(n: usize, m: usize, total_a: Option<usize>, total_b: Option<usize>) -> (fit: bool)
    ensures
        fit == ((n + 1) * (m + 1) <= usize::MAX && match (total_a, total_b) {
            (Some(a), Some(b)) => 2 * (a + b) < usize::MAX,
            _ => false,
        }),
{
    let cells = match (n.checked_add(1), m.checked_add(1)) {
        (Some(n1), Some(m1)) => n1.checked_mul(m1),
        _ => None,
    };
    proof {
        if n == usize::MAX || m == usize::MAX {
            assert((n + 1) * (m + 1) > usize::MAX) by (nonlinear_arith)
                requires
                    n >= 0,
                    m >= 0,
                    n == usize::MAX || m == usize::MAX,
            ;
        }
    }
    if cells.is_none() {
        return false;
    }
    match (total_a, total_b) {
        (Some(a), Some(b)) => match a.checked_add(b) {
            Some(total) => match total.checked_mul(2) {
                Some(twice) => twice < usize::MAX,
                None => false,
            },
            None => false,
        },
        _ => false,
    }
}

impl<'a> DiffState<'a> {
    /// Compares two lists of entries whose order matters: prints the label
    /// of the lists, where they have one, and one level further in the
    /// entries, as a least-cost script aligns them. Two entries that the
    /// script pairs are compared; an entry that it takes alone is printed
    /// as removed or as added.
    pub fn list<T: DiffList>(
        &mut self,
        label: &str,
        w: &mut Vec<u8>,
        arg_a: &T::Arg,
        list_a: &[T],
        arg_b: &T::Arg,
        list_b: &[T],
    ) -> (r: Result<(), Error>)
        requires
            old(self).wf(),
        ensures
            exists|choice: Choice|
                chosen(
                    #[trigger] diff_list_out::<T>(
                        old(self).cursor(),
                        old(self).a.hash,
                        old(self).b.hash,
                        old(self).options,
                        label,
                        arg_a,
                        list_a@,
                        arg_b,
                        list_b@,
                        choice,
                    ),
                    *old(self),
                    old(w)@,
                    *final(self),
                    final(w)@,
                    r is Ok,
                ),
    {
        broadcast use group_bytes;

        let ghost cx = self.cursor();
        let ghost hash_a = self.a.hash;
        let ghost hash_b = self.b.hash;
        let ghost options = self.options;
        if list_a.len() == 0 && list_b.len() == 0 {
            proof {
                let choice = Choice { script: Seq::empty(), subs: Seq::empty() };
                assert(chosen(
                    diff_list_out::<T>(
                        cx,
                        hash_a,
                        hash_b,
                        options,
                        label,
                        arg_a,
                        list_a@,
                        arg_b,
                        list_b@,
                        choice,
                    ),
                    *old(self),
                    old(w)@,
                    *self,
                    w@,
                    true,
                ));
            }
            return Ok(());
        }
        if label.as_bytes().len() != 0 {
            let text_a = list_label(label, list_a.len());
            let text_b = list_label(label, list_b.len());
            self.line(w, text_a.as_slice(), text_b.as_slice());
        }
        let ghost s1 = *self;
        let ghost w1 = w@;
        let before = self.indent_begin();
        let ghost s2 = *self;
        let r = self.aligned::<T>(w, arg_a, list_a, arg_b, list_b);
        let ghost s3 = *self;
        self.indent_end(before);
        proof {
            let choice = choose|choice: Choice|
                chosen(
                    #[trigger] aligned_out::<T>(
                        cx.deeper(),
                        hash_a,
                        hash_b,
                        options,
                        arg_a,
                        list_a@,
                        arg_b,
                        list_b@,
                        choice,
                    ),
                    s2,
                    w1,
                    s3,
                    w@,
                    r is Ok,
                );
            let body = aligned_out::<T>(
                cx.deeper(),
                hash_a,
                hash_b,
                options,
                arg_a,
                list_a@,
                arg_b,
                list_b@,
                choice,
            );
            let head = if label.spec_bytes().len() > 0 {
                pair_out(cx, label_text(label, list_a@.len()), label_text(label, list_b@.len()))
            } else {
                Out2::nothing()
            };
            assert(diffed(*old(self), old(w)@, s1, w1, true, head));
            assert(diffed(s1, w1, *self, w@, r is Ok, body));
            lemma_diffed_and(*old(self), old(w)@, s1, w1, *self, w@, r is Ok, head, body);
            assert(chosen(
                diff_list_out::<T>(
                    cx,
                    hash_a,
                    hash_b,
                    options,
                    label,
                    arg_a,
                    list_a@,
                    arg_b,
                    list_b@,
                    choice,
                ),
                *old(self),
                old(w)@,
                *self,
                w@,
                r is Ok,
            ));
        }
        r
    }

    /// Takes one step of comparing two lists of entries: compares the
    /// entries at `ia` and `ib`, or prints one of them as removed or as
    /// added.
    fn entry_move<T: DiffList>(
        &mut self,
        w: &mut Vec<u8>,
        arg_a: &T::Arg,
        list_a: &[T],
        arg_b: &T::Arg,
        list_b: &[T],
        step: Direction,
        ia: usize,
        ib: usize,
    ) -> (r: (Result<(), Error>, Ghost<Choice>))
        requires
            old(self).wf(),
            step == Direction::Diagonal || step == Direction::Horizontal ==> ia < list_a@.len(),
            step == Direction::Diagonal || step == Direction::Vertical ==> ib < list_b@.len(),
        ensures
            chosen(
                entry_move_out::<T>(
                    old(self).cursor(),
                    old(self).a.hash,
                    old(self).b.hash,
                    old(self).options,
                    arg_a,
                    list_a@,
                    arg_b,
                    list_b@,
                    step,
                    ia as int,
                    ib as int,
                    r.1@,
                ),
                *old(self),
                old(w)@,
                *final(self),
                final(w)@,
                r.0 is Ok,
            ),
    {
        broadcast use group_bytes;

        let ghost mut sub = Choice { script: Seq::empty(), subs: Seq::empty() };
        let result = match step {
            Direction::Start => Ok(()),
            Direction::Diagonal => {
                let ghost s0 = *self;
                let ghost w0 = w@;
                let result = T::diff(w, self, arg_a, &list_a[ia], arg_b, &list_b[ib]);
                proof {
                    sub = choose|sub: Choice|
                        chosen(
                            #[trigger] T::diff_out(
                                s0.cursor(),
                                s0.a.hash,
                                s0.b.hash,
                                s0.options,
                                arg_a,
                                &list_a@[ia as int],
                                arg_b,
                                &list_b@[ib as int],
                                sub,
                            ),
                            s0,
                            w0,
                            *self,
                            w@,
                            result is Ok,
                        );
                }
                result
            },
            Direction::Horizontal => {
                let before = self.a.prefix_begin(DiffPrefix::Less);
                let result = list_a[ia].print(w, &mut self.a, arg_a);
                self.a.prefix_end(before);
                result
            },
            Direction::Vertical => {
                let before = self.b.prefix_begin(DiffPrefix::Greater);
                let result = list_b[ib].print(w, &mut self.b, arg_b);
                self.b.prefix_end(before);
                result
            },
        };
        (result, Ghost(sub))
    }

    /// Compares two lists of entries by a least-cost script.
    pub fn aligned<T: DiffList>(
        &mut self,
        w: &mut Vec<u8>,
        arg_a: &T::Arg,
        list_a: &[T],
        arg_b: &T::Arg,
        list_b: &[T],
    ) -> (r: Result<(), Error>)
        requires
            old(self).wf(),
        ensures
            exists|choice: Choice|
                chosen(
                    #[trigger] aligned_out::<T>(
                        old(self).cursor(),
                        old(self).a.hash,
                        old(self).b.hash,
                        old(self).options,
                        arg_a,
                        list_a@,
                        arg_b,
                        list_b@,
                        choice,
                    ),
                    *old(self),
                    old(w)@,
                    *final(self),
                    final(w)@,
                    r is Ok,
                ),
    {
        broadcast use group_bytes;

        let hash_a = self.a.hash;
        let hash_b = self.b.hash;
        let ghost cx = self.cursor();
        let ghost options = self.options;
        let ghost c = costs_for::<T>(hash_a, arg_a, list_a@, hash_b, arg_b, list_b@);
        let (step1, total_a) = step_costs::<T>(hash_a, arg_a, list_a);
        let (step2, total_b) = step_costs::<T>(hash_b, arg_b, list_b);
        proof {
            assert(c.step_a =~= Seq::new(list_a@.len(), |i: int| list_a@[i].step(hash_a, arg_a)));
            assert(c.step_b =~= Seq::new(list_b@.len(), |i: int| list_b@[i].step(hash_b, arg_b)));
        }
        if !lists_fit(list_a.len(), list_b.len(), total_a, total_b) {
            proof {
                let choice = Choice { script: Seq::empty(), subs: Seq::empty() };
                assert(chosen(
                    aligned_out::<T>(
                        cx,
                        hash_a,
                        hash_b,
                        options,
                        arg_a,
                        list_a@,
                        arg_b,
                        list_b@,
                        choice,
                    ),
                    *old(self),
                    old(w)@,
                    *self,
                    w@,
                    false,
                ));
            }
            return Err(Error::new("too many entries to compare"));
        }
        let pair = |a: &T, b: &T| -> (cost: usize)
            ensures
                cost == T::pair(hash_a, arg_a, a, hash_b, arg_b, b),
            { T::diff_cost(hash_a, arg_a, a, hash_b, arg_b, b) };
        let path = align(list_a, list_b, step1.as_slice(), step2.as_slice(), pair, Ghost(c));
        let ghost script = path@;
        let ghost mut subs: Seq<Choice> = Seq::empty();
        proof {
            lemma_steps_in_range(c, script);
        }
        let mut ia: usize = 0;
        let mut ib: usize = 0;
        let mut k: usize = 0;
        let mut result: Result<(), Error> = Ok(());
        let n = list_a.len();
        let m = list_b.len();
        while k < path.len() && result.is_ok()
            invariant
                n == list_a@.len(),
                m == list_b@.len(),
                k <= script.len(),
                script == path@,
                steps_in_range(script, list_a@.len() as int, list_b@.len() as int),
                ia == pos_a(script, k as int),
                ib == pos_b(script, k as int),
                subs.len() == k,
                old(self).wf(),
                hash_a == old(self).a.hash,
                hash_b == old(self).b.hash,
                options == old(self).options,
                cx == old(self).cursor(),
                fold_out2(
                    k as int,
                    |t: int|
                        entry_step_out::<T>(
                            cx,
                            hash_a,
                            hash_b,
                            options,
                            arg_a,
                            list_a@,
                            arg_b,
                            list_b@,
                            script,
                            subs,
                            t,
                        ),
                ).valid,
                diffed(
                    *old(self),
                    old(w)@,
                    *self,
                    w@,
                    result is Ok,
                    fold_out2(
                        k as int,
                        |t: int|
                            entry_step_out::<T>(
                                cx,
                                hash_a,
                                hash_b,
                                options,
                                arg_a,
                                list_a@,
                                arg_b,
                                list_b@,
                                script,
                                subs,
                                t,
                            ),
                    ),
                ),
            decreases script.len() - k + (if result is Ok { 1int } else { 0int }),
        {
            let ghost s_k = *self;
            let ghost w_k = w@;
            let ghost subs_k = subs;
            let ghost steps_k = |t: int|
                entry_step_out::<T>(
                    cx,
                    hash_a,
                    hash_b,
                    options,
                    arg_a,
                    list_a@,
                    arg_b,
                    list_b@,
                    script,
                    subs_k,
                    t,
                );
            proof {
                assert(pos_a(script, k + 1) == pos_a(script, k as int) + crate::path::takes_a(
                    script[k as int],
                ));
                assert(pos_b(script, k + 1) == pos_b(script, k as int) + crate::path::takes_b(
                    script[k as int],
                ));
            }
            let step = path[k];
            let (moved, chose) = self.entry_move::<T>(w, arg_a, list_a, arg_b, list_b, step, ia, ib);
            result = moved;
            let ghost sub = chose@;
            match step {
                Direction::Start => {},
                Direction::Diagonal => {
                    ia += 1;
                    ib += 1;
                },
                Direction::Horizontal => {
                    ia += 1;
                },
                Direction::Vertical => {
                    ib += 1;
                },
            }
            proof {
                subs = subs_k.push(sub);
                let steps = |t: int|
                    entry_step_out::<T>(
                        cx,
                        hash_a,
                        hash_b,
                        options,
                        arg_a,
                        list_a@,
                        arg_b,
                        list_b@,
                        script,
                        subs,
                        t,
                    );
                assert forall|t: int| 0 <= t < k implies #[trigger] steps_k(t) == steps(t) by {
                    assert(subs[t] == subs_k[t]);
                }
                lemma_fold_out2_same(k as int, steps_k, steps);
                let step = steps(k as int);
                assert(subs[k as int] == sub);
                assert(diffed(s_k, w_k, *self, w@, result is Ok, step));
                assert(step.valid);
                lemma_diffed_and(
                    *old(self),
                    old(w)@,
                    s_k,
                    w_k,
                    *self,
                    w@,
                    result is Ok,
                    fold_out2(k as int, steps),
                    step,
                );
            }
            k += 1;
        }
        proof {
            let choice = Choice { script, subs };
            let steps = |t: int|
                entry_step_out::<T>(
                    cx,
                    hash_a,
                    hash_b,
                    options,
                    arg_a,
                    list_a@,
                    arg_b,
                    list_b@,
                    script,
                    subs,
                    t,
                );
            if result is Err {
                lemma_fold_out2_failed(k as int, script.len() as int, steps);
            }
            assert(chosen(
                aligned_out::<T>(cx, hash_a, hash_b, options, arg_a, list_a@, arg_b, list_b@, choice),
                *old(self),
                old(w)@,
                *self,
                w@,
                result is Ok,
            ));
        }
        result
    }
}


/// The order in which the entries of a file are printed.
pub open spec fn display_ord<'a, T: SortList>(hash: &FileHash, options: &Flags) -> spec_fn(
    &'a T,
    &'a T,
) -> Ordering {
    |x: &'a T, y: &'a T| T::display_order(hash, x, hash, y, options)
}

/// The order in which the entries of a file are put before two files are
/// merged.
pub open spec fn sort_ord<'a, T: SortList>(hash: &FileHash, options: &Flags) -> spec_fn(
    &'a T,
    &'a T,
) -> Ordering {
    |x: &'a T, y: &'a T| T::sort_order(hash, x, hash, y, options)
}

/// The order of an entry of the first file and an entry of the second by
/// identity.
pub open spec fn id_ord<'a, T: SortList>(
    hash_a: &FileHash,
    hash_b: &FileHash,
    options: &Flags,
) -> spec_fn(&'a T, &'a T) -> Ordering {
    |x: &'a T, y: &'a T| T::id_order(hash_a, x, hash_b, y, options)
}

/// The order in which the merged entries of two files are printed: that of
/// the entries that they are shown by.
pub open spec fn shown_ord<'a, T: SortList>(
    hash_a: &FileHash,
    hash_b: &FileHash,
    options: &Flags,
) -> spec_fn(MergeResult<&'a T>, MergeResult<&'a T>) -> Ordering {
    |x: MergeResult<&'a T>, y: MergeResult<&'a T>|
        T::display_order(
            if x.shown_right() {
                hash_b
            } else {
                hash_a
            },
            x.shown(),
            if y.shown_right() {
                hash_b
            } else {
                hash_a
            },
            y.shown(),
            options,
        )
}

/// The entries of two files, merged by identity and in the order in which
/// they are printed.
pub open spec fn merged_list<'a, T: SortList>(
    hash_a: &FileHash,
    hash_b: &FileHash,
    options: &Flags,
    list_a: Seq<&'a T>,
    list_b: Seq<&'a T>,
) -> Seq<MergeResult<&'a T>> {
    sorted(
        merged(
            sorted(list_a, sort_ord::<T>(hash_a, options)),
            sorted(list_b, sort_ord::<T>(hash_b, options)),
            id_ord::<T>(hash_a, hash_b, options),
        ),
        shown_ord::<T>(hash_a, hash_b, options),
    )
}

/// Printing a list of entries of one file in the order in which they are
/// printed.
pub open spec fn sort_list_out<T: SortList>(
    cx: Cursor,
    hash: &FileHash,
    options: &Flags,
    arg: &T::Arg,
    list: Seq<&T>,
) -> Out {
    fold_out(
        list.len() + 0int,
        |k: int| sorted(list, display_ord::<T>(hash, options))[k].print_out(cx, hash, options, arg),
    )
}

/// Comparing a merged entry: an entry that is in both files is compared in
/// a scope of its own, so that it is printed only where the two differ; an
/// entry that is in one file only is printed as removed or as added, unless
/// such entries are to be left out.
pub open spec fn merged_entry_out<T: SortList>(
    cx: Cursor2,
    hash_a: &FileHash,
    hash_b: &FileHash,
    options: &Flags,
    arg_a: &T::Arg,
    arg_b: &T::Arg,
    item: MergeResult<&T>,
    sub: Choice,
) -> Out2 {
    match item {
        MergeResult::Both(a, b) => T::diff_out(
            cx,
            hash_a,
            hash_b,
            options,
            arg_a,
            a,
            arg_b,
            b,
            sub,
        ).scope(),
        MergeResult::Left(a) => if options.ignore_deleted {
            Out2::nothing()
        } else {
            Out2::on_a(a.print_out(cx.a.marked(DiffPrefix::Less), hash_a, options, arg_a))
        },
        MergeResult::Right(b) => if options.ignore_added {
            Out2::nothing()
        } else {
            Out2::on_b(b.print_out(cx.b.marked(DiffPrefix::Greater), hash_b, options, arg_b))
        },
    }
}

/// Comparing the entries of two files that are found by identity.
pub open spec fn diff_sort_list_out<T: SortList>(
    cx: Cursor2,
    hash_a: &FileHash,
    hash_b: &FileHash,
    options: &Flags,
    arg_a: &T::Arg,
    list_a: Seq<&T>,
    arg_b: &T::Arg,
    list_b: Seq<&T>,
    choice: Choice,
) -> Out2 {
    fold_out2(
        merged_list::<T>(hash_a, hash_b, options, list_a, list_b).len() + 0int,
        |k: int|
            merged_entry_out::<T>(
                cx,
                hash_a,
                hash_b,
                options,
                arg_a,
                arg_b,
                merged_list::<T>(hash_a, hash_b, options, list_a, list_b)[k],
                choice.subs[k],
            ),
    )
}

impl<'a> PrintState<'a> {
    /// Prints a list of entries in the order that the options ask for.
    pub fn sort_list<T: SortList>(&mut self, w: &mut Vec<u8>, arg: &T::Arg, list: &[&T]) -> (r: Result<
        (),
        Error,
    >)
        ensures
            printed(
                *old(self),
                old(w)@,
                *final(self),
                final(w)@,
                r is Ok,
                sort_list_out::<T>(old(self).cursor(), old(self).hash, old(self).options, arg, list@),
            ),
    {
        broadcast use group_bytes;

        let hash = self.hash;
        let options = self.options;
        let ghost ord = display_ord::<T>(hash, options);
        let by = |x: &T, y: &T| -> (o: Ordering)
            ensures
                o == T::display_order(hash, x, hash, y, options),
            { T::cmp_by(hash, x, hash, y, options) };
        let ghost unsorted = list@;
        let list = sort_by(list, &by, Ghost(ord));
        let ghost item = |k: int| list@[k].print_out(old(self).cursor(), hash, options, arg);
        let mut i: usize = 0;
        let mut result: Result<(), Error> = Ok(());
        while i < list.len() && result.is_ok()
            invariant
                i <= list@.len(),
                item == (|k: int| list@[k].print_out(old(self).cursor(), hash, options, arg)),
                hash == old(self).hash,
                options == old(self).options,
                printed(*old(self), old(w)@, *self, w@, result is Ok, fold_out(i + 0, item)),
            decreases list@.len() - i + (if result is Ok { 1int } else { 0int }),
        {
            let ghost s_i = *self;
            let ghost w_i = w@;
            result = list[i].print(w, self, arg);
            proof {
                crate::print::lemma_printed_and(
                    *old(self),
                    old(w)@,
                    s_i,
                    w_i,
                    *self,
                    w@,
                    result is Ok,
                    fold_out(i + 0, item),
                    item(i + 0),
                );
            }
            i += 1;
        }
        proof {
            if result is Err {
                lemma_fold_out_failed(i + 0, list@.len() + 0int, item);
            }
            crate::sort::lemma_sorted_permutes(unsorted, ord);
            lemma_fold_out_same(
                list@.len() + 0int,
                item,
                |k: int|
                    sorted(unsorted, display_ord::<T>(hash, options))[k].print_out(
                        old(self).cursor(),
                        hash,
                        options,
                        arg,
                    ),
            );
        }
        result
    }
}

impl<'a> DiffState<'a> {
    /// Compares a merged entry.
    fn merged_entry<T: SortList>(
        &mut self,
        w: &mut Vec<u8>,
        arg_a: &T::Arg,
        arg_b: &T::Arg,
        item: MergeResult<&T>,
    ) -> (r: (Result<(), Error>, Ghost<Choice>))
        requires
            old(self).wf(),
        ensures
            chosen(
                merged_entry_out::<T>(
                    old(self).cursor(),
                    old(self).a.hash,
                    old(self).b.hash,
                    old(self).options,
                    arg_a,
                    arg_b,
                    item,
                    r.1@,
                ),
                *old(self),
                old(w)@,
                *final(self),
                final(w)@,
                r.0 is Ok,
            ),
    {
        broadcast use group_bytes;

        let ghost mut sub = Choice { script: Seq::empty(), subs: Seq::empty() };
        let result = match item {
            MergeResult::Both(a, b) => {
                let mut buf: Vec<u8> = Vec::new();
                let before = self.diff_begin();
                let ghost s0 = *self;
                let result = T::diff(&mut buf, self, arg_a, a, arg_b, b);
                proof {
                    sub = choose|sub: Choice|
                        chosen(
                            #[trigger] T::diff_out(
                                s0.cursor(),
                                s0.a.hash,
                                s0.b.hash,
                                s0.options,
                                arg_a,
                                a,
                                arg_b,
                                b,
                                sub,
                            ),
                            s0,
                            Seq::empty(),
                            *self,
                            buf@,
                            result is Ok,
                        );
                }
                self.diff_end(w, buf.as_slice(), before);
                result
            },
            MergeResult::Left(a) => {
                if !self.options.ignore_deleted {
                    let before = self.a.prefix_begin(DiffPrefix::Less);
                    let result = a.print(w, &mut self.a, arg_a);
                    self.a.prefix_end(before);
                    result
                } else {
                    Ok(())
                }
            },
            MergeResult::Right(b) => {
                if !self.options.ignore_added {
                    let before = self.b.prefix_begin(DiffPrefix::Greater);
                    let result = b.print(w, &mut self.b, arg_b);
                    self.b.prefix_end(before);
                    result
                } else {
                    Ok(())
                }
            },
        };
        (result, Ghost(sub))
    }

    /// Compares the entries of two files that are found by identity. The
    /// entries of each file are sorted and the two lists merged; an entry
    /// that is in both files is printed where the two differ, and an entry
    /// that is in one file only is printed as removed or as added, unless
    /// such entries are to be left out.
    pub fn sort_list<T: SortList>(
        &mut self,
        w: &mut Vec<u8>,
        arg_a: &T::Arg,
        list_a: &[&T],
        arg_b: &T::Arg,
        list_b: &[&T],
    ) -> (r: Result<(), Error>)
        requires
            old(self).wf(),
        ensures
            exists|choice: Choice|
                chosen(
                    #[trigger] diff_sort_list_out::<T>(
                        old(self).cursor(),
                        old(self).a.hash,
                        old(self).b.hash,
                        old(self).options,
                        arg_a,
                        list_a@,
                        arg_b,
                        list_b@,
                        choice,
                    ),
                    *old(self),
                    old(w)@,
                    *final(self),
                    final(w)@,
                    r is Ok,
                ),
    {
        broadcast use group_bytes;

        let hash_a = self.a.hash;
        let hash_b = self.b.hash;
        let options = self.options;
        let ghost cx = self.cursor();
        let by_a = |x: &T, y: &T| -> (o: Ordering)
            ensures
                o == T::sort_order(hash_a, x, hash_a, y, options),
            { T::cmp_id_for_sort(hash_a, x, hash_a, y, options) };
        let sorted_a = sort_by(list_a, &by_a, Ghost(sort_ord::<T>(hash_a, options)));
        let by_b = |x: &T, y: &T| -> (o: Ordering)
            ensures
                o == T::sort_order(hash_b, x, hash_b, y, options),
            { T::cmp_id_for_sort(hash_b, x, hash_b, y, options) };
        let sorted_b = sort_by(list_b, &by_b, Ghost(sort_ord::<T>(hash_b, options)));
        let by_id = |x: &T, y: &T| -> (o: Ordering)
            ensures
                o == T::id_order(hash_a, x, hash_b, y, options),
            { T::cmp_id(hash_a, x, hash_b, y, options) };
        let merge = MergeIterator::new(sorted_a.as_slice(), sorted_b.as_slice(), by_id);
        let list = merge.collect_by(Ghost(id_ord::<T>(hash_a, hash_b, options)));
        let shown = |x: MergeResult<&T>, y: MergeResult<&T>| -> (o: Ordering)
            ensures
                o == shown_ord::<T>(hash_a, hash_b, options)(x, y),
            {
                match x {
                    MergeResult::Right(x_right) => match y {
                        MergeResult::Right(y_right) => T::cmp_by(
                            hash_b,
                            x_right,
                            hash_b,
                            y_right,
                            options,
                        ),
                        MergeResult::Left(y_left) => T::cmp_by(
                            hash_b,
                            x_right,
                            hash_a,
                            y_left,
                            options,
                        ),
                        MergeResult::Both(y_left, _) => T::cmp_by(
                            hash_b,
                            x_right,
                            hash_a,
                            y_left,
                            options,
                        ),
                    },
                    MergeResult::Left(x_left) => match y {
                        MergeResult::Right(y_right) => T::cmp_by(
                            hash_a,
                            x_left,
                            hash_b,
                            y_right,
                            options,
                        ),
                        MergeResult::Left(y_left) => T::cmp_by(hash_a, x_left, hash_a, y_left, options),
                        MergeResult::Both(y_left, _) => T::cmp_by(
                            hash_a,
                            x_left,
                            hash_a,
                            y_left,
                            options,
                        ),
                    },
                    MergeResult::Both(x_left, _) => match y {
                        MergeResult::Right(y_right) => T::cmp_by(
                            hash_a,
                            x_left,
                            hash_b,
                            y_right,
                            options,
                        ),
                        MergeResult::Left(y_left) => T::cmp_by(hash_a, x_left, hash_a, y_left, options),
                        MergeResult::Both(y_left, _) => T::cmp_by(
                            hash_a,
                            x_left,
                            hash_a,
                            y_left,
                            options,
                        ),
                    },
                }
            };
        let list = sort_by(list.as_slice(), &shown, Ghost(shown_ord::<T>(hash_a, hash_b, options)));
        let ghost mut subs: Seq<Choice> = Seq::empty();
        let mut k: usize = 0;
        let mut result: Result<(), Error> = Ok(());
        while k < list.len() && result.is_ok()
            invariant
                k <= list@.len(),
                subs.len() == k,
                old(self).wf(),
                hash_a == old(self).a.hash,
                hash_b == old(self).b.hash,
                options == old(self).options,
                cx == old(self).cursor(),
                fold_out2(
                    k + 0,
                    |t: int|
                        merged_entry_out::<T>(
                            cx,
                            hash_a,
                            hash_b,
                            options,
                            arg_a,
                            arg_b,
                            list@[t],
                            subs[t],
                        ),
                ).valid,
                diffed(
                    *old(self),
                    old(w)@,
                    *self,
                    w@,
                    result is Ok,
                    fold_out2(
                        k + 0,
                        |t: int|
                            merged_entry_out::<T>(
                                cx,
                                hash_a,
                                hash_b,
                                options,
                                arg_a,
                                arg_b,
                                list@[t],
                                subs[t],
                            ),
                    ),
                ),
            decreases list@.len() - k + (if result is Ok { 1int } else { 0int }),
        {
            let ghost s_k = *self;
            let ghost w_k = w@;
            let ghost subs_k = subs;
            let ghost steps_k = |t: int|
                merged_entry_out::<T>(
                    cx,
                    hash_a,
                    hash_b,
                    options,
                    arg_a,
                    arg_b,
                    list@[t],
                    subs_k[t],
                );
            let (moved, chose) = self.merged_entry::<T>(w, arg_a, arg_b, list[k]);
            result = moved;
            proof {
                subs = subs_k.push(chose@);
                let steps = |t: int|
                    merged_entry_out::<T>(
                        cx,
                        hash_a,
                        hash_b,
                        options,
                        arg_a,
                        arg_b,
                        list@[t],
                        subs[t],
                    );
                assert forall|t: int| 0 <= t < k implies #[trigger] steps_k(t) == steps(t) by {
                    assert(subs[t] == subs_k[t]);
                }
                lemma_fold_out2_same(k + 0, steps_k, steps);
                let step = steps(k + 0);
                assert(subs[k + 0] == chose@);
                assert(diffed(s_k, w_k, *self, w@, result is Ok, step));
                assert(step.valid);
                lemma_diffed_and(
                    *old(self),
                    old(w)@,
                    s_k,
                    w_k,
                    *self,
                    w@,
                    result is Ok,
                    fold_out2(k + 0, steps),
                    step,
                );
            }
            k += 1;
        }
        proof {
            let choice = Choice { script: Seq::empty(), subs };
            let steps = |t: int|
                merged_entry_out::<T>(cx, hash_a, hash_b, options, arg_a, arg_b, list@[t], subs[t]);
            if result is Err {
                lemma_fold_out2_failed(k + 0, list@.len() + 0int, steps);
            }
            assert(list@ == merged_list::<T>(hash_a, hash_b, options, list_a@, list_b@));
            assert(chosen(
                diff_sort_list_out::<T>(
                    cx,
                    hash_a,
                    hash_b,
                    options,
                    arg_a,
                    list_a@,
                    arg_b,
                    list_b@,
                    choice,
                ),
                *old(self),
                old(w)@,
                *self,
                w@,
                result is Ok,
            ));
        }
        result
    }
}


impl<'a, T: Print> Print for &'a T {
    type Arg = T::Arg;

    open spec fn print_out(&self, cx: Cursor, hash: &FileHash, options: &Flags, arg: &T::Arg) -> Out {
        (**self).print_out(cx, hash, options, arg)
    }

    fn print(&self, w: &mut Vec<u8>, state: &mut PrintState, arg: &T::Arg) -> (r: Result<(), Error>) {
        T::print(*self, w, state, arg)
    }

    open spec fn diff_out(
        cx: Cursor2,
        hash_a: &FileHash,
        hash_b: &FileHash,
        options: &Flags,
        arg_a: &T::Arg,
        a: &&'a T,
        arg_b: &T::Arg,
        b: &&'a T,
        choice: Choice,
    ) -> Out2 {
        T::diff_out(cx, hash_a, hash_b, options, arg_a, *a, arg_b, *b, choice)
    }

    fn diff(
        w: &mut Vec<u8>,
        state: &mut DiffState,
        arg_a: &T::Arg,
        a: &&'a T,
        arg_b: &T::Arg,
        b: &&'a T,
    ) -> (r: Result<(), Error>) {
        let r = T::diff(w, state, arg_a, *a, arg_b, *b);
        proof {
            let choice = choose|choice: Choice|
                chosen(
                    #[trigger] T::diff_out(
                        old(state).cursor(),
                        old(state).a.hash,
                        old(state).b.hash,
                        old(state).options,
                        arg_a,
                        *a,
                        arg_b,
                        *b,
                        choice,
                    ),
                    *old(state),
                    old(w)@,
                    *state,
                    w@,
                    r is Ok,
                );
            assert(chosen(
                Self::diff_out(
                    old(state).cursor(),
                    old(state).a.hash,
                    old(state).b.hash,
                    old(state).options,
                    arg_a,
                    a,
                    arg_b,
                    b,
                    choice,
                ),
                *old(state),
                old(w)@,
                *state,
                w@,
                r is Ok,
            ));
        }
        r
    }
}

impl<'a, T: DiffList> DiffList for &'a T {
    open spec fn step(&self, hash: &FileHash, arg: &T::Arg) -> nat {
        (**self).step(hash, arg)
    }

    fn step_cost(&self, hash: &FileHash, arg: &T::Arg) -> (cost: usize) {
        T::step_cost(*self, hash, arg)
    }

    open spec fn pair(
        hash_a: &FileHash,
        arg_a: &T::Arg,
        a: &&'a T,
        hash_b: &FileHash,
        arg_b: &T::Arg,
        b: &&'a T,
    ) -> nat {
        T::pair(hash_a, arg_a, *a, hash_b, arg_b, *b)
    }

    fn diff_cost(
        hash_a: &FileHash,
        arg_a: &T::Arg,
        a: &&'a T,
        hash_b: &FileHash,
        arg_b: &T::Arg,
        b: &&'a T,
    ) -> (cost: usize) {
        T::diff_cost(hash_a, arg_a, *a, hash_b, arg_b, *b)
    }
}

/// The references to the items of a list.
pub open spec fn refs_of<'a, T>(list: Seq<T>) -> Seq<&'a T> {
    Seq::new(list.len(), |i: int| &list[i])
}

/// Gives the references to the items of a list.
pub fn refs<'a, T>(list: &'a [T]) -> (r: Vec<&'a T>)
    ensures
        r@ == refs_of::<T>(list@),
{
    let mut r: Vec<&'a T> = Vec::new();
    let mut i: usize = 0;
    while i < list.len()
        invariant
            i <= list@.len(),
            r@.len() == i,
            forall|k: int| 0 <= k < i ==> r@[k] == &list@[k],
        decreases list@.len() - i,
    {
        r.push(&list[i]);
        i += 1;
    }
    assert(r@ =~= refs_of::<T>(list@));
    r
}

} // verus!
