//! Types, functions and variables as entries of the lists of a unit.
use std::cmp::Ordering;
use vstd::prelude::*;
use crate::file::FileHash;
use crate::function::{function_diff_out, function_out, Function};
use crate::identity::{
    function_display_order, function_order, function_sort_order, type_display_order, type_order,
    variable_display_order, variable_order,
};
use crate::list::{chosen, Choice, Print, SortList};
use crate::order::{name_bytes, name_order};
use crate::unit::{unit_diff_out, unit_out, unit_text, Unit};
use crate::identity::unit_display_order;
use crate::print::{
    diffed, lemma_diffed_and, lemma_diffed_nothing, lemma_printed_and, lemma_printed_nothing,
    line_out, pair_out, printed, Cursor, Cursor2, DiffState, Out, Out2, PrintState,
};
use crate::type_diff::type_diff_out;
use crate::type_print::type_out;
use crate::types::Type;
use crate::variable::{variable_diff_out, variable_out, Variable};
use crate::{Error, Flags};

verus! {

/// The empty line that follows an entry.
pub open spec fn blank() -> Out {
    Out { bytes: seq![10u8], changed: false, failed: false }
}

/// The empty line that follows two entries that were compared.
pub open spec fn blank2() -> Out2 {
    Out2 { bytes: seq![10u8], a: false, b: false, failed: false, valid: true }
}

/// Prints the empty line that follows an entry, where the entry was
/// printed.
pub(crate) fn print_blank(w: &mut Vec<u8>, state: &PrintState, r: &Result<(), Error>, Ghost(s0): Ghost<
    PrintState,
>, Ghost(w0): Ghost<Seq<u8>>, Ghost(out): Ghost<Out>)
    requires
        printed(s0, w0, *state, old(w)@, *r is Ok, out),
    ensures
        printed(s0, w0, *state, final(w)@, *r is Ok, out.and(blank())),
{
    if r.is_ok() {
        w.push(10u8);
        assert(w@ =~= w0 + (out.bytes + seq![10u8]));
    }
}

/// Prints the empty line that follows two entries that were compared,
/// where they were.
pub(crate) fn diff_blank(w: &mut Vec<u8>, state: &DiffState, r: &Result<(), Error>, Ghost(s0): Ghost<
    DiffState,
>, Ghost(w0): Ghost<Seq<u8>>, Ghost(out): Ghost<Out2>)
    requires
        diffed(s0, w0, *state, old(w)@, *r is Ok, out),
    ensures
        diffed(s0, w0, *state, final(w)@, *r is Ok, out.and(blank2())),
{
    if r.is_ok() {
        w.push(10u8);
        assert(w@ =~= w0 + (out.bytes + seq![10u8]));
    }
}

impl Print for Type {
    type Arg = ();

    open spec fn print_out(&self, cx: Cursor, hash: &FileHash, options: &Flags, arg: &()) -> Out {
        type_out(cx, hash, options, self).and(blank())
    }

    fn print(&self, w: &mut Vec<u8>, state: &mut PrintState, arg: &()) -> (r: Result<(), Error>) {
        let ghost out = type_out(state.cursor(), state.hash, state.options, self);
        let r = Type::print(self, w, state);
        print_blank(w, state, &r, Ghost(*old(state)), Ghost(old(w)@), Ghost(out));
        r
    }

    open spec fn diff_out(
        cx: Cursor2,
        hash_a: &FileHash,
        hash_b: &FileHash,
        options: &Flags,
        arg_a: &(),
        a: &Type,
        arg_b: &(),
        b: &Type,
        choice: Choice,
    ) -> Out2 {
        type_diff_out(cx, hash_a, hash_b, options, a, b, choice).and(blank2())
    }

    fn diff(w: &mut Vec<u8>, state: &mut DiffState, arg_a: &(), a: &Type, arg_b: &(), b: &Type) -> (r:
        Result<(), Error>) {
        let r = Type::diff(w, state, a, b);
        let ghost choice = choose|choice: Choice|
            chosen(
                #[trigger] type_diff_out(
                    old(state).cursor(),
                    old(state).a.hash,
                    old(state).b.hash,
                    old(state).options,
                    a,
                    b,
                    choice,
                ),
                *old(state),
                old(w)@,
                *state,
                w@,
                r is Ok,
            );
        let ghost out = type_diff_out(
            old(state).cursor(),
            old(state).a.hash,
            old(state).b.hash,
            old(state).options,
            a,
            b,
            choice,
        );
        diff_blank(w, state, &r, Ghost(*old(state)), Ghost(old(w)@), Ghost(out));
        proof {
            assert(chosen(
                Self::diff_out(
                    old(state).cursor(),
                    old(state).a.hash,
                    old(state).b.hash,
                    old(state).options,
                    arg_a,
                    a,
                    arg_b,
                    b,
                    choice,
                ),
                *old(state),
                old(w)@,
                *state,
                w@,
                r is Ok,
            ));
        }
        r
    }
}

impl SortList for Type {
    open spec fn id_order(
        hash_a: &FileHash,
        a: &Type,
        hash_b: &FileHash,
        b: &Type,
        options: &Flags,
    ) -> Ordering {
        type_order(hash_a, a, hash_b, b, hash_a.depth())
    }

    /// This must only be called for types that have identifiers.
    fn cmp_id(hash_a: &FileHash, a: &Type, hash_b: &FileHash, b: &Type, options: &Flags) -> (o:
        Ordering) {
        Type::cmp_id(hash_a, a, hash_b, b)
    }

    open spec fn sort_order(
        hash_a: &FileHash,
        a: &Type,
        hash_b: &FileHash,
        b: &Type,
        options: &Flags,
    ) -> Ordering {
        type_order(hash_a, a, hash_b, b, hash_a.depth())
    }

    fn cmp_id_for_sort(
        hash_a: &FileHash,
        a: &Type,
        hash_b: &FileHash,
        b: &Type,
        options: &Flags,
    ) -> (o: Ordering) {
        Type::cmp_id(hash_a, a, hash_b, b)
    }

    open spec fn display_order(
        hash_a: &FileHash,
        a: &Type,
        hash_b: &FileHash,
        b: &Type,
        options: &Flags,
    ) -> Ordering {
        type_display_order(hash_a, a, hash_b, b, options)
    }

    fn cmp_by(hash_a: &FileHash, a: &Type, hash_b: &FileHash, b: &Type, options: &Flags) -> (o:
        Ordering) {
        Type::cmp_by(hash_a, a, hash_b, b, options)
    }
}

impl Print for Function {
    type Arg = ();

    open spec fn print_out(&self, cx: Cursor, hash: &FileHash, options: &Flags, arg: &()) -> Out {
        function_out(cx, hash, options, self).and(blank())
    }

    fn print(&self, w: &mut Vec<u8>, state: &mut PrintState, arg: &()) -> (r: Result<(), Error>) {
        let ghost out = function_out(state.cursor(), state.hash, state.options, self);
        let r = Function::print(self, w, state);
        print_blank(w, state, &r, Ghost(*old(state)), Ghost(old(w)@), Ghost(out));
        r
    }

    open spec fn diff_out(
        cx: Cursor2,
        hash_a: &FileHash,
        hash_b: &FileHash,
        options: &Flags,
        arg_a: &(),
        a: &Function,
        arg_b: &(),
        b: &Function,
        choice: Choice,
    ) -> Out2 {
        function_diff_out(cx, hash_a, hash_b, options, a, b, choice).and(blank2())
    }

    fn diff(
        w: &mut Vec<u8>,
        state: &mut DiffState,
        arg_a: &(),
        a: &Function,
        arg_b: &(),
        b: &Function,
    ) -> (r: Result<(), Error>) {
        let r = Function::diff(w, state, a, b);
        let ghost choice = choose|choice: Choice|
            chosen(
                #[trigger] function_diff_out(
                    old(state).cursor(),
                    old(state).a.hash,
                    old(state).b.hash,
                    old(state).options,
                    a,
                    b,
                    choice,
                ),
                *old(state),
                old(w)@,
                *state,
                w@,
                r is Ok,
            );
        let ghost out = function_diff_out(
            old(state).cursor(),
            old(state).a.hash,
            old(state).b.hash,
            old(state).options,
            a,
            b,
            choice,
        );
        diff_blank(w, state, &r, Ghost(*old(state)), Ghost(old(w)@), Ghost(out));
        proof {
            assert(chosen(
                Self::diff_out(
                    old(state).cursor(),
                    old(state).a.hash,
                    old(state).b.hash,
                    old(state).options,
                    arg_a,
                    a,
                    arg_b,
                    b,
                    choice,
                ),
                *old(state),
                old(w)@,
                *state,
                w@,
                r is Ok,
            ));
        }
        r
    }
}

impl SortList for Function {
    open spec fn id_order(
        hash_a: &FileHash,
        a: &Function,
        hash_b: &FileHash,
        b: &Function,
        options: &Flags,
    ) -> Ordering {
        function_order(a, b)
    }

    fn cmp_id(hash_a: &FileHash, a: &Function, hash_b: &FileHash, b: &Function, options: &Flags) -> (o:
        Ordering) {
        Function::cmp_id(a, b)
    }

    open spec fn sort_order(
        hash_a: &FileHash,
        a: &Function,
        hash_b: &FileHash,
        b: &Function,
        options: &Flags,
    ) -> Ordering {
        function_sort_order(hash_a, a, hash_b, b)
    }

    fn cmp_id_for_sort(
        hash_a: &FileHash,
        a: &Function,
        hash_b: &FileHash,
        b: &Function,
        options: &Flags,
    ) -> (o: Ordering) {
        Function::cmp_id_for_sort(hash_a, a, hash_b, b)
    }

    open spec fn display_order(
        hash_a: &FileHash,
        a: &Function,
        hash_b: &FileHash,
        b: &Function,
        options: &Flags,
    ) -> Ordering {
        function_display_order(hash_a, a, hash_b, b, options)
    }

    fn cmp_by(hash_a: &FileHash, a: &Function, hash_b: &FileHash, b: &Function, options: &Flags) -> (o:
        Ordering) {
        Function::cmp_by(hash_a, a, hash_b, b, options)
    }
}

impl Print for Variable {
    type Arg = ();

    open spec fn print_out(&self, cx: Cursor, hash: &FileHash, options: &Flags, arg: &()) -> Out {
        variable_out(cx, hash, self).and(blank())
    }

    fn print(&self, w: &mut Vec<u8>, state: &mut PrintState, arg: &()) -> (r: Result<(), Error>) {
        let ghost out = variable_out(state.cursor(), state.hash, self);
        let r = Variable::print(self, w, state);
        print_blank(w, state, &r, Ghost(*old(state)), Ghost(old(w)@), Ghost(out));
        r
    }

    open spec fn diff_out(
        cx: Cursor2,
        hash_a: &FileHash,
        hash_b: &FileHash,
        options: &Flags,
        arg_a: &(),
        a: &Variable,
        arg_b: &(),
        b: &Variable,
        choice: Choice,
    ) -> Out2 {
        variable_diff_out(cx, hash_a, hash_b, options, a, b).and(blank2())
    }

    fn diff(
        w: &mut Vec<u8>,
        state: &mut DiffState,
        arg_a: &(),
        a: &Variable,
        arg_b: &(),
        b: &Variable,
    ) -> (r: Result<(), Error>) {
        let ghost out = variable_diff_out(
            state.cursor(),
            state.a.hash,
            state.b.hash,
            state.options,
            a,
            b,
        );
        let r = Variable::diff(w, state, a, b);
        diff_blank(w, state, &r, Ghost(*old(state)), Ghost(old(w)@), Ghost(out));
        proof {
            let choice = Choice { script: Seq::empty(), subs: Seq::empty() };
            assert(chosen(
                Self::diff_out(
                    old(state).cursor(),
                    old(state).a.hash,
                    old(state).b.hash,
                    old(state).options,
                    arg_a,
                    a,
                    arg_b,
                    b,
                    choice,
                ),
                *old(state),
                old(w)@,
                *state,
                w@,
                r is Ok,
            ));
        }
        r
    }
}

impl SortList for Variable {
    open spec fn id_order(
        hash_a: &FileHash,
        a: &Variable,
        hash_b: &FileHash,
        b: &Variable,
        options: &Flags,
    ) -> Ordering {
        variable_order(a, b)
    }

    fn cmp_id(hash_a: &FileHash, a: &Variable, hash_b: &FileHash, b: &Variable, options: &Flags) -> (o:
        Ordering) {
        Variable::cmp_id(hash_a, a, hash_b, b)
    }

    open spec fn sort_order(
        hash_a: &FileHash,
        a: &Variable,
        hash_b: &FileHash,
        b: &Variable,
        options: &Flags,
    ) -> Ordering {
        variable_order(a, b)
    }

    fn cmp_id_for_sort(
        hash_a: &FileHash,
        a: &Variable,
        hash_b: &FileHash,
        b: &Variable,
        options: &Flags,
    ) -> (o: Ordering) {
        Variable::cmp_id(hash_a, a, hash_b, b)
    }

    open spec fn display_order(
        hash_a: &FileHash,
        a: &Variable,
        hash_b: &FileHash,
        b: &Variable,
        options: &Flags,
    ) -> Ordering {
        variable_display_order(hash_a, a, hash_b, b, options)
    }

    fn cmp_by(hash_a: &FileHash, a: &Variable, hash_b: &FileHash, b: &Variable, options: &Flags) -> (o:
        Ordering) {
        Variable::cmp_by(hash_a, a, hash_b, b, options)
    }
}


/// The line that a unit begins with, unless a single unit was asked for.
pub open spec fn unit_head_out(cx: Cursor, options: &Flags, unit: &Unit) -> Out {
    if options.unit is None {
        line_out(cx, unit_text(unit))
    } else {
        Out::nothing()
    }
}

/// The lines that two units begin with, compared.
pub open spec fn unit_head_diff_out(cx: Cursor2, options: &Flags, a: &Unit, b: &Unit) -> Out2 {
    if options.unit is None {
        pair_out(cx, unit_text(a), unit_text(b))
    } else {
        Out2::nothing()
    }
}

impl Print for Unit {
    type Arg = ();

    open spec fn print_out(&self, cx: Cursor, hash: &FileHash, options: &Flags, arg: &()) -> Out {
        unit_head_out(cx, options, self).and(unit_out(cx, hash, options, self))
    }

    fn print(&self, w: &mut Vec<u8>, state: &mut PrintState, arg: &()) -> (r: Result<(), Error>) {
        let ghost cx = state.cursor();
        let ghost hash = state.hash;
        let ghost options = state.options;
        if state.options.unit.is_none() {
            let text = self.line();
            state.line(w, text.as_slice());
        } else {
            proof {
                lemma_printed_nothing(*state, w@);
            }
        }
        let ghost s1 = *state;
        let ghost w1 = w@;
        let r = Unit::print(self, w, state);
        proof {
            lemma_printed_and(
                *old(state),
                old(w)@,
                s1,
                w1,
                *state,
                w@,
                r is Ok,
                unit_head_out(cx, options, self),
                unit_out(cx, hash, options, self),
            );
        }
        r
    }

    open spec fn diff_out(
        cx: Cursor2,
        hash_a: &FileHash,
        hash_b: &FileHash,
        options: &Flags,
        arg_a: &(),
        a: &Unit,
        arg_b: &(),
        b: &Unit,
        choice: Choice,
    ) -> Out2 {
        unit_head_diff_out(cx, options, a, b).and(
            unit_diff_out(cx, hash_a, hash_b, options, a, b, choice),
        )
    }

    fn diff(w: &mut Vec<u8>, state: &mut DiffState, arg_a: &(), a: &Unit, arg_b: &(), b: &Unit) -> (r:
        Result<(), Error>) {
        let ghost cx = state.cursor();
        let ghost hash_a = state.a.hash;
        let ghost hash_b = state.b.hash;
        let ghost options = state.options;
        if state.options.unit.is_none() {
            let text_a = a.line();
            let text_b = b.line();
            state.line(w, text_a.as_slice(), text_b.as_slice());
        } else {
            proof {
                lemma_diffed_nothing(*state, w@);
            }
        }
        let ghost s1 = *state;
        let ghost w1 = w@;
        let r = Unit::diff(w, state, a, b);
        proof {
            let choice = choose|choice: Choice|
                chosen(
                    #[trigger] unit_diff_out(cx, hash_a, hash_b, options, a, b, choice),
                    s1,
                    w1,
                    *state,
                    w@,
                    r is Ok,
                );
            lemma_diffed_and(
                *old(state),
                old(w)@,
                s1,
                w1,
                *state,
                w@,
                r is Ok,
                unit_head_diff_out(cx, options, a, b),
                unit_diff_out(cx, hash_a, hash_b, options, a, b, choice),
            );
            assert(chosen(
                Self::diff_out(cx, hash_a, hash_b, options, arg_a, a, arg_b, b, choice),
                *old(state),
                old(w)@,
                *state,
                w@,
                r is Ok,
            ));
        }
        r
    }
}

impl SortList for Unit {
    open spec fn id_order(
        hash_a: &FileHash,
        a: &Unit,
        hash_b: &FileHash,
        b: &Unit,
        options: &Flags,
    ) -> Ordering {
        name_order(name_bytes(a.name), name_bytes(b.name))
    }

    fn cmp_id(hash_a: &FileHash, a: &Unit, hash_b: &FileHash, b: &Unit, options: &Flags) -> (o:
        Ordering) {
        Unit::cmp_id(a, b)
    }

    open spec fn sort_order(
        hash_a: &FileHash,
        a: &Unit,
        hash_b: &FileHash,
        b: &Unit,
        options: &Flags,
    ) -> Ordering {
        name_order(name_bytes(a.name), name_bytes(b.name))
    }

    fn cmp_id_for_sort(
        hash_a: &FileHash,
        a: &Unit,
        hash_b: &FileHash,
        b: &Unit,
        options: &Flags,
    ) -> (o: Ordering) {
        Unit::cmp_id(a, b)
    }

    open spec fn display_order(
        hash_a: &FileHash,
        a: &Unit,
        hash_b: &FileHash,
        b: &Unit,
        options: &Flags,
    ) -> Ordering {
        unit_display_order(a, b, options)
    }

    fn cmp_by(hash_a: &FileHash, a: &Unit, hash_b: &FileHash, b: &Unit, options: &Flags) -> (o:
        Ordering) {
        Unit::cmp_by(a, b, options)
    }
}

} // verus!
