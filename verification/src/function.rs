//! Functions, their parameters, and the calls that they make or that were
//! inlined into them.
use std::rc::Rc;
use vstd::prelude::*;
use vstd::string::StringSliceAdditionalSpecFns;
use crate::file::FileHash;
use crate::identity::{inlined_pair, sort_locals, sorted_locals};
use crate::list::{
    chosen, diff_list_out, label_text, lemma_steps_in_range, list_costs, list_label, list_out,
    lists_fit, optimal, steps_in_range, Choice, DiffList, Print,
};
use crate::members::{lemma_ones_sum, ones};
use crate::path::{align, pos_a, pos_b, Costs, Direction};
use crate::namespace::{name_text, ns_text, print_name, print_namespace, Namespace};
use crate::print::{
    diffed, lemma_diffed_and, lemma_diffed_nothing, lemma_printed_and, lemma_printed_nothing,
    line_option_out, line_out, pair_out, printed, Cursor, Cursor2, DiffPrefix, DiffState, Out, Out2,
    PrintState,
};
use crate::seqs::group_bytes;
use crate::text::{decimal, hex, put, put_hex, put_str, put_u64};
use crate::type_print::{declaration_line, declaration_text, size_line, size_text};
use crate::types::{param_text, ref_at, size_at, Type, TypeOffset};
use crate::variable::LocalVariable;
use crate::{Error, Flags};

verus! {

/// Where a function stands in the debugging information.
#[derive(Debug, Clone, Copy, PartialEq, Eq, Structural)]
pub struct FunctionOffset(pub usize);

/// A function.
#[derive(Debug)]
pub struct Function {
    pub offset: FunctionOffset,
    pub namespace: Option<Rc<Namespace>>,
    pub name: Option<Vec<u8>>,
    pub linkage_name: Option<Vec<u8>>,
    /// The name of the symbol at the address of the function.
    pub symbol_name: Option<Vec<u8>>,
    pub low_pc: Option<u64>,
    pub high_pc: Option<u64>,
    pub size: Option<u64>,
    pub inline: bool,
    pub declaration: bool,
    pub parameters: Vec<Parameter>,
    pub return_type: Option<TypeOffset>,
    pub inlined_functions: Vec<InlinedFunction>,
    pub variables: Vec<LocalVariable>,
    /// The calls that the code of the function makes, in the order of their
    /// addresses.
    pub calls: Vec<Call>,
}

/// A parameter of a function or of a subroutine type.
#[derive(Debug)]
pub struct Parameter {
    pub name: Option<Vec<u8>>,
    pub ty: Option<TypeOffset>,
}

/// A call that was inlined into a function, with the calls that were
/// inlined into it in turn.
#[derive(Debug)]
pub struct InlinedFunction {
    pub abstract_origin: Option<FunctionOffset>,
    pub size: Option<u64>,
    pub inlined_functions: Vec<InlinedFunction>,
    pub variables: Vec<LocalVariable>,
}

/// A call: the address that it is made from, and the address that it goes
/// to.
#[derive(Debug, Clone, Copy)]
pub struct Call {
    pub from: u64,
    pub to: u64,
}


/// The name of a function within its namespace.
pub open spec fn function_ref(f: &Function) -> Seq<u8> {
    ns_text(f.namespace) + name_text(f.name, "<anon>")
}

/// The line of a function.
pub open spec fn function_text(f: &Function) -> Seq<u8> {
    "fn ".spec_bytes() + function_ref(f)
}

/// A line with a label and a name, where there is a name.
pub open spec fn named_text(label: &str, name: Option<Vec<u8>>) -> Seq<u8> {
    match name {
        Some(name) => label.spec_bytes() + ": ".spec_bytes() + name@,
        None => Seq::empty(),
    }
}

/// The line of a range of addresses: its first and its last address, or
/// its first alone where nothing more is known.
pub open spec fn address_text(low_pc: Option<u64>, high_pc: Option<u64>) -> Seq<u8> {
    match low_pc {
        Some(low) => match high_pc {
            Some(high) => if high > low {
                "address: 0x".spec_bytes() + hex(low as nat) + "-0x".spec_bytes() + hex(
                    (high - 1) as nat,
                )
            } else {
                "address: 0x".spec_bytes() + hex(low as nat)
            },
            None => "address: 0x".spec_bytes() + hex(low as nat),
        },
        None => Seq::empty(),
    }
}

/// The line that says that a function is inline.
pub open spec fn inline_text(inline: bool) -> Seq<u8> {
    if inline {
        "inline: yes".spec_bytes()
    } else {
        Seq::empty()
    }
}

/// A size in square brackets, or question marks where it is not known.
pub open spec fn sized_text(size: Option<u64>) -> Seq<u8> {
    match size {
        Some(size) => "[".spec_bytes() + decimal(size as nat) + "]".spec_bytes(),
        None => "[??]".spec_bytes(),
    }
}

/// The label of the type that a function returns, where it returns
/// anything.
pub open spec fn return_label_text(f: &Function) -> Seq<u8> {
    if f.return_type is Some {
        "return type:".spec_bytes()
    } else {
        Seq::empty()
    }
}

/// The line of the type that a function returns: its size and its name.
pub open spec fn return_type_text(hash: &FileHash, f: &Function) -> Seq<u8> {
    if f.return_type is Some {
        sized_text(size_at(hash, f.return_type, hash.depth())) + "\t".spec_bytes() + ref_at(
            hash,
            f.return_type,
            hash.depth(),
        )
    } else {
        Seq::empty()
    }
}

/// The line of a parameter: its size, its name and its type.
pub open spec fn parameter_text(hash: &FileHash, p: Parameter) -> Seq<u8> {
    sized_text(size_at(hash, p.ty, hash.depth())) + "\t".spec_bytes() + param_text(
        hash,
        p,
        hash.depth(),
    )
}

/// The line of a call: where it is made from and where it goes to, unless
/// the addresses of functions are to be ignored, and the function that is
/// called, where it is known.
pub open spec fn call_text(hash: &FileHash, options: &Flags, c: Call) -> Seq<u8> {
    (if !options.ignore_function_address {
        "0x".spec_bytes() + hex(c.from as nat) + " -> 0x".spec_bytes() + hex(c.to as nat)
            + " ".spec_bytes()
    } else {
        Seq::empty()
    }) + (match hash.function_at(c.to) {
        Some(f) => function_ref(f),
        None => if options.ignore_function_address {
            "0x".spec_bytes() + hex(c.to as nat)
        } else {
            Seq::empty()
        },
    })
}

/// The line of an inlined call: its size and the function that was
/// inlined.
pub open spec fn inlined_text(hash: &FileHash, f: InlinedFunction) -> Seq<u8> {
    sized_text(f.size) + "\t".spec_bytes() + (match hash.function(f.abstract_origin) {
        Some(origin) => function_ref(origin),
        None => "<anon>".spec_bytes(),
    })
}

/// Gives a line with a label and a name, where there is a name.
pub fn named_line(label: &str, name: &Option<Vec<u8>>) -> (text: Vec<u8>)
    ensures
        text@ == named_text(label, *name),
{
    broadcast use group_bytes;

    let mut text: Vec<u8> = Vec::new();
    if let Some(name) = name {
        put_str(&mut text, label);
        put_str(&mut text, ": ");
        put(&mut text, name.as_slice());
    }
    text
}

/// Gives the line of a range of addresses.
pub fn address_line(low_pc: Option<u64>, high_pc: Option<u64>) -> (text: Vec<u8>)
    ensures
        text@ == address_text(low_pc, high_pc),
{
    broadcast use group_bytes;

    let mut text: Vec<u8> = Vec::new();
    if let Some(low_pc) = low_pc {
        put_str(&mut text, "address: 0x");
        put_hex(&mut text, low_pc);
        if let Some(high_pc) = high_pc {
            if high_pc > low_pc {
                put_str(&mut text, "-0x");
                put_hex(&mut text, high_pc - 1);
            }
        }
    }
    text
}

/// Writes a size in square brackets, or question marks where it is not
/// known.
pub fn print_sized(w: &mut Vec<u8>, size: Option<u64>)
    ensures
        final(w)@ == old(w)@ + sized_text(size),
{
    broadcast use group_bytes;

    match size {
        Some(size) => {
            put_str(w, "[");
            put_u64(w, size);
            put_str(w, "]");
        },
        None => put_str(w, "[??]"),
    }
}

/// Writes the name of a function within its namespace.
pub fn print_ref(f: &Function, w: &mut Vec<u8>)
    ensures
        final(w)@ == old(w)@ + function_ref(f),
{
    broadcast use group_bytes;

    print_namespace(w, &f.namespace);
    print_name(w, &f.name, "<anon>");
}

/// Writes the line of a function.
pub fn print_name_line(f: &Function, w: &mut Vec<u8>)
    ensures
        final(w)@ == old(w)@ + function_text(f),
{
    broadcast use group_bytes;

    put_str(w, "fn ");
    print_ref(f, w);
}

/// Writes the line of the linkage name of a function.
pub fn print_linkage_name(f: &Function, w: &mut Vec<u8>)
    ensures
        final(w)@ == old(w)@ + named_text("linkage name", f.linkage_name),
{
    let text = named_line("linkage name", &f.linkage_name);
    put(w, text.as_slice());
}

/// Writes the line of the symbol name of a function.
pub fn print_symbol_name(f: &Function, w: &mut Vec<u8>)
    ensures
        final(w)@ == old(w)@ + named_text("symbol name", f.symbol_name),
{
    let text = named_line("symbol name", &f.symbol_name);
    put(w, text.as_slice());
}

/// Writes the line of the addresses of a function.
pub fn print_address(f: &Function, w: &mut Vec<u8>)
    ensures
        final(w)@ == old(w)@ + address_text(f.low_pc, f.high_pc),
{
    let text = address_line(f.low_pc, f.high_pc);
    put(w, text.as_slice());
}

/// Writes the line of the size of a function.
pub fn print_size(f: &Function, w: &mut Vec<u8>)
    ensures
        final(w)@ == old(w)@ + size_text(f.size),
{
    let text = size_line(f.size);
    put(w, text.as_slice());
}

/// Writes the line that says that a function is inline.
pub fn print_inline(f: &Function, w: &mut Vec<u8>)
    ensures
        final(w)@ == old(w)@ + inline_text(f.inline),
{
    broadcast use group_bytes;

    if f.inline {
        put_str(w, "inline: yes");
    }
}

/// Writes the line that says that a function is a declaration only.
pub fn print_declaration(f: &Function, w: &mut Vec<u8>)
    ensures
        final(w)@ == old(w)@ + declaration_text(f.declaration),
{
    let text = declaration_line(f.declaration);
    put(w, text.as_slice());
}

/// Writes the label of the return type, where the function returns anything.
pub fn print_return_type_label(f: &Function, w: &mut Vec<u8>)
    ensures
        final(w)@ == old(w)@ + return_label_text(f),
{
    broadcast use group_bytes;

    if f.return_type.is_some() {
        put_str(w, "return type:");
    }
}

/// Writes the line of the return type of a function.
pub fn print_return_type(f: &Function, w: &mut Vec<u8>, hash: &FileHash)
    ensures
        final(w)@ == old(w)@ + return_type_text(hash, f),
{
    broadcast use group_bytes;

    if f.return_type.is_some() {
        print_sized(w, Type::size_from_offset(hash, f.return_type, hash.fuel()));
        put_str(w, "\t");
        Type::print_ref_from_offset(w, hash, f.return_type, hash.fuel());
    }
}

impl Function {
    /// The type of what the function returns.
    pub fn return_type<'a>(&self, hash: &FileHash<'a>) -> (ty: Option<&'a Type>)
        ensures
            ty == hash.ty(self.return_type),
    {
        Type::from_option(hash, self.return_type)
    }

    /// Whether the function is to be printed.
    pub fn filter(&self, flags: &Flags) -> (shown: bool)
        ensures
            shown == crate::types::entry_shown(flags, self.namespace, self.name),
    {
        crate::types::filter_entry(flags, &self.namespace, &self.name)
    }
}

impl Print for Parameter {
    type Arg = ();

    open spec fn print_out(&self, cx: Cursor, hash: &FileHash, options: &Flags, arg: &()) -> Out {
        line_out(cx, parameter_text(hash, *self))
    }

    fn print(&self, w: &mut Vec<u8>, state: &mut PrintState, arg: &()) -> (r: Result<(), Error>) {
        let text = parameter_line(self, state.hash);
        state.line(w, text.as_slice());
        Ok(())
    }

    open spec fn diff_out(
        cx: Cursor2,
        hash_a: &FileHash,
        hash_b: &FileHash,
        options: &Flags,
        arg_a: &(),
        a: &Parameter,
        arg_b: &(),
        b: &Parameter,
        choice: Choice,
    ) -> Out2 {
        pair_out(cx, parameter_text(hash_a, *a), parameter_text(hash_b, *b))
    }

    fn diff(
        w: &mut Vec<u8>,
        state: &mut DiffState,
        arg_a: &(),
        a: &Parameter,
        arg_b: &(),
        b: &Parameter,
    ) -> (r: Result<(), Error>) {
        let text_a = parameter_line(a, state.a.hash);
        let text_b = parameter_line(b, state.b.hash);
        state.line(w, text_a.as_slice(), text_b.as_slice());
        proof {
            let choice = Choice { script: Seq::empty(), subs: Seq::empty() };
            assert(chosen(
                Self::diff_out(
                    old(state).cursor(),
                    old(state).a.hash,
                    old(state).b.hash,
                    old(state).options,
                    arg_a,
                    a,
                    arg_b,
                    b,
                    choice,
                ),
                *old(state),
                old(w)@,
                *state,
                w@,
                true,
            ));
        }
        Ok(())
    }
}

/// Gives the line of a parameter.
pub fn parameter_line(p: &Parameter, hash: &FileHash) -> (text: Vec<u8>)
    ensures
        text@ == parameter_text(hash, *p),
{
    broadcast use group_bytes;

    let mut text: Vec<u8> = Vec::new();
    print_sized(&mut text, p.byte_size(hash));
    put_str(&mut text, "\t");
    p.print(&mut text, hash);
    text
}

/// Gives the line of a call.
pub fn call_line(c: &Call, hash: &FileHash, options: &Flags) -> (text: Vec<u8>)
    ensures
        text@ == call_text(hash, options, *c),
{
    broadcast use group_bytes;

    let mut text: Vec<u8> = Vec::new();
    if !options.ignore_function_address {
        // The addresses clutter a comparison, so they can be left out.
        put_str(&mut text, "0x");
        put_hex(&mut text, c.from);
        put_str(&mut text, " -> 0x");
        put_hex(&mut text, c.to);
        put_str(&mut text, " ");
    }
    if let Some(function) = hash.function_from_address(c.to) {
        print_ref(function, &mut text);
    } else if options.ignore_function_address {
        // No address has been written, so the line needs something in its place.
        put_str(&mut text, "0x");
        put_hex(&mut text, c.to);
    }
    text
}

impl Print for Call {
    type Arg = ();

    open spec fn print_out(&self, cx: Cursor, hash: &FileHash, options: &Flags, arg: &()) -> Out {
        line_out(cx, call_text(hash, options, *self))
    }

    fn print(&self, w: &mut Vec<u8>, state: &mut PrintState, arg: &()) -> (r: Result<(), Error>) {
        let text = call_line(self, state.hash, state.options);
        state.line(w, text.as_slice());
        Ok(())
    }

    open spec fn diff_out(
        cx: Cursor2,
        hash_a: &FileHash,
        hash_b: &FileHash,
        options: &Flags,
        arg_a: &(),
        a: &Call,
        arg_b: &(),
        b: &Call,
        choice: Choice,
    ) -> Out2 {
        pair_out(cx, call_text(hash_a, options, *a), call_text(hash_b, options, *b))
    }

    fn diff(w: &mut Vec<u8>, state: &mut DiffState, arg_a: &(), a: &Call, arg_b: &(), b: &Call) -> (r:
        Result<(), Error>) {
        let text_a = call_line(a, state.a.hash, state.options);
        let text_b = call_line(b, state.b.hash, state.options);
        state.line(w, text_a.as_slice(), text_b.as_slice());
        proof {
            let choice = Choice { script: Seq::empty(), subs: Seq::empty() };
            assert(chosen(
                Self::diff_out(
                    old(state).cursor(),
                    old(state).a.hash,
                    old(state).b.hash,
                    old(state).options,
                    arg_a,
                    a,
                    arg_b,
                    b,
                    choice,
                ),
                *old(state),
                old(w)@,
                *state,
                w@,
                true,
            ));
        }
        Ok(())
    }
}

/// Printing an inlined call, and below it the calls that were inlined into
/// it, as far as the levels of inlined calls go.
pub open spec fn inlined_out(cx: Cursor, hash: &FileHash, f: InlinedFunction) -> Out
    decreases cx.inline_depth, 0int, 0int,
{
    line_out(cx, inlined_text(hash, f)).and(
        if cx.inline_depth > 0 {
            inlined_entries_upto(
                cx.inlined().deeper(),
                hash,
                f.inlined_functions@,
                f.inlined_functions@.len() as int,
            )
        } else {
            Out::nothing()
        },
    )
}

/// Printing the first `n` of a list of inlined calls.
pub open spec fn inlined_entries_upto(
    cx: Cursor,
    hash: &FileHash,
    list: Seq<InlinedFunction>,
    n: int,
) -> Out
    decreases cx.inline_depth, 1int, n,
{
    if n <= 0 {
        Out::nothing()
    } else {
        inlined_entries_upto(cx, hash, list, n - 1).and(inlined_out(cx, hash, list[n - 1]))
    }
}

/// Printing the calls that were inlined into a function or into an inlined
/// call below their label, where another level of inlined calls may be
/// entered.
pub open spec fn inlined_list_out(cx: Cursor, hash: &FileHash, list: Seq<InlinedFunction>) -> Out {
    if cx.inline_depth > 0 {
        line_option_out(cx, label_text("inlined functions", list.len())).and(
            inlined_entries_upto(cx.inlined().deeper(), hash, list, list.len() as int),
        )
    } else {
        Out::nothing()
    }
}

/// Gives the line of an inlined call.
pub fn inlined_line(f: &InlinedFunction, hash: &FileHash) -> (text: Vec<u8>)
    ensures
        text@ == inlined_text(hash, *f),
{
    broadcast use group_bytes;

    let mut text: Vec<u8> = Vec::new();
    print_sized(&mut text, f.size);
    put_str(&mut text, "\t");
    let origin = match f.abstract_origin {
        Some(offset) => hash.function_from_offset(offset),
        None => None,
    };
    match origin {
        Some(function) => print_ref(function, &mut text),
        None => put_str(&mut text, "<anon>"),
    }
    text
}

/// Prints a list of inlined calls.
pub fn print_inlined_entries(w: &mut Vec<u8>, state: &mut PrintState, list: &[InlinedFunction]) -> (r:
    Result<(), Error>)
    ensures
        printed(
            *old(state),
            old(w)@,
            *final(state),
            final(w)@,
            r is Ok,
            inlined_entries_upto(old(state).cursor(), old(state).hash, list@, list@.len() as int),
        ),
        r is Ok,
    decreases old(state).inline_depth, 1int, list@.len(),
{
    let ghost cx = state.cursor();
    let ghost hash = state.hash;
    let mut i: usize = 0;
    proof {
        lemma_printed_nothing(*state, w@);
    }
    while i < list.len()
        invariant
            i <= list@.len(),
            cx == old(state).cursor(),
            hash == old(state).hash,
            printed(*old(state), old(w)@, *state, w@, true, inlined_entries_upto(cx, hash, list@, i as int)),
        decreases list@.len() - i,
    {
        let ghost s0 = *state;
        let ghost w0 = w@;
        let r = list[i].print(w, state);
        proof {
            lemma_printed_and(
                *old(state),
                old(w)@,
                s0,
                w0,
                *state,
                w@,
                true,
                inlined_entries_upto(cx, hash, list@, i as int),
                inlined_out(cx, hash, list@[i as int]),
            );
            assert(inlined_entries_upto(cx, hash, list@, i + 1) == inlined_entries_upto(
                cx,
                hash,
                list@,
                i as int,
            ).and(inlined_out(cx, hash, list@[i as int])));
        }
        i += 1;
    }
    Ok(())
}

/// Prints the calls that were inlined into a function or into an inlined
/// call below their label, where another level of inlined calls may be
/// entered.
pub fn print_inlined_list(w: &mut Vec<u8>, state: &mut PrintState, list: &[InlinedFunction]) -> (r:
    Result<(), Error>)
    ensures
        printed(
            *old(state),
            old(w)@,
            *final(state),
            final(w)@,
            r is Ok,
            inlined_list_out(old(state).cursor(), old(state).hash, list@),
        ),
        r is Ok,
{
    let ghost cx = state.cursor();
    let ghost hash = state.hash;
    if state.inline_depth == 0 {
        proof {
            lemma_printed_nothing(*state, w@);
        }
        return Ok(());
    }
    let text = list_label("inlined functions", list.len());
    state.line_option(w, text.as_slice());
    let ghost s1 = *state;
    let ghost w1 = w@;
    let depth = state.inline_begin();
    let before = state.indent_begin();
    let r = print_inlined_entries(w, state, list);
    state.indent_end(before);
    match depth {
        Some(depth) => state.inline_end(depth),
        None => {},
    }
    proof {
        lemma_printed_and(
            *old(state),
            old(w)@,
            s1,
            w1,
            *state,
            w@,
            true,
            line_option_out(cx, label_text("inlined functions", list@.len())),
            inlined_entries_upto(cx.inlined().deeper(), hash, list@, list@.len() as int),
        );
    }
    r
}

impl InlinedFunction {
    /// What it costs to take an inlined call alone when two lists are aligned.
    pub fn step_cost() -> (cost: usize)
        ensures
            cost == 1,
    {
        1
    }

    /// Prints the inlined call, and below it the calls that were inlined
    /// into it, as far as the levels of inlined calls go.
    pub fn print(&self, w: &mut Vec<u8>, state: &mut PrintState) -> (r: Result<(), Error>)
        ensures
            printed(
                *old(state),
                old(w)@,
                *final(state),
                final(w)@,
                r is Ok,
                inlined_out(old(state).cursor(), old(state).hash, *self),
            ),
            r is Ok,
        decreases old(state).inline_depth, 0int, 0int,
    {
        let ghost cx = state.cursor();
        let ghost hash = state.hash;
        let text = inlined_line(self, state.hash);
        state.line(w, text.as_slice());
        let ghost s1 = *state;
        let ghost w1 = w@;
        match state.inline_begin() {
            Some(depth) => {
                let before = state.indent_begin();
                let r = print_inlined_entries(w, state, self.inlined_functions.as_slice());
                state.indent_end(before);
                state.inline_end(depth);
                proof {
                    lemma_printed_and(
                        *old(state),
                        old(w)@,
                        s1,
                        w1,
                        *state,
                        w@,
                        true,
                        line_out(cx, inlined_text(hash, *self)),
                        inlined_entries_upto(
                            cx.inlined().deeper(),
                            hash,
                            self.inlined_functions@,
                            self.inlined_functions@.len() as int,
                        ),
                    );
                }
                r
            },
            None => {
                proof {
                    lemma_printed_nothing(*state, w@);
                    lemma_printed_and(
                        *old(state),
                        old(w)@,
                        s1,
                        w1,
                        *state,
                        w@,
                        true,
                        line_out(cx, inlined_text(hash, *self)),
                        Out::nothing(),
                    );
                }
                Ok(())
            },
        }
    }
}


impl DiffList for Parameter {
    open spec fn step(&self, hash: &FileHash, arg: &()) -> nat {
        1
    }

    fn step_cost(&self, hash: &FileHash, arg: &()) -> (cost: usize) {
        1
    }

    open spec fn pair(
        hash_a: &FileHash,
        arg_a: &(),
        a: &Parameter,
        hash_b: &FileHash,
        arg_b: &(),
        b: &Parameter,
    ) -> nat {
        crate::identity::entry_pair(hash_a, a.name, a.ty, hash_b, b.name, b.ty)
    }

    fn diff_cost(
        hash_a: &FileHash,
        arg_a: &(),
        a: &Parameter,
        hash_b: &FileHash,
        arg_b: &(),
        b: &Parameter,
    ) -> (cost: usize) {
        Parameter::diff_cost(hash_a, a, hash_b, b)
    }
}

impl DiffList for Call {
    open spec fn step(&self, hash: &FileHash, arg: &()) -> nat {
        1
    }

    fn step_cost(&self, hash: &FileHash, arg: &()) -> (cost: usize) {
        1
    }

    open spec fn pair(
        hash_a: &FileHash,
        arg_a: &(),
        a: &Call,
        hash_b: &FileHash,
        arg_b: &(),
        b: &Call,
    ) -> nat {
        crate::identity::call_pair(hash_a, *a, hash_b, *b)
    }

    fn diff_cost(
        hash_a: &FileHash,
        arg_a: &(),
        a: &Call,
        hash_b: &FileHash,
        arg_b: &(),
        b: &Call,
    ) -> (cost: usize) {
        Call::diff_cost(hash_a, a, hash_b, b)
    }
}


/// The costs of aligning two lists of inlined calls: taking a call alone
/// costs one, and pairing two calls costs one where different functions
/// were inlined and one where the sizes differ.
pub open spec fn inlined_costs(
    hash_a: &FileHash,
    la: Seq<InlinedFunction>,
    hash_b: &FileHash,
    lb: Seq<InlinedFunction>,
) -> Costs {
    list_costs(
        la.len(),
        lb.len(),
        |i: int| 1nat,
        |j: int| 1nat,
        |i: int, j: int| inlined_pair(hash_a, la[i], hash_b, lb[j]),
    )
}

/// Comparing two inlined calls, and below them the calls that were inlined
/// into them, as far as the levels of inlined calls go.
pub open spec fn inlined_diff_out(
    cx: Cursor2,
    hash_a: &FileHash,
    hash_b: &FileHash,
    a: InlinedFunction,
    b: InlinedFunction,
    choice: Choice,
) -> Out2
    decreases cx.a.inline_depth, 0int, 0int,
{
    pair_out(cx, inlined_text(hash_a, a), inlined_text(hash_b, b)).and(
        if cx.a.inline_depth > 0 && cx.b.inline_depth > 0 {
            inlined_entries_diff_out(
                cx.inlined().deeper(),
                hash_a,
                hash_b,
                a.inlined_functions@,
                b.inlined_functions@,
                choice,
            )
        } else {
            Out2::nothing()
        },
    )
}

/// Comparing two lists of inlined calls by a least-cost script.
pub open spec fn inlined_entries_diff_out(
    cx: Cursor2,
    hash_a: &FileHash,
    hash_b: &FileHash,
    la: Seq<InlinedFunction>,
    lb: Seq<InlinedFunction>,
    choice: Choice,
) -> Out2
    decreases cx.a.inline_depth, 2int, 0int,
{
    let c = inlined_costs(hash_a, la, hash_b, lb);
    if !c.fits() {
        Out2::failure()
    } else {
        let body = inlined_steps_out(
            cx,
            hash_a,
            hash_b,
            la,
            lb,
            choice.script,
            choice.subs,
            choice.script.len() as int,
        );
        Out2 { valid: optimal(c, choice.script) && body.valid, ..body }
    }
}

/// The first `k` steps of comparing two lists of inlined calls by a script.
pub open spec fn inlined_steps_out(
    cx: Cursor2,
    hash_a: &FileHash,
    hash_b: &FileHash,
    la: Seq<InlinedFunction>,
    lb: Seq<InlinedFunction>,
    script: Seq<Direction>,
    subs: Seq<Choice>,
    k: int,
) -> Out2
    decreases cx.a.inline_depth, 1int, k,
{
    if k <= 0 {
        Out2::nothing()
    } else {
        inlined_steps_out(cx, hash_a, hash_b, la, lb, script, subs, k - 1).and(
            inlined_move_out(
                cx,
                hash_a,
                hash_b,
                la,
                lb,
                script[k - 1],
                pos_a(script, k - 1),
                pos_b(script, k - 1),
                subs[k - 1],
            ),
        )
    }
}

/// One step of comparing two lists of inlined calls: the calls at `i` and
/// `j` compared, or one of them printed as removed or as added.
pub open spec fn inlined_move_out(
    cx: Cursor2,
    hash_a: &FileHash,
    hash_b: &FileHash,
    la: Seq<InlinedFunction>,
    lb: Seq<InlinedFunction>,
    step: Direction,
    i: int,
    j: int,
    sub: Choice,
) -> Out2
    decreases cx.a.inline_depth, 0int, 1int,
{
    match step {
        Direction::Diagonal => inlined_diff_out(cx, hash_a, hash_b, la[i], lb[j], sub),
        Direction::Horizontal => Out2::on_a(inlined_out(cx.a.marked(DiffPrefix::Less), hash_a, la[i])),
        Direction::Vertical => Out2::on_b(
            inlined_out(cx.b.marked(DiffPrefix::Greater), hash_b, lb[j]),
        ),
        Direction::Start => Out2::nothing(),
    }
}

/// Comparing the calls that were inlined into two functions below their
/// labels, where another level of inlined calls may be entered.
pub open spec fn inlined_list_diff_out(
    cx: Cursor2,
    hash_a: &FileHash,
    hash_b: &FileHash,
    la: Seq<InlinedFunction>,
    lb: Seq<InlinedFunction>,
    choice: Choice,
) -> Out2 {
    if cx.a.inline_depth > 0 && cx.b.inline_depth > 0 {
        pair_out(
            cx,
            label_text("inlined functions", la.len()),
            label_text("inlined functions", lb.len()),
        ).and(inlined_entries_diff_out(cx.inlined().deeper(), hash_a, hash_b, la, lb, choice))
    } else {
        Out2::nothing()
    }
}

/// The output of the first `k` steps depends on the choices for those
/// steps alone.
pub proof fn lemma_inlined_steps_same(
    cx: Cursor2,
    hash_a: &FileHash,
    hash_b: &FileHash,
    la: Seq<InlinedFunction>,
    lb: Seq<InlinedFunction>,
    script: Seq<Direction>,
    subs1: Seq<Choice>,
    subs2: Seq<Choice>,
    k: int,
)
    requires
        forall|t: int| 0 <= t < k ==> subs1[t] == subs2[t],
    ensures
        inlined_steps_out(cx, hash_a, hash_b, la, lb, script, subs1, k) == inlined_steps_out(
            cx,
            hash_a,
            hash_b,
            la,
            lb,
            script,
            subs2,
            k,
        ),
    decreases k,
{
    if k > 0 {
        lemma_inlined_steps_same(cx, hash_a, hash_b, la, lb, script, subs1, subs2, k - 1);
    }
}

/// Once the output of a list of steps has failed, more steps leave it failed.
pub proof fn lemma_inlined_steps_failed(
    cx: Cursor2,
    hash_a: &FileHash,
    hash_b: &FileHash,
    la: Seq<InlinedFunction>,
    lb: Seq<InlinedFunction>,
    script: Seq<Direction>,
    subs: Seq<Choice>,
    n: int,
    m: int,
)
    requires
        n <= m,
        inlined_steps_out(cx, hash_a, hash_b, la, lb, script, subs, n).failed,
    ensures
        inlined_steps_out(cx, hash_a, hash_b, la, lb, script, subs, m).failed,
        inlined_steps_out(cx, hash_a, hash_b, la, lb, script, subs, m).valid == inlined_steps_out(
            cx,
            hash_a,
            hash_b,
            la,
            lb,
            script,
            subs,
            n,
        ).valid,
    decreases m - n,
{
    if n < m {
        lemma_inlined_steps_failed(cx, hash_a, hash_b, la, lb, script, subs, n, m - 1);
    }
}

impl InlinedFunction {
    /// Compares two inlined calls, and below them the calls that were
    /// inlined into them, as far as the levels of inlined calls go.
    pub fn diff(w: &mut Vec<u8>, state: &mut DiffState, a: &InlinedFunction, b: &InlinedFunction) -> (r:
        Result<(), Error>)
        requires
            old(state).wf(),
        ensures
            exists|choice: Choice|
                chosen(
                    #[trigger] inlined_diff_out(
                        old(state).cursor(),
                        old(state).a.hash,
                        old(state).b.hash,
                        *a,
                        *b,
                        choice,
                    ),
                    *old(state),
                    old(w)@,
                    *final(state),
                    final(w)@,
                    r is Ok,
                ),
        decreases old(state).a.inline_depth, 0int, 0int,
    {
        let ghost cx = state.cursor();
        let ghost hash_a = state.a.hash;
        let ghost hash_b = state.b.hash;
        let text_a = inlined_line(a, state.a.hash);
        let text_b = inlined_line(b, state.b.hash);
        state.line(w, text_a.as_slice(), text_b.as_slice());
        let ghost head = pair_out(cx, inlined_text(hash_a, *a), inlined_text(hash_b, *b));
        let ghost s1 = *state;
        let ghost w1 = w@;
        match state.inline_begin() {
            Some(depth) => {
                let before = state.indent_begin();
                let ghost s2 = *state;
                let r = diff_inlined_entries(
                    w,
                    state,
                    a.inlined_functions.as_slice(),
                    b.inlined_functions.as_slice(),
                );
                let ghost s3 = *state;
                state.indent_end(before);
                state.inline_end(depth);
                proof {
                    let choice = choose|choice: Choice|
                        chosen(
                            #[trigger] inlined_entries_diff_out(
                                cx.inlined().deeper(),
                                hash_a,
                                hash_b,
                                a.inlined_functions@,
                                b.inlined_functions@,
                                choice,
                            ),
                            s2,
                            w1,
                            s3,
                            w@,
                            r is Ok,
                        );
                    let body = inlined_entries_diff_out(
                        cx.inlined().deeper(),
                        hash_a,
                        hash_b,
                        a.inlined_functions@,
                        b.inlined_functions@,
                        choice,
                    );
                    assert(diffed(s1, w1, *state, w@, r is Ok, body));
                    lemma_diffed_and(*old(state), old(w)@, s1, w1, *state, w@, r is Ok, head, body);
                    assert(chosen(
                        inlined_diff_out(cx, hash_a, hash_b, *a, *b, choice),
                        *old(state),
                        old(w)@,
                        *state,
                        w@,
                        r is Ok,
                    ));
                }
                r
            },
            None => {
                proof {
                    let choice = Choice { script: Seq::empty(), subs: Seq::empty() };
                    lemma_diffed_nothing(*state, w@);
                    lemma_diffed_and(
                        *old(state),
                        old(w)@,
                        s1,
                        w1,
                        *state,
                        w@,
                        true,
                        head,
                        Out2::nothing(),
                    );
                    assert(chosen(
                        inlined_diff_out(cx, hash_a, hash_b, *a, *b, choice),
                        *old(state),
                        old(w)@,
                        *state,
                        w@,
                        true,
                    ));
                }
                Ok(())
            },
        }
    }
}

/// Takes one step of comparing two lists of inlined calls.
fn inlined_move(
    w: &mut Vec<u8>,
    state: &mut DiffState,
    la: &[InlinedFunction],
    lb: &[InlinedFunction],
    step: Direction,
    ia: usize,
    ib: usize,
) -> (r: (Result<(), Error>, Ghost<Choice>))
    requires
        old(state).wf(),
        step == Direction::Diagonal || step == Direction::Horizontal ==> ia < la@.len(),
        step == Direction::Diagonal || step == Direction::Vertical ==> ib < lb@.len(),
    ensures
        chosen(
            inlined_move_out(
                old(state).cursor(),
                old(state).a.hash,
                old(state).b.hash,
                la@,
                lb@,
                step,
                ia as int,
                ib as int,
                r.1@,
            ),
            *old(state),
            old(w)@,
            *final(state),
            final(w)@,
            r.0 is Ok,
        ),
    decreases old(state).a.inline_depth, 0int, 1int,
{
    let ghost cx = state.cursor();
    let ghost hash_a = state.a.hash;
    let ghost hash_b = state.b.hash;
    let ghost mut sub = Choice { script: Seq::empty(), subs: Seq::empty() };
    let result = match step {
        Direction::Start => {
            proof {
                lemma_diffed_nothing(*state, w@);
            }
            Ok(())
        },
        Direction::Diagonal => {
            let result = InlinedFunction::diff(w, state, &la[ia], &lb[ib]);
            proof {
                sub = choose|sub: Choice|
                    chosen(
                        #[trigger] inlined_diff_out(
                            cx,
                            hash_a,
                            hash_b,
                            la@[ia as int],
                            lb@[ib as int],
                            sub,
                        ),
                        *old(state),
                        old(w)@,
                        *state,
                        w@,
                        result is Ok,
                    );
            }
            result
        },
        Direction::Horizontal => {
            let before = state.a.prefix_begin(DiffPrefix::Less);
            let result = la[ia].print(w, &mut state.a);
            state.a.prefix_end(before);
            result
        },
        Direction::Vertical => {
            let before = state.b.prefix_begin(DiffPrefix::Greater);
            let result = lb[ib].print(w, &mut state.b);
            state.b.prefix_end(before);
            result
        },
    };
    (result, Ghost(sub))
}

/// Compares two lists of inlined calls by a least-cost script.
#[verifier::rlimit(30)]
pub fn diff_inlined_entries(
    w: &mut Vec<u8>,
    state: &mut DiffState,
    la: &[InlinedFunction],
    lb: &[InlinedFunction],
) -> (r: Result<(), Error>)
    requires
        old(state).wf(),
    ensures
        exists|choice: Choice|
            chosen(
                #[trigger] inlined_entries_diff_out(
                    old(state).cursor(),
                    old(state).a.hash,
                    old(state).b.hash,
                    la@,
                    lb@,
                    choice,
                ),
                *old(state),
                old(w)@,
                *final(state),
                final(w)@,
                r is Ok,
            ),
    decreases old(state).a.inline_depth, 2int, 0int,
{
    let hash_a = state.a.hash;
    let hash_b = state.b.hash;
    let ghost cx = state.cursor();
    let ghost c = inlined_costs(hash_a, la@, hash_b, lb@);
    let n = la.len();
    let m = lb.len();
    proof {
        lemma_ones_sum(la@.len(), 0);
        lemma_ones_sum(lb@.len(), 0);
        assert(c.step_a =~= Seq::new(la@.len(), |i: int| 1nat));
        assert(c.step_b =~= Seq::new(lb@.len(), |i: int| 1nat));
    }
    if !lists_fit(n, m, Some(n), Some(m)) {
        proof {
            let choice = Choice { script: Seq::empty(), subs: Seq::empty() };
            assert(chosen(
                inlined_entries_diff_out(cx, hash_a, hash_b, la@, lb@, choice),
                *old(state),
                old(w)@,
                *state,
                w@,
                false,
            ));
        }
        return Err(Error::new("too many inlined functions to compare"));
    }
    let step1 = ones(n);
    let step2 = ones(m);
    let pair = |a: &InlinedFunction, b: &InlinedFunction| -> (cost: usize)
        ensures
            cost == inlined_pair(hash_a, *a, hash_b, *b),
        { InlinedFunction::diff_cost(hash_a, a, hash_b, b) };
    let path = align(la, lb, step1.as_slice(), step2.as_slice(), pair, Ghost(c));
    let ghost script = path@;
    let ghost mut subs: Seq<Choice> = Seq::empty();
    proof {
        lemma_steps_in_range(c, script);
        lemma_diffed_nothing(*state, w@);
    }
    let mut ia: usize = 0;
    let mut ib: usize = 0;
    let mut k: usize = 0;
    let mut result: Result<(), Error> = Ok(());
    while k < path.len() && result.is_ok()
        invariant
            n == la@.len(),
            m == lb@.len(),
            k <= script.len(),
            script == path@,
            steps_in_range(script, la@.len() as int, lb@.len() as int),
            ia == pos_a(script, k as int),
            ib == pos_b(script, k as int),
            subs.len() == k,
            old(state).wf(),
            hash_a == old(state).a.hash,
            hash_b == old(state).b.hash,
            cx == old(state).cursor(),
            inlined_steps_out(cx, hash_a, hash_b, la@, lb@, script, subs, k as int).valid,
            diffed(
                *old(state),
                old(w)@,
                *state,
                w@,
                result is Ok,
                inlined_steps_out(cx, hash_a, hash_b, la@, lb@, script, subs, k as int),
            ),
        decreases script.len() - k + (if result is Ok { 1int } else { 0int }),
    {
        let ghost s_k = *state;
        let ghost w_k = w@;
        let ghost subs_k = subs;
        proof {
            assert(pos_a(script, k + 1) == pos_a(script, k as int) + crate::path::takes_a(
                script[k as int],
            ));
            assert(pos_b(script, k + 1) == pos_b(script, k as int) + crate::path::takes_b(
                script[k as int],
            ));
        }
        let step = path[k];
        let (moved, chose) = inlined_move(w, state, la, lb, step, ia, ib);
        result = moved;
        match step {
            Direction::Start => {},
            Direction::Diagonal => {
                ia += 1;
                ib += 1;
            },
            Direction::Horizontal => {
                ia += 1;
            },
            Direction::Vertical => {
                ib += 1;
            },
        }
        proof {
            subs = subs_k.push(chose@);
            lemma_inlined_steps_same(cx, hash_a, hash_b, la@, lb@, script, subs_k, subs, k as int);
            let done = inlined_steps_out(cx, hash_a, hash_b, la@, lb@, script, subs, k as int);
            let this = inlined_move_out(
                cx,
                hash_a,
                hash_b,
                la@,
                lb@,
                script[k as int],
                pos_a(script, k as int),
                pos_b(script, k as int),
                subs[k as int],
            );
            assert(subs[k as int] == chose@);
            assert(diffed(s_k, w_k, *state, w@, result is Ok, this));
            lemma_diffed_and(*old(state), old(w)@, s_k, w_k, *state, w@, result is Ok, done, this);
            assert(inlined_steps_out(cx, hash_a, hash_b, la@, lb@, script, subs, k + 1) == done.and(
                this,
            ));
        }
        k += 1;
    }
    proof {
        let choice = Choice { script, subs };
        if result is Err {
            lemma_inlined_steps_failed(
                cx,
                hash_a,
                hash_b,
                la@,
                lb@,
                script,
                subs,
                k as int,
                script.len() as int,
            );
        }
        assert(chosen(
            inlined_entries_diff_out(cx, hash_a, hash_b, la@, lb@, choice),
            *old(state),
            old(w)@,
            *state,
            w@,
            result is Ok,
        ));
    }
    result
}

/// Compares the calls that were inlined into two functions below their
/// labels, where another level of inlined calls may be entered.
pub fn diff_inlined_list(
    w: &mut Vec<u8>,
    state: &mut DiffState,
    la: &[InlinedFunction],
    lb: &[InlinedFunction],
) -> (r: Result<(), Error>)
    requires
        old(state).wf(),
    ensures
        exists|choice: Choice|
            chosen(
                #[trigger] inlined_list_diff_out(
                    old(state).cursor(),
                    old(state).a.hash,
                    old(state).b.hash,
                    la@,
                    lb@,
                    choice,
                ),
                *old(state),
                old(w)@,
                *final(state),
                final(w)@,
                r is Ok,
            ),
{
    let ghost cx = state.cursor();
    let ghost hash_a = state.a.hash;
    let ghost hash_b = state.b.hash;
    if state.a.inline_depth == 0 || state.b.inline_depth == 0 {
        proof {
            let choice = Choice { script: Seq::empty(), subs: Seq::empty() };
            lemma_diffed_nothing(*state, w@);
            assert(chosen(
                inlined_list_diff_out(cx, hash_a, hash_b, la@, lb@, choice),
                *old(state),
                old(w)@,
                *state,
                w@,
                true,
            ));
        }
        return Ok(());
    }
    let text_a = list_label("inlined functions", la.len());
    let text_b = list_label("inlined functions", lb.len());
    state.line_option(w, text_a.as_slice(), text_b.as_slice());
    let ghost s1 = *state;
    let ghost w1 = w@;
    let depth = state.inline_begin();
    let before = state.indent_begin();
    let ghost s2 = *state;
    let r = diff_inlined_entries(w, state, la, lb);
    let ghost s3 = *state;
    state.indent_end(before);
    match depth {
        Some(depth) => state.inline_end(depth),
        None => {},
    }
    proof {
        let choice = choose|choice: Choice|
            chosen(
                #[trigger] inlined_entries_diff_out(
                    cx.inlined().deeper(),
                    hash_a,
                    hash_b,
                    la@,
                    lb@,
                    choice,
                ),
                s2,
                w1,
                s3,
                w@,
                r is Ok,
            );
        let head = pair_out(
            cx,
            label_text("inlined functions", la@.len()),
            label_text("inlined functions", lb@.len()),
        );
        let body = inlined_entries_diff_out(
            cx.inlined().deeper(),
            hash_a,
            hash_b,
            la@,
            lb@,
            choice,
        );
        assert(diffed(s1, w1, *state, w@, r is Ok, body));
        lemma_diffed_and(*old(state), old(w)@, s1, w1, *state, w@, r is Ok, head, body);
        assert(chosen(
            inlined_list_diff_out(cx, hash_a, hash_b, la@, lb@, choice),
            *old(state),
            old(w)@,
            *state,
            w@,
            r is Ok,
        ));
    }
    r
}


/// Printing a function: its line, and one level further in its names, its
/// address, its size, whether it is inline or a declaration only, the type
/// that it returns, its parameters, and as the options ask for them its
/// local variables, the calls that were inlined into it and the calls that
/// it makes.
pub open spec fn function_out(cx: Cursor, hash: &FileHash, options: &Flags, f: &Function) -> Out {
    let d = cx.deeper();
    line_out(cx, function_text(f)).and(
        line_option_out(d, named_text("linkage name", f.linkage_name)),
    ).and(line_option_out(d, named_text("symbol name", f.symbol_name))).and(
        line_option_out(d, address_text(f.low_pc, f.high_pc)),
    ).and(line_option_out(d, size_text(f.size))).and(line_option_out(d, inline_text(f.inline))).and(
        line_option_out(d, declaration_text(f.declaration)),
    ).and(line_option_out(d, return_label_text(f))).and(
        line_option_out(d.deeper(), return_type_text(hash, f)),
    ).and(list_out::<Parameter>(d, hash, options, "parameters", &(), f.parameters@)).and(
        if options.function_variables {
            list_out::<LocalVariable>(d, hash, options, "variables", &(), f.variables@)
        } else {
            Out::nothing()
        },
    ).and(inlined_list_out(d, hash, f.inlined_functions@)).and(
        if options.calls {
            list_out::<Call>(d, hash, options, "calls", &(), f.calls@)
        } else {
            Out::nothing()
        },
    )
}

/// Comparing two functions. Where the addresses, the sizes or the inlining
/// of functions are to be ignored, it is not remembered whether these
/// differ. The local variables are compared in the order of their names.
pub open spec fn function_diff_out(
    cx: Cursor2,
    hash_a: &FileHash,
    hash_b: &FileHash,
    options: &Flags,
    a: &Function,
    b: &Function,
    choice: Choice,
) -> Out2 {
    let d = cx.deeper();
    Out2::nothing().and(pair_out(cx, function_text(a), function_text(b)).ignored(false)).and(
        pair_out(
            d,
            named_text("linkage name", a.linkage_name),
            named_text("linkage name", b.linkage_name),
        ).ignored(false),
    ).and(
        pair_out(
            d,
            named_text("symbol name", a.symbol_name),
            named_text("symbol name", b.symbol_name),
        ).ignored(false),
    ).and(
        pair_out(d, address_text(a.low_pc, a.high_pc), address_text(b.low_pc, b.high_pc)).ignored(
            options.ignore_function_address,
        ),
    ).and(pair_out(d, size_text(a.size), size_text(b.size)).ignored(options.ignore_function_size)).and(
        pair_out(d, inline_text(a.inline), inline_text(b.inline)).ignored(
            options.ignore_function_inline,
        ),
    ).and(
        pair_out(d, declaration_text(a.declaration), declaration_text(b.declaration)).ignored(false),
    ).and(pair_out(d, return_label_text(a), return_label_text(b)).ignored(false)).and(
        pair_out(d.deeper(), return_type_text(hash_a, a), return_type_text(hash_b, b)).ignored(false),
    ).and(
        diff_list_out::<Parameter>(
            d,
            hash_a,
            hash_b,
            options,
            "parameters",
            &(),
            a.parameters@,
            &(),
            b.parameters@,
            choice.subs[0],
        ),
    ).and(
        if options.function_variables {
            diff_list_out::<&LocalVariable>(
                d,
                hash_a,
                hash_b,
                options,
                "variables",
                &(),
                sorted_locals(a.variables@),
                &(),
                sorted_locals(b.variables@),
                choice.subs[1],
            )
        } else {
            Out2::nothing()
        },
    ).and(
        inlined_list_diff_out(
            d,
            hash_a,
            hash_b,
            a.inlined_functions@,
            b.inlined_functions@,
            choice.subs[2],
        ),
    ).and(
        if options.calls {
            diff_list_out::<Call>(
                d,
                hash_a,
                hash_b,
                options,
                "calls",
                &(),
                a.calls@,
                &(),
                b.calls@,
                choice.subs[3],
            )
        } else {
            Out2::nothing()
        },
    )
}

/// Gives the line of a function.
pub fn function_line(f: &Function) -> (text: Vec<u8>)
    ensures
        text@ == function_text(f),
{
    let mut text: Vec<u8> = Vec::new();
    proof {
        assert(text@ + function_text(f) =~= function_text(f));
    }
    print_name_line(f, &mut text);
    text
}

/// Gives the line that says that a function is inline.
pub fn inline_line(inline: bool) -> (text: Vec<u8>)
    ensures
        text@ == inline_text(inline),
{
    broadcast use group_bytes;

    let mut text: Vec<u8> = Vec::new();
    if inline {
        put_str(&mut text, "inline: yes");
    }
    text
}

/// Gives the label of the type that a function returns.
pub fn return_label_line(f: &Function) -> (text: Vec<u8>)
    ensures
        text@ == return_label_text(f),
{
    let mut text: Vec<u8> = Vec::new();
    proof {
        assert(text@ + return_label_text(f) =~= return_label_text(f));
    }
    print_return_type_label(f, &mut text);
    text
}

/// Gives the line of the type that a function returns.
pub fn return_type_line(f: &Function, hash: &FileHash) -> (text: Vec<u8>)
    ensures
        text@ == return_type_text(hash, f),
{
    let mut text: Vec<u8> = Vec::new();
    proof {
        assert(text@ + return_type_text(hash, f) =~= return_type_text(hash, f));
    }
    print_return_type(f, &mut text, hash);
    text
}

/// The first lines of a function: its line, and one level further in its
/// names, its address, its size, whether it is inline or a declaration
/// only, and the type that it returns.
pub open spec fn function_head_out(cx: Cursor, hash: &FileHash, f: &Function) -> Out {
    let d = cx.deeper();
    line_out(cx, function_text(f)).and(
        line_option_out(d, named_text("linkage name", f.linkage_name)),
    ).and(line_option_out(d, named_text("symbol name", f.symbol_name))).and(
        line_option_out(d, address_text(f.low_pc, f.high_pc)),
    ).and(line_option_out(d, size_text(f.size))).and(line_option_out(d, inline_text(f.inline))).and(
        line_option_out(d, declaration_text(f.declaration)),
    ).and(line_option_out(d, return_label_text(f))).and(
        line_option_out(d.deeper(), return_type_text(hash, f)),
    )
}

/// Prints the first lines of a function. Leaves the cursor one level
/// further in, and says how far lines were indented before.
fn print_function_head(f: &Function, w: &mut Vec<u8>, state: &mut PrintState) -> (before: usize)
    ensures
        before == old(state).indent,
        printed(
            PrintState { indent: old(state).cursor().deeper().indent, ..*old(state) },
            old(w)@,
            *final(state),
            final(w)@,
            true,
            function_head_out(old(state).cursor(), old(state).hash, f),
        ),
{
    let ghost cx = state.cursor();
    let ghost d = cx.deeper();
    let ghost hash = state.hash;
    let ghost w0 = w@;
    let text = function_line(f);
    state.line(w, text.as_slice());
    let ghost start = PrintState { indent: d.indent, ..*old(state) };
    let ghost o1 = line_out(cx, function_text(f));
    let before = state.indent_begin();
    let text = named_line("linkage name", &f.linkage_name);
    state.line_option_then(w, text.as_slice(), Ghost(start), Ghost(w0), Ghost(o1));
    let ghost o2 = o1.and(line_option_out(d, named_text("linkage name", f.linkage_name)));
    let text = named_line("symbol name", &f.symbol_name);
    state.line_option_then(w, text.as_slice(), Ghost(start), Ghost(w0), Ghost(o2));
    let ghost o3 = o2.and(line_option_out(d, named_text("symbol name", f.symbol_name)));
    let text = address_line(f.low_pc, f.high_pc);
    state.line_option_then(w, text.as_slice(), Ghost(start), Ghost(w0), Ghost(o3));
    let ghost o4 = o3.and(line_option_out(d, address_text(f.low_pc, f.high_pc)));
    let text = size_line(f.size);
    state.line_option_then(w, text.as_slice(), Ghost(start), Ghost(w0), Ghost(o4));
    let ghost o5 = o4.and(line_option_out(d, size_text(f.size)));
    let text = inline_line(f.inline);
    state.line_option_then(w, text.as_slice(), Ghost(start), Ghost(w0), Ghost(o5));
    let ghost o6 = o5.and(line_option_out(d, inline_text(f.inline)));
    let text = declaration_line(f.declaration);
    state.line_option_then(w, text.as_slice(), Ghost(start), Ghost(w0), Ghost(o6));
    let ghost o7 = o6.and(line_option_out(d, declaration_text(f.declaration)));
    let text = return_label_line(f);
    state.line_option_then(w, text.as_slice(), Ghost(start), Ghost(w0), Ghost(o7));
    let ghost o8 = o7.and(line_option_out(d, return_label_text(f)));
    let inner = state.indent_begin();
    let ghost start2 = PrintState { indent: d.deeper().indent, ..*old(state) };
    let text = return_type_line(f, state.hash);
    state.line_option_then(w, text.as_slice(), Ghost(start2), Ghost(w0), Ghost(o8));
    state.indent_end(inner);
    before
}

impl Function {
    /// Prints the function.
    pub fn print(&self, w: &mut Vec<u8>, state: &mut PrintState) -> (r: Result<(), Error>)
        ensures
            printed(
                *old(state),
                old(w)@,
                *final(state),
                final(w)@,
                r is Ok,
                function_out(old(state).cursor(), old(state).hash, old(state).options, self),
            ),
    {
        let ghost cx = state.cursor();
        let ghost d = cx.deeper();
        let ghost hash = state.hash;
        let ghost options = state.options;
        let ghost w0 = w@;
        let ghost start = PrintState { indent: d.indent, ..*old(state) };
        let before = print_function_head(self, w, state);
        let ghost o9 = function_head_out(cx, hash, self);
        let ghost s9 = *state;
        let ghost w9 = w@;
        let r = state.list::<Parameter>("parameters", w, &(), self.parameters.as_slice());
        let ghost o10 = o9.and(list_out::<Parameter>(d, hash, options, "parameters", &(), self.parameters@));
        proof {
            lemma_printed_and(
                start,
                w0,
                s9,
                w9,
                *state,
                w@,
                r is Ok,
                o9,
                list_out::<Parameter>(d, hash, options, "parameters", &(), self.parameters@),
            );
        }
        if r.is_err() {
            state.indent_end(before);
            return r;
        }
        let ghost s10 = *state;
        let ghost w10 = w@;
        let ghost vars = if options.function_variables {
            list_out::<LocalVariable>(d, hash, options, "variables", &(), self.variables@)
        } else {
            Out::nothing()
        };
        let r = if state.options.function_variables {
            state.list::<LocalVariable>("variables", w, &(), self.variables.as_slice())
        } else {
            proof {
                lemma_printed_nothing(*state, w@);
            }
            Ok(())
        };
        let ghost o11 = o10.and(vars);
        proof {
            lemma_printed_and(start, w0, s10, w10, *state, w@, r is Ok, o10, vars);
        }
        if r.is_err() {
            state.indent_end(before);
            return r;
        }
        let ghost s11 = *state;
        let ghost w11 = w@;
        let r = print_inlined_list(w, state, self.inlined_functions.as_slice());
        let ghost o12 = o11.and(inlined_list_out(d, hash, self.inlined_functions@));
        proof {
            lemma_printed_and(
                start,
                w0,
                s11,
                w11,
                *state,
                w@,
                true,
                o11,
                inlined_list_out(d, hash, self.inlined_functions@),
            );
        }
        let ghost s12 = *state;
        let ghost w12 = w@;
        let ghost calls = if options.calls {
            list_out::<Call>(d, hash, options, "calls", &(), self.calls@)
        } else {
            Out::nothing()
        };
        let r = if state.options.calls {
            state.list::<Call>("calls", w, &(), self.calls.as_slice())
        } else {
            proof {
                lemma_printed_nothing(*state, w@);
            }
            Ok(())
        };
        proof {
            lemma_printed_and(start, w0, s12, w12, *state, w@, r is Ok, o12, calls);
        }
        state.indent_end(before);
        r
    }
}

/// The first lines of two functions, compared.
pub open spec fn function_head_diff_out(
    cx: Cursor2,
    hash_a: &FileHash,
    hash_b: &FileHash,
    options: &Flags,
    a: &Function,
    b: &Function,
) -> Out2 {
    let d = cx.deeper();
    Out2::nothing().and(pair_out(cx, function_text(a), function_text(b)).ignored(false)).and(
        pair_out(
            d,
            named_text("linkage name", a.linkage_name),
            named_text("linkage name", b.linkage_name),
        ).ignored(false),
    ).and(
        pair_out(
            d,
            named_text("symbol name", a.symbol_name),
            named_text("symbol name", b.symbol_name),
        ).ignored(false),
    ).and(
        pair_out(d, address_text(a.low_pc, a.high_pc), address_text(b.low_pc, b.high_pc)).ignored(
            options.ignore_function_address,
        ),
    ).and(pair_out(d, size_text(a.size), size_text(b.size)).ignored(options.ignore_function_size)).and(
        pair_out(d, inline_text(a.inline), inline_text(b.inline)).ignored(
            options.ignore_function_inline,
        ),
    ).and(
        pair_out(d, declaration_text(a.declaration), declaration_text(b.declaration)).ignored(false),
    ).and(pair_out(d, return_label_text(a), return_label_text(b)).ignored(false)).and(
        pair_out(d.deeper(), return_type_text(hash_a, a), return_type_text(hash_b, b)).ignored(false),
    )
}

/// Compares the first lines of two functions. Leaves the cursors one level
/// further in, and says how far lines were indented before.
fn diff_function_head(a: &Function, b: &Function, w: &mut Vec<u8>, state: &mut DiffState) -> (before: (
    usize,
    usize,
))
    requires
        old(state).wf(),
    ensures
        before == (old(state).a.indent, old(state).b.indent),
        final(state).wf(),
        diffed(
            DiffState {
                a: PrintState { indent: old(state).a.cursor().deeper().indent, ..old(state).a },
                b: PrintState { indent: old(state).b.cursor().deeper().indent, ..old(state).b },
                ..*old(state)
            },
            old(w)@,
            *final(state),
            final(w)@,
            true,
            function_head_diff_out(
                old(state).cursor(),
                old(state).a.hash,
                old(state).b.hash,
                old(state).options,
                a,
                b,
            ),
        ),
{
    let ghost cx = state.cursor();
    let ghost d = cx.deeper();
    let ghost hash_a = state.a.hash;
    let ghost hash_b = state.b.hash;
    let ghost w0 = w@;
    let options = state.options;
    proof {
        lemma_diffed_nothing(*state, w@);
    }
    let text_a = function_line(a);
    let text_b = function_line(b);
    state.line_then(
        w,
        text_a.as_slice(),
        text_b.as_slice(),
        false,
        Ghost(*old(state)),
        Ghost(w0),
        Ghost(Out2::nothing()),
    );
    let ghost start = DiffState {
        a: PrintState { indent: d.a.indent, ..old(state).a },
        b: PrintState { indent: d.b.indent, ..old(state).b },
        ..*old(state)
    };
    let ghost o1 = Out2::nothing().and(pair_out(cx, function_text(a), function_text(b)).ignored(false));
    let before = state.indent_begin();
    let text_a = named_line("linkage name", &a.linkage_name);
    let text_b = named_line("linkage name", &b.linkage_name);
    state.line_then(w, text_a.as_slice(), text_b.as_slice(), false, Ghost(start), Ghost(w0), Ghost(o1));
    let ghost o2 = o1.and(
        pair_out(
            d,
            named_text("linkage name", a.linkage_name),
            named_text("linkage name", b.linkage_name),
        ).ignored(false),
    );
    let text_a = named_line("symbol name", &a.symbol_name);
    let text_b = named_line("symbol name", &b.symbol_name);
    state.line_then(w, text_a.as_slice(), text_b.as_slice(), false, Ghost(start), Ghost(w0), Ghost(o2));
    let ghost o3 = o2.and(
        pair_out(
            d,
            named_text("symbol name", a.symbol_name),
            named_text("symbol name", b.symbol_name),
        ).ignored(false),
    );
    let text_a = address_line(a.low_pc, a.high_pc);
    let text_b = address_line(b.low_pc, b.high_pc);
    state.line_then(
        w,
        text_a.as_slice(),
        text_b.as_slice(),
        options.ignore_function_address,
        Ghost(start),
        Ghost(w0),
        Ghost(o3),
    );
    let ghost o4 = o3.and(
        pair_out(d, address_text(a.low_pc, a.high_pc), address_text(b.low_pc, b.high_pc)).ignored(
            options.ignore_function_address,
        ),
    );
    let text_a = size_line(a.size);
    let text_b = size_line(b.size);
    state.line_then(
        w,
        text_a.as_slice(),
        text_b.as_slice(),
        options.ignore_function_size,
        Ghost(start),
        Ghost(w0),
        Ghost(o4),
    );
    let ghost o5 = o4.and(
        pair_out(d, size_text(a.size), size_text(b.size)).ignored(options.ignore_function_size),
    );
    let text_a = inline_line(a.inline);
    let text_b = inline_line(b.inline);
    state.line_then(
        w,
        text_a.as_slice(),
        text_b.as_slice(),
        options.ignore_function_inline,
        Ghost(start),
        Ghost(w0),
        Ghost(o5),
    );
    let ghost o6 = o5.and(
        pair_out(d, inline_text(a.inline), inline_text(b.inline)).ignored(
            options.ignore_function_inline,
        ),
    );
    let text_a = declaration_line(a.declaration);
    let text_b = declaration_line(b.declaration);
    state.line_then(w, text_a.as_slice(), text_b.as_slice(), false, Ghost(start), Ghost(w0), Ghost(o6));
    let ghost o7 = o6.and(
        pair_out(d, declaration_text(a.declaration), declaration_text(b.declaration)).ignored(false),
    );
    let text_a = return_label_line(a);
    let text_b = return_label_line(b);
    state.line_then(w, text_a.as_slice(), text_b.as_slice(), false, Ghost(start), Ghost(w0), Ghost(o7));
    let ghost o8 = o7.and(pair_out(d, return_label_text(a), return_label_text(b)).ignored(false));
    let inner = state.indent_begin();
    let ghost start2 = DiffState {
        a: PrintState { indent: d.a.deeper().indent, ..old(state).a },
        b: PrintState { indent: d.b.deeper().indent, ..old(state).b },
        ..*old(state)
    };
    let text_a = return_type_line(a, state.a.hash);
    let text_b = return_type_line(b, state.b.hash);
    state.line_then(w, text_a.as_slice(), text_b.as_slice(), false, Ghost(start2), Ghost(w0), Ghost(o8));
    state.indent_end(inner);
    before
}

impl Function {
    /// Compares two functions.
    #[verifier::rlimit(30)]
    pub fn diff(w: &mut Vec<u8>, state: &mut DiffState, a: &Function, b: &Function) -> (r: Result<
        (),
        Error,
    >)
        requires
            old(state).wf(),
        ensures
            exists|choice: Choice|
                chosen(
                    #[trigger] function_diff_out(
                        old(state).cursor(),
                        old(state).a.hash,
                        old(state).b.hash,
                        old(state).options,
                        a,
                        b,
                        choice,
                    ),
                    *old(state),
                    old(w)@,
                    *final(state),
                    final(w)@,
                    r is Ok,
                ),
    {
        let ghost cx = state.cursor();
        let ghost d = cx.deeper();
        let ghost hash_a = state.a.hash;
        let ghost hash_b = state.b.hash;
        let ghost options = state.options;
        let ghost w0 = w@;
        let ghost none = Choice { script: Seq::empty(), subs: Seq::empty() };
        let ghost start = DiffState {
            a: PrintState { indent: d.a.indent, ..old(state).a },
            b: PrintState { indent: d.b.indent, ..old(state).b },
            ..*old(state)
        };
        let before = diff_function_head(a, b, w, state);
        let ghost o9 = function_head_diff_out(cx, hash_a, hash_b, options, a, b);

        // Parameters.
        let ghost s9 = *state;
        let ghost w9 = w@;
        let r = state.list::<Parameter>(
            "parameters",
            w,
            &(),
            a.parameters.as_slice(),
            &(),
            b.parameters.as_slice(),
        );
        let ghost c0 = choose|choice: Choice|
            chosen(
                #[trigger] diff_list_out::<Parameter>(
                    d,
                    hash_a,
                    hash_b,
                    options,
                    "parameters",
                    &(),
                    a.parameters@,
                    &(),
                    b.parameters@,
                    choice,
                ),
                s9,
                w9,
                *state,
                w@,
                r is Ok,
            );
        let ghost d0 = diff_list_out::<Parameter>(
            d,
            hash_a,
            hash_b,
            options,
            "parameters",
            &(),
            a.parameters@,
            &(),
            b.parameters@,
            c0,
        );
        let ghost o10 = o9.and(d0);
        proof {
            lemma_diffed_and(start, w0, s9, w9, *state, w@, r is Ok, o9, d0);
        }
        if r.is_err() {
            state.indent_end(before);
            proof {
                let choice = Choice { script: Seq::empty(), subs: seq![c0, none, none, none] };
                assert(chosen(
                    function_diff_out(cx, hash_a, hash_b, options, a, b, choice),
                    *old(state),
                    old(w)@,
                    *state,
                    w@,
                    false,
                ));
            }
            return r;
        }
        // Local variables, in the order of their names.
        let ghost s10 = *state;
        let ghost w10 = w@;
        let mut r: Result<(), Error> = Ok(());
        let ghost mut c1 = none;
        if state.options.function_variables {
            let variables_a = sort_locals(state.a.hash, a.variables.as_slice());
            let variables_b = sort_locals(state.b.hash, b.variables.as_slice());
            r = state.list::<&LocalVariable>(
                "variables",
                w,
                &(),
                variables_a.as_slice(),
                &(),
                variables_b.as_slice(),
            );
            proof {
                c1 = choose|choice: Choice|
                    chosen(
                        #[trigger] diff_list_out::<&LocalVariable>(
                            d,
                            hash_a,
                            hash_b,
                            options,
                            "variables",
                            &(),
                            sorted_locals(a.variables@),
                            &(),
                            sorted_locals(b.variables@),
                            choice,
                        ),
                        s10,
                        w10,
                        *state,
                        w@,
                        r is Ok,
                    );
            }
        } else {
            proof {
                lemma_diffed_nothing(*state, w@);
            }
        }
        let ghost d1 = if options.function_variables {
            diff_list_out::<&LocalVariable>(
                d,
                hash_a,
                hash_b,
                options,
                "variables",
                &(),
                sorted_locals(a.variables@),
                &(),
                sorted_locals(b.variables@),
                c1,
            )
        } else {
            Out2::nothing()
        };
        let ghost o11 = o10.and(d1);
        proof {
            lemma_diffed_and(start, w0, s10, w10, *state, w@, r is Ok, o10, d1);
        }
        if r.is_err() {
            state.indent_end(before);
            proof {
                let choice = Choice { script: Seq::empty(), subs: seq![c0, c1, none, none] };
                assert(chosen(
                    function_diff_out(cx, hash_a, hash_b, options, a, b, choice),
                    *old(state),
                    old(w)@,
                    *state,
                    w@,
                    false,
                ));
            }
            return r;
        }
        // Inlined calls.
        let ghost s11 = *state;
        let ghost w11 = w@;
        let r = diff_inlined_list(
            w,
            state,
            a.inlined_functions.as_slice(),
            b.inlined_functions.as_slice(),
        );
        let ghost c2 = choose|choice: Choice|
            chosen(
                #[trigger] inlined_list_diff_out(
                    d,
                    hash_a,
                    hash_b,
                    a.inlined_functions@,
                    b.inlined_functions@,
                    choice,
                ),
                s11,
                w11,
                *state,
                w@,
                r is Ok,
            );
        let ghost d2 = inlined_list_diff_out(
            d,
            hash_a,
            hash_b,
            a.inlined_functions@,
            b.inlined_functions@,
            c2,
        );
        let ghost o12 = o11.and(d2);
        proof {
            lemma_diffed_and(start, w0, s11, w11, *state, w@, r is Ok, o11, d2);
        }
        if r.is_err() {
            state.indent_end(before);
            proof {
                let choice = Choice { script: Seq::empty(), subs: seq![c0, c1, c2, none] };
                assert(chosen(
                    function_diff_out(cx, hash_a, hash_b, options, a, b, choice),
                    *old(state),
                    old(w)@,
                    *state,
                    w@,
                    false,
                ));
            }
            return r;
        }
        // Calls.
        let ghost s12 = *state;
        let ghost w12 = w@;
        let mut r: Result<(), Error> = Ok(());
        let ghost mut c3 = none;
        if state.options.calls {
            r = state.list::<Call>("calls", w, &(), a.calls.as_slice(), &(), b.calls.as_slice());
            proof {
                c3 = choose|choice: Choice|
                    chosen(
                        #[trigger] diff_list_out::<Call>(
                            d,
                            hash_a,
                            hash_b,
                            options,
                            "calls",
                            &(),
                            a.calls@,
                            &(),
                            b.calls@,
                            choice,
                        ),
                        s12,
                        w12,
                        *state,
                        w@,
                        r is Ok,
                    );
            }
        } else {
            proof {
                lemma_diffed_nothing(*state, w@);
            }
        }
        let ghost d3 = if options.calls {
            diff_list_out::<Call>(d, hash_a, hash_b, options, "calls", &(), a.calls@, &(), b.calls@, c3)
        } else {
            Out2::nothing()
        };
        proof {
            lemma_diffed_and(start, w0, s12, w12, *state, w@, r is Ok, o12, d3);
        }
        state.indent_end(before);
        proof {
            let choice = Choice { script: Seq::empty(), subs: seq![c0, c1, c2, c3] };
            assert(chosen(
                function_diff_out(cx, hash_a, hash_b, options, a, b, choice),
                *old(state),
                old(w)@,
                *state,
                w@,
                r is Ok,
            ));
        }
        r
    }
}

} // verus!
