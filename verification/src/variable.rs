//! Global and local variables.
use std::rc::Rc;
use vstd::prelude::*;
use vstd::string::StringSliceAdditionalSpecFns;
use crate::file::FileHash;
use crate::function::{address_line, address_text, named_line, named_text, print_sized, sized_text};
use crate::identity::{entry_pair, variable_size};
use crate::list::{chosen, Choice, DiffList, Print};
use crate::namespace::{name_text, ns_text, print_name, print_namespace, Namespace};
use crate::print::{
    diffed, line_option_out, line_out, pair_out, printed, Cursor, Cursor2, DiffState, Out, Out2,
    PrintState,
};
use crate::seqs::group_bytes;
use crate::text::put_str;
use crate::type_print::{declaration_line, declaration_text, size_line, size_text};
use crate::types::{ref_at, Type, TypeOffset};
use crate::{Error, Flags};

verus! {

/// Where a variable stands in the debugging information.
///
/// This is unique for all variables in a file.
#[derive(Debug, Clone, Copy, PartialEq, Eq, Structural)]
pub struct VariableOffset(pub usize);

/// The place in the source that an entry was declared at.
#[derive(Debug)]
pub struct Source {
    pub directory: Option<Vec<u8>>,
    pub file: Option<Vec<u8>>,
    pub line: u32,
    pub column: u32,
}

/// A range of addresses, from `begin` up to `end`.
#[derive(Debug, Clone, Copy, PartialEq, Eq, Structural)]
pub struct Range {
    pub begin: u64,
    pub end: u64,
}

/// A global variable.
#[derive(Debug)]
pub struct Variable {
    pub id: usize,
    pub offset: VariableOffset,
    pub namespace: Option<Rc<Namespace>>,
    pub name: Option<Vec<u8>>,
    pub linkage_name: Option<Vec<u8>>,
    pub symbol_name: Option<Vec<u8>>,
    pub ty: Option<TypeOffset>,
    pub source: Source,
    pub address: Option<u64>,
    pub size: Option<u64>,
    pub declaration: bool,
}

/// A local variable.
#[derive(Debug)]
pub struct LocalVariable {
    pub offset: VariableOffset,
    pub name: Option<Vec<u8>>,
    pub ty: Option<TypeOffset>,
    pub source: Source,
    pub address: Option<u64>,
    pub size: Option<u64>,
}


impl VariableOffset {
    /// The offset `offset`, which must not be the one that stands for no
    /// offset.
    pub fn new(offset: usize) -> (o: VariableOffset)
        requires
            offset != usize::MAX,
        ensures
            o == VariableOffset(offset),
    {
        VariableOffset(offset)
    }

    /// What stands for no offset.
    pub fn none() -> (o: VariableOffset)
        ensures
            o == VariableOffset(usize::MAX),
    {
        VariableOffset(usize::MAX)
    }
}

impl Default for VariableOffset {
    fn default() -> (o: VariableOffset)
        ensures
            o == VariableOffset(usize::MAX),
    {
        VariableOffset::none()
    }
}

/// The bytes of a name, where there is a name.
pub fn name_of(name: &Option<Vec<u8>>) -> (bytes: Option<&[u8]>)
    ensures
        match bytes {
            Some(bytes) => *name is Some && bytes@ == name->Some_0@,
            None => *name is None,
        },
{
    match name {
        Some(name) => Some(name.as_slice()),
        None => None,
    }
}

/// The range of `size` addresses from `address` on, where both are known
/// and the range ends at an address.
pub open spec fn range_of(address: Option<u64>, size: Option<u64>) -> Option<Range> {
    match (address, size) {
        (Some(begin), Some(size)) => if begin + size <= u64::MAX {
            Some(Range { begin, end: (begin + size) as u64 })
        } else {
            None
        },
        _ => None,
    }
}

/// The name of a variable within its namespace.
pub open spec fn variable_ref(v: &Variable) -> Seq<u8> {
    ns_text(v.namespace) + name_text(v.name, "<anon>")
}

/// The line of a variable: its name and its type.
pub open spec fn variable_text(hash: &FileHash, v: &Variable) -> Seq<u8> {
    "var ".spec_bytes() + variable_ref(v) + ": ".spec_bytes() + ref_at(hash, v.ty, hash.depth())
}

/// The line of a local variable: its size, its name and its type.
pub open spec fn local_text(hash: &FileHash, v: LocalVariable) -> Seq<u8> {
    sized_text(variable_size(hash, v.size, v.ty)) + "\t".spec_bytes() + name_text(v.name, "<anon>")
        + ": ".spec_bytes() + ref_at(hash, v.ty, hash.depth())
}

/// Printing a variable: its line, and one level further in its linkage
/// name, the name of its symbol, its address, its size and whether it is a
/// declaration only.
pub open spec fn variable_out(cx: Cursor, hash: &FileHash, v: &Variable) -> Out {
    line_out(cx, variable_text(hash, v)).and(
        line_option_out(cx.deeper(), named_text("linkage name", v.linkage_name)),
    ).and(line_option_out(cx.deeper(), named_text("symbol name", v.symbol_name))).and(
        line_option_out(cx.deeper(), address_text(v.address, None)),
    ).and(line_option_out(cx.deeper(), size_text(variable_size(hash, v.size, v.ty)))).and(
        line_option_out(cx.deeper(), declaration_text(v.declaration)),
    )
}

/// Comparing two variables. Where the addresses of variables are to be
/// ignored, it is not remembered whether the addresses differ.
pub open spec fn variable_diff_out(
    cx: Cursor2,
    hash_a: &FileHash,
    hash_b: &FileHash,
    options: &Flags,
    a: &Variable,
    b: &Variable,
) -> Out2 {
    pair_out(cx, variable_text(hash_a, a), variable_text(hash_b, b)).ignored(false).and(
        pair_out(
            cx.deeper(),
            named_text("linkage name", a.linkage_name),
            named_text("linkage name", b.linkage_name),
        ).ignored(false),
    ).and(
        pair_out(
            cx.deeper(),
            named_text("symbol name", a.symbol_name),
            named_text("symbol name", b.symbol_name),
        ).ignored(false),
    ).and(
        pair_out(cx.deeper(), address_text(a.address, None), address_text(b.address, None)).ignored(
            options.ignore_variable_address,
        ),
    ).and(
        pair_out(
            cx.deeper(),
            size_text(variable_size(hash_a, a.size, a.ty)),
            size_text(variable_size(hash_b, b.size, b.ty)),
        ).ignored(false),
    ).and(
        pair_out(
            cx.deeper(),
            declaration_text(a.declaration),
            declaration_text(b.declaration),
        ).ignored(false),
    )
}

impl Variable {
    /// The user defined id for this variable.
    pub fn id(&self) -> (id: usize)
        ensures
            id == self.id,
    {
        self.id
    }

    /// Set a user defined id for this variable.
    pub fn set_id(&mut self, id: usize)
        ensures
            *final(self) == (Variable { id, ..*old(self) }),
    {
        self.id = id;
    }

    /// The namespace of the variable.
    pub fn namespace(&self) -> (namespace: Option<&Namespace>)
        ensures
            match namespace {
                Some(namespace) => self.namespace is Some && *namespace == *self.namespace->Some_0,
                None => self.namespace is None,
            },
    {
        match &self.namespace {
            Some(namespace) => {
                let namespace: &Namespace = namespace;
                Some(namespace)
            },
            None => None,
        }
    }

    /// The name of the variable.
    pub fn name(&self) -> (name: Option<&[u8]>)
        ensures
            match name {
                Some(name) => self.name is Some && name@ == self.name->Some_0@,
                None => self.name is None,
            },
    {
        name_of(&self.name)
    }

    /// The linkage name of the variable.
    pub fn linkage_name(&self) -> (name: Option<&[u8]>)
        ensures
            match name {
                Some(name) => self.linkage_name is Some && name@ == self.linkage_name->Some_0@,
                None => self.linkage_name is None,
            },
    {
        name_of(&self.linkage_name)
    }

    /// The symbol name of the variable.
    ///
    /// This is determined from a symbol table entry with a matching address.
    pub fn symbol_name(&self) -> (name: Option<&[u8]>)
        ensures
            match name {
                Some(name) => self.symbol_name is Some && name@ == self.symbol_name->Some_0@,
                None => self.symbol_name is None,
            },
    {
        name_of(&self.symbol_name)
    }

    /// The type of the variable.
    ///
    /// Returns `None` if the type is invalid.
    pub fn ty<'a>(&self, hash: &FileHash<'a>) -> (ty: Option<&'a Type>)
        ensures
            ty == hash.ty(self.ty),
    {
        Type::from_option(hash, self.ty)
    }

    /// The source information for the variable.
    pub fn source(&self) -> (source: &Source)
        ensures
            *source == self.source,
    {
        &self.source
    }

    /// The address of the variable.
    pub fn address(&self) -> (address: Option<u64>)
        ensures
            address == self.address,
    {
        self.address
    }

    /// The address range of the variable.
    pub fn range(&self, hash: &FileHash) -> (range: Option<Range>)
        ensures
            range == range_of(self.address, variable_size(hash, self.size, self.ty)),
    {
        match (self.address(), self.byte_size(hash)) {
            (Some(begin), Some(size)) => match begin.checked_add(size) {
                Some(end) => Some(Range { begin, end }),
                None => None,
            },
            _ => None,
        }
    }

    /// Return true if this is a declaration.
    pub fn is_declaration(&self) -> (declaration: bool)
        ensures
            declaration == self.declaration,
    {
        self.declaration
    }

    /// Whether the variable is to be printed.
    pub fn filter(&self, flags: &Flags) -> (shown: bool)
        ensures
            shown == crate::types::entry_shown(flags, self.namespace, self.name),
    {
        crate::types::filter_entry(flags, &self.namespace, &self.name)
    }

    /// Writes the name of the variable within its namespace.
    pub fn print_ref(&self, w: &mut Vec<u8>)
        ensures
            final(w)@ == old(w)@ + variable_ref(self),
    {
        broadcast use group_bytes;

        print_namespace(w, &self.namespace);
        print_name(w, &self.name, "<anon>");
    }

    /// Writes the line of the variable.
    pub fn print_name(&self, w: &mut Vec<u8>, hash: &FileHash)
        ensures
            final(w)@ == old(w)@ + variable_text(hash, self),
    {
        broadcast use group_bytes;

        put_str(w, "var ");
        self.print_ref(w);
        put_str(w, ": ");
        Type::print_ref_from_offset(w, hash, self.ty, hash.fuel());
    }

    /// Gives the line of the variable.
    pub fn name_line(&self, hash: &FileHash) -> (text: Vec<u8>)
        ensures
            text@ == variable_text(hash, self),
    {
        let mut text: Vec<u8> = Vec::new();
        proof {
            assert(text@ + variable_text(hash, self) =~= variable_text(hash, self));
        }
        self.print_name(&mut text, hash);
        text
    }

    /// Prints the variable.
    pub fn print(&self, w: &mut Vec<u8>, state: &mut PrintState) -> (r: Result<(), Error>)
        ensures
            printed(
                *old(state),
                old(w)@,
                *final(state),
                final(w)@,
                true,
                variable_out(old(state).cursor(), old(state).hash, self),
            ),
            r is Ok,
    {
        let ghost cx = state.cursor();
        let ghost hash = state.hash;
        let ghost w0 = w@;
        let text = self.name_line(state.hash);
        state.line(w, text.as_slice());
        let ghost start = PrintState { indent: cx.deeper().indent, ..*old(state) };
        let ghost o1 = line_out(cx, variable_text(hash, self));
        let before = state.indent_begin();
        let text = named_line("linkage name", &self.linkage_name);
        state.line_option_then(w, text.as_slice(), Ghost(start), Ghost(w0), Ghost(o1));
        let ghost o2 = o1.and(line_option_out(cx.deeper(), named_text("linkage name", self.linkage_name)));
        let text = named_line("symbol name", &self.symbol_name);
        state.line_option_then(w, text.as_slice(), Ghost(start), Ghost(w0), Ghost(o2));
        let ghost o3 = o2.and(line_option_out(cx.deeper(), named_text("symbol name", self.symbol_name)));
        let text = address_line(self.address, None);
        state.line_option_then(w, text.as_slice(), Ghost(start), Ghost(w0), Ghost(o3));
        let ghost o4 = o3.and(line_option_out(cx.deeper(), address_text(self.address, None)));
        let text = size_line(self.byte_size(state.hash));
        state.line_option_then(w, text.as_slice(), Ghost(start), Ghost(w0), Ghost(o4));
        let ghost o5 = o4.and(
            line_option_out(cx.deeper(), size_text(variable_size(hash, self.size, self.ty))),
        );
        let text = declaration_line(self.declaration);
        state.line_option_then(w, text.as_slice(), Ghost(start), Ghost(w0), Ghost(o5));
        state.indent_end(before);
        Ok(())
    }

    /// Compares two variables.
    pub fn diff(w: &mut Vec<u8>, state: &mut DiffState, a: &Variable, b: &Variable) -> (r: Result<
        (),
        Error,
    >)
        requires
            old(state).wf(),
        ensures
            diffed(
                *old(state),
                old(w)@,
                *final(state),
                final(w)@,
                true,
                variable_diff_out(
                    old(state).cursor(),
                    old(state).a.hash,
                    old(state).b.hash,
                    old(state).options,
                    a,
                    b,
                ),
            ),
            r is Ok,
    {
        let ghost cx = state.cursor();
        let ghost hash_a = state.a.hash;
        let ghost hash_b = state.b.hash;
        let ghost w0 = w@;
        let flag = state.options.ignore_variable_address;
        proof {
            crate::print::lemma_diffed_nothing(*state, w@);
        }
        let text_a = a.name_line(state.a.hash);
        let text_b = b.name_line(state.b.hash);
        state.line_then(
            w,
            text_a.as_slice(),
            text_b.as_slice(),
            false,
            Ghost(*old(state)),
            Ghost(w0),
            Ghost(Out2::nothing()),
        );
        let ghost start = DiffState {
            a: PrintState { indent: cx.a.deeper().indent, ..old(state).a },
            b: PrintState { indent: cx.b.deeper().indent, ..old(state).b },
            ..*old(state)
        };
        let ghost o1 = Out2::nothing().and(
            pair_out(cx, variable_text(hash_a, a), variable_text(hash_b, b)).ignored(false),
        );
        let before = state.indent_begin();
        let text_a = named_line("linkage name", &a.linkage_name);
        let text_b = named_line("linkage name", &b.linkage_name);
        state.line_then(
            w,
            text_a.as_slice(),
            text_b.as_slice(),
            false,
            Ghost(start),
            Ghost(w0),
            Ghost(o1),
        );
        let ghost o2 = o1.and(
            pair_out(
                cx.deeper(),
                named_text("linkage name", a.linkage_name),
                named_text("linkage name", b.linkage_name),
            ).ignored(false),
        );
        let text_a = named_line("symbol name", &a.symbol_name);
        let text_b = named_line("symbol name", &b.symbol_name);
        state.line_then(
            w,
            text_a.as_slice(),
            text_b.as_slice(),
            false,
            Ghost(start),
            Ghost(w0),
            Ghost(o2),
        );
        let ghost o3 = o2.and(
            pair_out(
                cx.deeper(),
                named_text("symbol name", a.symbol_name),
                named_text("symbol name", b.symbol_name),
            ).ignored(false),
        );
        let text_a = address_line(a.address, None);
        let text_b = address_line(b.address, None);
        state.line_then(
            w,
            text_a.as_slice(),
            text_b.as_slice(),
            flag,
            Ghost(start),
            Ghost(w0),
            Ghost(o3),
        );
        let ghost o4 = o3.and(
            pair_out(cx.deeper(), address_text(a.address, None), address_text(b.address, None)).ignored(
                flag,
            ),
        );
        let text_a = size_line(a.byte_size(state.a.hash));
        let text_b = size_line(b.byte_size(state.b.hash));
        state.line_then(
            w,
            text_a.as_slice(),
            text_b.as_slice(),
            false,
            Ghost(start),
            Ghost(w0),
            Ghost(o4),
        );
        let ghost o5 = o4.and(
            pair_out(
                cx.deeper(),
                size_text(variable_size(hash_a, a.size, a.ty)),
                size_text(variable_size(hash_b, b.size, b.ty)),
            ).ignored(false),
        );
        let text_a = declaration_line(a.declaration);
        let text_b = declaration_line(b.declaration);
        state.line_then(
            w,
            text_a.as_slice(),
            text_b.as_slice(),
            false,
            Ghost(start),
            Ghost(w0),
            Ghost(o5),
        );
        state.indent_end(before);
        proof {
            let o6 = o5.and(
                pair_out(
                    cx.deeper(),
                    declaration_text(a.declaration),
                    declaration_text(b.declaration),
                ).ignored(false),
            );
            assert(o6 == variable_diff_out(cx, hash_a, hash_b, old(state).options, a, b)) by {
                broadcast use group_bytes;

            }
        }
        Ok(())
    }
}

impl LocalVariable {
    /// The name of the variable.
    pub fn name(&self) -> (name: Option<&[u8]>)
        ensures
            match name {
                Some(name) => self.name is Some && name@ == self.name->Some_0@,
                None => self.name is None,
            },
    {
        name_of(&self.name)
    }

    /// The type of the variable.
    ///
    /// Returns `None` if the type is invalid.
    pub fn ty<'a>(&self, hash: &FileHash<'a>) -> (ty: Option<&'a Type>)
        ensures
            ty == hash.ty(self.ty),
    {
        Type::from_option(hash, self.ty)
    }

    /// The source information for the variable.
    pub fn source(&self) -> (source: &Source)
        ensures
            *source == self.source,
    {
        &self.source
    }

    /// The address of the variable.
    ///
    /// This will only be known for static variables.
    pub fn address(&self) -> (address: Option<u64>)
        ensures
            address == self.address,
    {
        self.address
    }

    /// Gives the line of the variable: its size, its name and its type.
    pub fn line(&self, hash: &FileHash) -> (text: Vec<u8>)
        ensures
            text@ == local_text(hash, *self),
    {
        broadcast use group_bytes;

        let mut text: Vec<u8> = Vec::new();
        print_sized(&mut text, self.byte_size(hash));
        put_str(&mut text, "\t");
        print_name(&mut text, &self.name, "<anon>");
        put_str(&mut text, ": ");
        Type::print_ref_from_offset(&mut text, hash, self.ty, hash.fuel());
        text
    }
}

impl Print for LocalVariable {
    type Arg = ();

    open spec fn print_out(&self, cx: Cursor, hash: &FileHash, options: &Flags, arg: &()) -> Out {
        line_out(cx, local_text(hash, *self))
    }

    fn print(&self, w: &mut Vec<u8>, state: &mut PrintState, arg: &()) -> (r: Result<(), Error>) {
        let text = self.line(state.hash);
        state.line(w, text.as_slice());
        Ok(())
    }

    open spec fn diff_out(
        cx: Cursor2,
        hash_a: &FileHash,
        hash_b: &FileHash,
        options: &Flags,
        arg_a: &(),
        a: &LocalVariable,
        arg_b: &(),
        b: &LocalVariable,
        choice: Choice,
    ) -> Out2 {
        pair_out(cx, local_text(hash_a, *a), local_text(hash_b, *b))
    }

    fn diff(
        w: &mut Vec<u8>,
        state: &mut DiffState,
        arg_a: &(),
        a: &LocalVariable,
        arg_b: &(),
        b: &LocalVariable,
    ) -> (r: Result<(), Error>) {
        let text_a = a.line(state.a.hash);
        let text_b = b.line(state.b.hash);
        state.line(w, text_a.as_slice(), text_b.as_slice());
        proof {
            let choice = Choice { script: Seq::empty(), subs: Seq::empty() };
            assert(chosen(
                Self::diff_out(
                    old(state).cursor(),
                    old(state).a.hash,
                    old(state).b.hash,
                    old(state).options,
                    arg_a,
                    a,
                    arg_b,
                    b,
                    choice,
                ),
                *old(state),
                old(w)@,
                *state,
                w@,
                true,
            ));
        }
        Ok(())
    }
}

impl DiffList for LocalVariable {
    open spec fn step(&self, hash: &FileHash, arg: &()) -> nat {
        1
    }

    fn step_cost(&self, hash: &FileHash, arg: &()) -> (cost: usize) {
        1
    }

    open spec fn pair(
        hash_a: &FileHash,
        arg_a: &(),
        a: &LocalVariable,
        hash_b: &FileHash,
        arg_b: &(),
        b: &LocalVariable,
    ) -> nat {
        entry_pair(hash_a, a.name, a.ty, hash_b, b.name, b.ty)
    }

    fn diff_cost(
        hash_a: &FileHash,
        arg_a: &(),
        a: &LocalVariable,
        hash_b: &FileHash,
        arg_b: &(),
        b: &LocalVariable,
    ) -> (cost: usize) {
        LocalVariable::diff_cost(hash_a, a, hash_b, b)
    }
}

} // verus!
