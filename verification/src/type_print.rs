//! Printing and comparing types.
use vstd::prelude::*;
use vstd::string::StringSliceAdditionalSpecFns;
use crate::file::FileHash;
use crate::list::{chosen, diff_list_out, label_text, list_label, list_out, Choice, DiffList, Print};
use crate::members::{
    diff_member_list, member_list_out, members_entries_out, struct_entries_out, union_entries_upto,
};
use crate::namespace::{name_text, ns_text, print_name};
use crate::print::{
    diffed, lemma_diffed_and, lemma_diffed_nothing, lemma_printed_and, lemma_printed_nothing,
    line_option_out, line_out, pair_out, printed, Cursor, Cursor2, DiffPrefix, DiffState, Out, Out2,
    PrintState,
};
use crate::seqs::group_bytes;
use crate::text::{decimal, put_i64, put_str, put_u64, signed_decimal};
use crate::types::{
    ref_at, size_at, type_ref, EnumerationType, Enumerator, StructType, Type, TypeDef, TypeKind,
    UnionType,
};
use crate::{Error, Flags};

verus! {

/// The line of the size of an entry, where the size is known.
pub open spec fn size_text(size: Option<u64>) -> Seq<u8> {
    match size {
        Some(size) => "size: ".spec_bytes() + decimal(size as nat),
        None => Seq::empty(),
    }
}

/// The line that says that an entry is a declaration only.
pub open spec fn declaration_text(declaration: bool) -> Seq<u8> {
    if declaration {
        "declaration: yes".spec_bytes()
    } else {
        Seq::empty()
    }
}

/// Gives the line of the size of an entry, where the size is known.
pub fn size_line(size: Option<u64>) -> (text: Vec<u8>)
    ensures
        text@ == size_text(size),
{
    broadcast use group_bytes;

    let mut text: Vec<u8> = Vec::new();
    if let Some(size) = size {
        put_str(&mut text, "size: ");
        put_u64(&mut text, size);
    }
    text
}

/// Gives the line that says that an entry is a declaration only.
pub fn declaration_line(declaration: bool) -> (text: Vec<u8>)
    ensures
        text@ == declaration_text(declaration),
{
    broadcast use group_bytes;

    let mut text: Vec<u8> = Vec::new();
    if declaration {
        put_str(&mut text, "declaration: yes");
    }
    text
}

impl Enumerator {
    /// The text of an enumerator: its name, and in brackets its value,
    /// where it has one.
    pub open spec fn text(&self) -> Seq<u8> {
        name_text(self.name, "<anon>") + (match self.value {
            Some(value) => "(".spec_bytes() + signed_decimal(value as int) + ")".spec_bytes(),
            None => Seq::empty(),
        })
    }

    /// Writes the name by which the enumerator is referred to.
    pub fn print_ref(&self, w: &mut Vec<u8>)
        ensures
            final(w)@ == old(w)@ + name_text(self.name, "<anon>"),
    {
        print_name(w, &self.name, "<anon>");
    }

    /// What it costs to take an enumerator alone when two lists are aligned.
    pub fn step_cost() -> (cost: usize)
        ensures
            cost == 3,
    {
        3
    }

    /// Writes the name of the enumerator and, in brackets, its value.
    pub fn print_name_value(&self, w: &mut Vec<u8>)
        ensures
            final(w)@ == old(w)@ + self.text(),
    {
        broadcast use group_bytes;

        self.print_ref(w);
        if let Some(value) = self.value {
            put_str(w, "(");
            put_i64(w, value);
            put_str(w, ")");
        }
    }
}

impl Print for Enumerator {
    type Arg = ();

    open spec fn print_out(&self, cx: Cursor, hash: &FileHash, options: &Flags, arg: &()) -> Out {
        line_out(cx, self.text())
    }

    fn print(&self, w: &mut Vec<u8>, state: &mut PrintState, arg: &()) -> (r: Result<(), Error>) {
        let mut buf: Vec<u8> = Vec::new();
        self.print_name_value(&mut buf);
        state.line(w, buf.as_slice());
        Ok(())
    }

    open spec fn diff_out(
        cx: Cursor2,
        hash_a: &FileHash,
        hash_b: &FileHash,
        options: &Flags,
        arg_a: &(),
        a: &Enumerator,
        arg_b: &(),
        b: &Enumerator,
        choice: Choice,
    ) -> Out2 {
        pair_out(cx, a.text(), b.text())
    }

    fn diff(
        w: &mut Vec<u8>,
        state: &mut DiffState,
        arg_a: &(),
        a: &Enumerator,
        arg_b: &(),
        b: &Enumerator,
    ) -> (r: Result<(), Error>) {
        let mut text_a: Vec<u8> = Vec::new();
        a.print_name_value(&mut text_a);
        let mut text_b: Vec<u8> = Vec::new();
        b.print_name_value(&mut text_b);
        state.line(w, text_a.as_slice(), text_b.as_slice());
        proof {
            let choice = Choice { script: Seq::empty(), subs: Seq::empty() };
            assert(chosen(
                Self::diff_out(
                    old(state).cursor(),
                    old(state).a.hash,
                    old(state).b.hash,
                    old(state).options,
                    arg_a,
                    a,
                    arg_b,
                    b,
                    choice,
                ),
                *old(state),
                old(w)@,
                *state,
                w@,
                true,
            ));
        }
        Ok(())
    }
}

impl DiffList for Enumerator {
    open spec fn step(&self, hash: &FileHash, arg: &()) -> nat {
        3
    }

    fn step_cost(&self, hash: &FileHash, arg: &()) -> (cost: usize) {
        Enumerator::step_cost()
    }

    open spec fn pair(
        hash_a: &FileHash,
        arg_a: &(),
        a: &Enumerator,
        hash_b: &FileHash,
        arg_b: &(),
        b: &Enumerator,
    ) -> nat {
        crate::identity::enumerator_pair(*a, *b)
    }

    fn diff_cost(
        hash_a: &FileHash,
        arg_a: &(),
        a: &Enumerator,
        hash_b: &FileHash,
        arg_b: &(),
        b: &Enumerator,
    ) -> (cost: usize) {
        Enumerator::diff_cost(a, b)
    }
}

/// Printing the members of a struct below their label.
pub open spec fn struct_members_out(cx: Cursor, hash: &FileHash, t: StructType, fuel: usize) -> Out {
    line_option_out(cx, label_text("members", t.members@.len())).and(
        struct_entries_out(cx.deeper(), hash, t, fuel),
    )
}

/// Printing the members of a union below their label.
pub open spec fn union_members_out(cx: Cursor, hash: &FileHash, t: UnionType, fuel: usize) -> Out {
    line_option_out(cx, label_text("members", t.members@.len())).and(
        union_entries_upto(cx.deeper(), hash, t.members@, t.members@.len() as int, fuel),
    )
}

/// Printing the members of a type below their label. A type that is
/// neither a struct nor a union has none that could be printed.
pub open spec fn type_members_out(cx: Cursor, hash: &FileHash, ty: Option<&Type>, fuel: usize) -> Out {
    match ty {
        Some(ty) => match ty.kind {
            TypeKind::Struct(t) => struct_members_out(cx, hash, t, fuel),
            TypeKind::Union(t) => union_members_out(cx, hash, t, fuel),
            _ => Out::failure(),
        },
        None => Out::nothing(),
    }
}

/// The line of a struct: the word `struct` and its name within its
/// namespace.
pub open spec fn struct_text(t: StructType) -> Seq<u8> {
    "struct ".spec_bytes() + ns_text(t.namespace) + name_text(t.name, "<anon>")
}

/// The line of a union.
pub open spec fn union_text(t: UnionType) -> Seq<u8> {
    "union ".spec_bytes() + ns_text(t.namespace) + name_text(t.name, "<anon>")
}

/// The line of an enumeration.
pub open spec fn enumeration_text(t: EnumerationType) -> Seq<u8> {
    "enum ".spec_bytes() + ns_text(t.namespace) + name_text(t.name, "<anon>")
}

/// The line of a type definition: the name and what it stands for.
pub open spec fn typedef_text(hash: &FileHash, t: TypeDef) -> Seq<u8> {
    "type ".spec_bytes() + (ns_text(t.namespace) + name_text(t.name, "<anon-typedef>"))
        + " = ".spec_bytes() + ref_at(hash, t.ty, hash.depth())
}

/// The type that a type definition stands for, where that has no name of
/// its own.
pub open spec fn typedef_anon<'a>(hash: &FileHash<'a>, t: TypeDef) -> Option<&'a Type> {
    match hash.ty(t.ty) {
        Some(ty) => if ty.anon() {
            Some(ty)
        } else {
            None
        },
        None => None,
    }
}

/// Printing a struct: its line, and one level further in whether it is a
/// declaration only, its size and its members.
pub open spec fn struct_out(cx: Cursor, hash: &FileHash, t: StructType) -> Out {
    line_out(cx, struct_text(t)).and(line_option_out(cx.deeper(), declaration_text(t.declaration))).and(
        line_option_out(cx.deeper(), size_text(t.byte_size)),
    ).and(struct_members_out(cx.deeper(), hash, t, hash.depth()))
}

/// Printing a union.
pub open spec fn union_out(cx: Cursor, hash: &FileHash, t: UnionType) -> Out {
    line_out(cx, union_text(t)).and(line_option_out(cx.deeper(), declaration_text(t.declaration))).and(
        line_option_out(cx.deeper(), size_text(t.byte_size)),
    ).and(union_members_out(cx.deeper(), hash, t, hash.depth()))
}

/// Printing a type definition: its line, and one level further in its size
/// and the members of the type that it stands for, where that has no name
/// of its own.
pub open spec fn typedef_out(cx: Cursor, hash: &FileHash, t: TypeDef) -> Out {
    line_out(cx, typedef_text(hash, t)).and(
        line_out(cx.deeper(), size_text(size_at(hash, t.ty, hash.depth()))),
    ).and(type_members_out(cx.deeper(), hash, typedef_anon(hash, t), hash.depth()))
}

/// Printing an enumeration: its line, and one level further in whether it
/// is a declaration only, its size and its enumerators.
pub open spec fn enumeration_out(
    cx: Cursor,
    hash: &FileHash,
    options: &Flags,
    t: EnumerationType,
) -> Out {
    line_out(cx, enumeration_text(t)).and(
        line_option_out(cx.deeper(), declaration_text(t.declaration)),
    ).and(line_option_out(cx.deeper(), size_text(t.size(hash)))).and(
        list_out::<Enumerator>(cx.deeper(), hash, options, "enumerators", &(), t.enumerators@),
    )
}

/// Printing a type. Only type definitions, structs, unions and enumerations
/// are printed on their own.
pub open spec fn type_out(cx: Cursor, hash: &FileHash, options: &Flags, ty: &Type) -> Out {
    match ty.kind {
        TypeKind::Def(t) => typedef_out(cx, hash, t),
        TypeKind::Struct(t) => struct_out(cx, hash, t),
        TypeKind::Union(t) => union_out(cx, hash, t),
        TypeKind::Enumeration(t) => enumeration_out(cx, hash, options, t),
        _ => Out::failure(),
    }
}

impl StructType {
    /// Writes the line of the size of the struct.
    pub fn print_byte_size(&self, w: &mut Vec<u8>)
        ensures
            final(w)@ == old(w)@ + size_text(self.byte_size),
    {
        broadcast use group_bytes;

        if let Some(size) = self.byte_size {
            put_str(w, "size: ");
            put_u64(w, size);
        }
    }

    /// Writes the line that says that the struct is a declaration only.
    pub fn print_declaration(&self, w: &mut Vec<u8>)
        ensures
            final(w)@ == old(w)@ + declaration_text(self.declaration),
    {
        broadcast use group_bytes;

        if self.declaration {
            put_str(w, "declaration: yes");
        }
    }

    /// Writes the label of the members, where the struct has any.
    pub fn print_members_label(&self, w: &mut Vec<u8>)
        ensures
            final(w)@ == old(w)@ + label_text("members", self.members@.len()),
    {
        broadcast use group_bytes;

        if self.members.len() != 0 {
            put_str(w, "members");
            put_str(w, ":");
        }
    }

    /// Prints the members of the struct below their label.
    pub fn print_members(&self, w: &mut Vec<u8>, state: &mut PrintState, fuel: usize) -> (r: Result<
        (),
        Error,
    >)
        ensures
            printed(
                *old(state),
                old(w)@,
                *final(state),
                final(w)@,
                r is Ok,
                struct_members_out(old(state).cursor(), old(state).hash, *self, fuel),
            ),
    {
        let ghost cx = state.cursor();
        let ghost hash = state.hash;
        let mut buf: Vec<u8> = Vec::new();
        proof {
            assert(buf@ + label_text("members", self.members@.len()) =~= label_text(
                "members",
                self.members@.len(),
            ));
        }
        self.print_members_label(&mut buf);
        state.line_option(w, buf.as_slice());
        let ghost s1 = *state;
        let ghost w1 = w@;
        let before = state.indent_begin();
        let r = self.print_members_entries(w, state, fuel);
        state.indent_end(before);
        proof {
            lemma_printed_and(
                *old(state),
                old(w)@,
                s1,
                w1,
                *state,
                w@,
                r is Ok,
                line_option_out(cx, label_text("members", self.members@.len())),
                struct_entries_out(cx.deeper(), hash, *self, fuel),
            );
        }
        r
    }

    /// Prints the struct.
    pub fn print(&self, w: &mut Vec<u8>, state: &mut PrintState) -> (r: Result<(), Error>)
        ensures
            printed(
                *old(state),
                old(w)@,
                *final(state),
                final(w)@,
                r is Ok,
                struct_out(old(state).cursor(), old(state).hash, *self),
            ),
    {
        let ghost cx = state.cursor();
        let ghost hash = state.hash;
        let mut buf: Vec<u8> = Vec::new();
        proof {
            assert(buf@ + struct_text(*self) =~= struct_text(*self));
        }
        self.print_ref(&mut buf);
        state.line(w, buf.as_slice());
        let ghost s1 = *state;
        let ghost w1 = w@;
        let before = state.indent_begin();
        let ghost s1d = *state;
        let text = declaration_line(self.declaration);
        state.line_option(w, text.as_slice());
        let ghost s2 = *state;
        let ghost w2 = w@;
        let text = size_line(self.byte_size);
        state.line_option(w, text.as_slice());
        let ghost s3 = *state;
        let ghost w3 = w@;
        let r = self.print_members(w, state, state.hash.fuel());
        let ghost s4 = *state;
        state.indent_end(before);
        proof {
            let o1 = line_out(cx, struct_text(*self));
            let o2 = line_option_out(cx.deeper(), declaration_text(self.declaration));
            let o3 = line_option_out(cx.deeper(), size_text(self.byte_size));
            let o4 = struct_members_out(cx.deeper(), hash, *self, hash.depth());
            lemma_printed_and(s1d, w1, s2, w2, s3, w3, true, o2, o3);
            lemma_printed_and(s1d, w1, s3, w3, s4, w@, r is Ok, o2.and(o3), o4);
            assert(printed(s1, w1, *state, w@, r is Ok, o2.and(o3).and(o4)));
            lemma_printed_and(*old(state), old(w)@, s1, w1, *state, w@, r is Ok, o1, o2.and(o3).and(o4));
            assert(o1.and(o2.and(o3).and(o4)) == o1.and(o2).and(o3).and(o4)) by {
                broadcast use group_bytes;

            }
        }
        r
    }
}

impl UnionType {
    /// Writes the line of the size of the union.
    pub fn print_byte_size(&self, w: &mut Vec<u8>)
        ensures
            final(w)@ == old(w)@ + size_text(self.byte_size),
    {
        broadcast use group_bytes;

        if let Some(size) = self.byte_size {
            put_str(w, "size: ");
            put_u64(w, size);
        }
    }

    /// Writes the line that says that the union is a declaration only.
    pub fn print_declaration(&self, w: &mut Vec<u8>)
        ensures
            final(w)@ == old(w)@ + declaration_text(self.declaration),
    {
        broadcast use group_bytes;

        if self.declaration {
            put_str(w, "declaration: yes");
        }
    }

    /// Writes the label of the members, where the union has any.
    pub fn print_members_label(&self, w: &mut Vec<u8>)
        ensures
            final(w)@ == old(w)@ + label_text("members", self.members@.len()),
    {
        broadcast use group_bytes;

        if self.members.len() != 0 {
            put_str(w, "members");
            put_str(w, ":");
        }
    }

    /// Prints the members of the union below their label.
    pub fn print_members(&self, w: &mut Vec<u8>, state: &mut PrintState, fuel: usize) -> (r: Result<
        (),
        Error,
    >)
        ensures
            printed(
                *old(state),
                old(w)@,
                *final(state),
                final(w)@,
                r is Ok,
                union_members_out(old(state).cursor(), old(state).hash, *self, fuel),
            ),
    {
        let ghost cx = state.cursor();
        let ghost hash = state.hash;
        let mut buf: Vec<u8> = Vec::new();
        proof {
            assert(buf@ + label_text("members", self.members@.len()) =~= label_text(
                "members",
                self.members@.len(),
            ));
        }
        self.print_members_label(&mut buf);
        state.line_option(w, buf.as_slice());
        let ghost s1 = *state;
        let ghost w1 = w@;
        let before = state.indent_begin();
        let r = self.print_members_entries(w, state, fuel);
        state.indent_end(before);
        proof {
            lemma_printed_and(
                *old(state),
                old(w)@,
                s1,
                w1,
                *state,
                w@,
                r is Ok,
                line_option_out(cx, label_text("members", self.members@.len())),
                union_entries_upto(
                    cx.deeper(),
                    hash,
                    self.members@,
                    self.members@.len() as int,
                    fuel,
                ),
            );
        }
        r
    }

    /// Prints the union.
    pub fn print(&self, w: &mut Vec<u8>, state: &mut PrintState) -> (r: Result<(), Error>)
        ensures
            printed(
                *old(state),
                old(w)@,
                *final(state),
                final(w)@,
                r is Ok,
                union_out(old(state).cursor(), old(state).hash, *self),
            ),
    {
        let ghost cx = state.cursor();
        let ghost hash = state.hash;
        let mut buf: Vec<u8> = Vec::new();
        proof {
            assert(buf@ + union_text(*self) =~= union_text(*self));
        }
        self.print_ref(&mut buf);
        state.line(w, buf.as_slice());
        let ghost s1 = *state;
        let ghost w1 = w@;
        let before = state.indent_begin();
        let ghost s1d = *state;
        let text = declaration_line(self.declaration);
        state.line_option(w, text.as_slice());
        let ghost s2 = *state;
        let ghost w2 = w@;
        let text = size_line(self.byte_size);
        state.line_option(w, text.as_slice());
        let ghost s3 = *state;
        let ghost w3 = w@;
        let r = self.print_members(w, state, state.hash.fuel());
        let ghost s4 = *state;
        state.indent_end(before);
        proof {
            let o1 = line_out(cx, union_text(*self));
            let o2 = line_option_out(cx.deeper(), declaration_text(self.declaration));
            let o3 = line_option_out(cx.deeper(), size_text(self.byte_size));
            let o4 = union_members_out(cx.deeper(), hash, *self, hash.depth());
            lemma_printed_and(s1d, w1, s2, w2, s3, w3, true, o2, o3);
            lemma_printed_and(s1d, w1, s3, w3, s4, w@, r is Ok, o2.and(o3), o4);
            assert(printed(s1, w1, *state, w@, r is Ok, o2.and(o3).and(o4)));
            lemma_printed_and(*old(state), old(w)@, s1, w1, *state, w@, r is Ok, o1, o2.and(o3).and(o4));
            assert(o1.and(o2.and(o3).and(o4)) == o1.and(o2).and(o3).and(o4)) by {
                broadcast use group_bytes;

            }
        }
        r
    }
}

impl Type {
    /// Prints the members of a type below their label. The type must be a
    /// struct or a union.
    pub fn print_members(w: &mut Vec<u8>, state: &mut PrintState, ty: Option<&Type>, fuel: usize) -> (r:
        Result<(), Error>)
        ensures
            printed(
                *old(state),
                old(w)@,
                *final(state),
                final(w)@,
                r is Ok,
                type_members_out(old(state).cursor(), old(state).hash, ty, fuel),
            ),
    {
        if let Some(ty) = ty {
            match &ty.kind {
                TypeKind::Struct(t) => {
                    return t.print_members(w, state, fuel);
                },
                TypeKind::Union(t) => {
                    return t.print_members(w, state, fuel);
                },
                _ => {
                    return Err(Error::new("can't print members"));
                },
            }
        }
        proof {
            lemma_printed_nothing(*state, w@);
        }
        Ok(())
    }

    /// Prints a type. Only type definitions, structs, unions and
    /// enumerations can be printed on their own.
    pub fn print(&self, w: &mut Vec<u8>, state: &mut PrintState) -> (r: Result<(), Error>)
        ensures
            printed(
                *old(state),
                old(w)@,
                *final(state),
                final(w)@,
                r is Ok,
                type_out(old(state).cursor(), old(state).hash, old(state).options, self),
            ),
    {
        match &self.kind {
            TypeKind::Def(val) => val.print(w, state),
            TypeKind::Struct(val) => val.print(w, state),
            TypeKind::Union(val) => val.print(w, state),
            TypeKind::Enumeration(val) => val.print(w, state),
            TypeKind::Base(..)
            | TypeKind::Array(..)
            | TypeKind::Subroutine(..)
            | TypeKind::Unspecified(..)
            | TypeKind::PointerToMember(..)
            | TypeKind::Modifier(..) => Err(Error::new("can't print type")),
        }
    }
}

impl TypeDef {
    /// Writes the line of the type definition: its name and the type that it stands for.
    pub fn print_name(&self, w: &mut Vec<u8>, hash: &FileHash)
        ensures
            final(w)@ == old(w)@ + typedef_text(hash, *self),
    {
        broadcast use group_bytes;

        put_str(w, "type ");
        self.print_ref(w);
        put_str(w, " = ");
        Type::print_ref_from_offset(w, hash, self.ty, hash.fuel());
    }

    /// Writes the line of the size of the type that the definition stands for.
    pub fn print_byte_size(&self, w: &mut Vec<u8>, hash: &FileHash)
        ensures
            final(w)@ == old(w)@ + size_text(size_at(hash, self.ty, hash.depth())),
    {
        broadcast use group_bytes;

        if let Some(byte_size) = self.byte_size(hash) {
            put_str(w, "size: ");
            put_u64(w, byte_size);
        }
    }

    /// The type that this stands for, where that has no name of its own.
    pub fn anon_type<'a>(&self, hash: &FileHash<'a>) -> (ty: Option<&'a Type>)
        ensures
            ty == typedef_anon(hash, *self),
    {
        match self.ty(hash) {
            Some(ty) => if ty.is_anon() {
                Some(ty)
            } else {
                None
            },
            None => None,
        }
    }

    /// Prints the type definition.
    pub fn print(&self, w: &mut Vec<u8>, state: &mut PrintState) -> (r: Result<(), Error>)
        ensures
            printed(
                *old(state),
                old(w)@,
                *final(state),
                final(w)@,
                r is Ok,
                typedef_out(old(state).cursor(), old(state).hash, *self),
            ),
    {
        let ghost cx = state.cursor();
        let ghost hash = state.hash;
        let mut buf: Vec<u8> = Vec::new();
        proof {
            assert(buf@ + typedef_text(hash, *self) =~= typedef_text(hash, *self));
        }
        self.print_name(&mut buf, state.hash);
        state.line(w, buf.as_slice());
        let ghost s1 = *state;
        let ghost w1 = w@;
        let before = state.indent_begin();
        let ghost s1d = *state;
        let mut buf: Vec<u8> = Vec::new();
        proof {
            assert(buf@ + size_text(size_at(hash, self.ty, hash.depth())) =~= size_text(
                size_at(hash, self.ty, hash.depth()),
            ));
        }
        self.print_byte_size(&mut buf, state.hash);
        state.line(w, buf.as_slice());
        let ghost s2 = *state;
        let ghost w2 = w@;
        let ty = self.anon_type(state.hash);
        let r = Type::print_members(w, state, ty, state.hash.fuel());
        let ghost s3 = *state;
        state.indent_end(before);
        proof {
            let o1 = line_out(cx, typedef_text(hash, *self));
            let o2 = line_out(cx.deeper(), size_text(size_at(hash, self.ty, hash.depth())));
            let o3 = type_members_out(cx.deeper(), hash, typedef_anon(hash, *self), hash.depth());
            lemma_printed_and(s1d, w1, s2, w2, s3, w@, r is Ok, o2, o3);
            assert(printed(s1, w1, *state, w@, r is Ok, o2.and(o3)));
            lemma_printed_and(*old(state), old(w)@, s1, w1, *state, w@, r is Ok, o1, o2.and(o3));
            assert(o1.and(o2.and(o3)) == o1.and(o2).and(o3)) by {
                broadcast use group_bytes;

            }
        }
        r
    }
}

impl EnumerationType {
    /// Writes the line that says that the enumeration is a declaration only.
    pub fn print_declaration(&self, w: &mut Vec<u8>)
        ensures
            final(w)@ == old(w)@ + declaration_text(self.declaration),
    {
        broadcast use group_bytes;

        if self.declaration {
            put_str(w, "declaration: yes");
        }
    }

    /// Writes the line of the size of the enumeration.
    pub fn print_byte_size(&self, w: &mut Vec<u8>, hash: &FileHash)
        ensures
            final(w)@ == old(w)@ + size_text(self.size(hash)),
    {
        broadcast use group_bytes;

        if let Some(size) = self.byte_size(hash) {
            put_str(w, "size: ");
            put_u64(w, size);
        }
    }

    /// Prints the enumeration.
    pub fn print(&self, w: &mut Vec<u8>, state: &mut PrintState) -> (r: Result<(), Error>)
        ensures
            printed(
                *old(state),
                old(w)@,
                *final(state),
                final(w)@,
                r is Ok,
                enumeration_out(old(state).cursor(), old(state).hash, old(state).options, *self),
            ),
    {
        let ghost cx = state.cursor();
        let ghost hash = state.hash;
        let ghost options = state.options;
        let mut buf: Vec<u8> = Vec::new();
        proof {
            assert(buf@ + enumeration_text(*self) =~= enumeration_text(*self));
        }
        self.print_ref(&mut buf);
        state.line(w, buf.as_slice());
        let ghost s1 = *state;
        let ghost w1 = w@;
        let before = state.indent_begin();
        let ghost s1d = *state;
        let text = declaration_line(self.declaration);
        state.line_option(w, text.as_slice());
        let ghost s2 = *state;
        let ghost w2 = w@;
        let text = size_line(self.byte_size(state.hash));
        state.line_option(w, text.as_slice());
        let ghost s3 = *state;
        let ghost w3 = w@;
        let r = state.list::<Enumerator>("enumerators", w, &(), self.enumerators.as_slice());
        let ghost s4 = *state;
        state.indent_end(before);
        proof {
            let o1 = line_out(cx, enumeration_text(*self));
            let o2 = line_option_out(cx.deeper(), declaration_text(self.declaration));
            let o3 = line_option_out(cx.deeper(), size_text(self.size(hash)));
            let o4 = list_out::<Enumerator>(
                cx.deeper(),
                hash,
                options,
                "enumerators",
                &(),
                self.enumerators@,
            );
            lemma_printed_and(s1d, w1, s2, w2, s3, w3, true, o2, o3);
            lemma_printed_and(s1d, w1, s3, w3, s4, w@, r is Ok, o2.and(o3), o4);
            assert(printed(s1, w1, *state, w@, r is Ok, o2.and(o3).and(o4)));
            lemma_printed_and(*old(state), old(w)@, s1, w1, *state, w@, r is Ok, o1, o2.and(o3).and(o4));
            assert(o1.and(o2.and(o3).and(o4)) == o1.and(o2).and(o3).and(o4)) by {
                broadcast use group_bytes;

            }
        }
        r
    }
}

} // verus!
