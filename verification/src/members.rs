//! The members of structs and unions.
//!
//! A member whose type has no name of its own is printed with the members
//! of that type below it, and so on. Where such types refer to each other
//! in a circle, the members are followed as many levels down as there are
//! types.
use vstd::prelude::*;
use vstd::string::StringSliceAdditionalSpecFns;
use crate::file::FileHash;
use crate::namespace::{name_text, print_name};
use crate::order::name_bytes;
use crate::identity::entry_pair;
use crate::list::{chosen, list_costs, lists_fit, optimal, steps_in_range, lemma_steps_in_range, Choice};
use crate::path::{align, lemma_tail_sum_nonneg, pos_a, pos_b, tail_sum, Costs, Direction};
use crate::print::{
    diffed, lemma_diffed_and, lemma_diffed_nothing, lemma_printed_and, lemma_printed_nothing,
    line_option_out, line_out, pair_out, printed, Cursor, Cursor2, DiffPrefix, DiffState, Out, Out2,
    PrintState,
};
use crate::seqs::group_bytes;
use crate::text::{bit_text, format_bit, put, put_str, starts_with};
use crate::types::{ref_at, size_at, times, Member, StructType, Type, TypeKind, UnionType};
use crate::Error;

verus! {

/// The text that a member of a struct begins with where nothing is known
/// of it but that it stands for a variant of a Rust enum.
pub open spec fn encoded_enum_prefix() -> Seq<u8> {
    "RUST$ENCODED$ENUM$".spec_bytes()
}

/// The padding before a member that begins at `bit_offset`, where the
/// member before it ends at `end`: where it begins and how long it is, in
/// bits.
pub open spec fn padding_before(bit_offset: u64, end: Option<u64>) -> Option<(u64, u64)> {
    match end {
        Some(end) => if bit_offset > end {
            Some((end, (bit_offset - end) as u64))
        } else {
            None
        },
        None => None,
    }
}

/// The padding at the end of a struct of the size `byte_size`, where its
/// last member ends at `end`.
pub open spec fn padding_after(byte_size: Option<u64>, end: Option<u64>) -> Option<(u64, u64)> {
    match (end, byte_size) {
        (Some(end), Some(size)) => if size * 8 <= u64::MAX && end < size * 8 {
            Some((end, (size * 8 - end) as u64))
        } else {
            None
        },
        _ => None,
    }
}

/// How padding is printed.
pub open spec fn padding_text(padding: Option<(u64, u64)>) -> Seq<u8> {
    match padding {
        Some((offset, size)) => bit_text(offset as nat) + "[".spec_bytes() + bit_text(size as nat)
            + "]\t<padding>".spec_bytes(),
        None => Seq::empty(),
    }
}

/// Where the member before the member at `i` ends: at 0 for the first
/// member.
pub open spec fn end_before(hash: &FileHash, members: Seq<Member>, i: int) -> Option<u64> {
    if i <= 0 {
        Some(0)
    } else {
        members[i - 1].end(hash)
    }
}

impl Member {
    /// The size of the member in bits: the one that is given, or that of
    /// its type.
    pub open spec fn size(&self, hash: &FileHash) -> Option<u64> {
        if self.bit_size is Some {
            self.bit_size
        } else {
            match size_at(hash, self.ty, hash.depth()) {
                Some(size) => times(size, 8),
                None => None,
            }
        }
    }

    /// Where the member ends in its type, in bits.
    pub open spec fn end(&self, hash: &FileHash) -> Option<u64> {
        match self.size(hash) {
            Some(size) => if self.bit_offset + size <= u64::MAX {
                Some((self.bit_offset + size) as u64)
            } else {
                None
            },
            None => None,
        }
    }

    /// Whether the members of the type of the member are printed below it:
    /// the member has no name, or stands for a variant of a Rust enum, or
    /// its type has no name of its own.
    pub open spec fn inline(&self, hash: &FileHash) -> bool {
        match self.name {
            Some(name) => (encoded_enum_prefix().len() <= name@.len() && name@.take(
                encoded_enum_prefix().len() as int,
            ) == encoded_enum_prefix()) || match hash.ty(self.ty) {
                Some(ty) => ty.anon(),
                None => false,
            },
            None => true,
        }
    }

    /// The type whose members are printed below the member, where there is
    /// one.
    pub open spec fn inline_type<'a>(&self, hash: &FileHash<'a>) -> Option<&'a Type> {
        if self.inline(hash) {
            hash.ty(self.ty)
        } else {
            None
        }
    }

    /// The line of the member: where it begins and how long it is, its name
    /// and its type.
    pub open spec fn text(&self, hash: &FileHash) -> Seq<u8> {
        bit_text(self.bit_offset as nat) + (match self.size(hash) {
            Some(size) => "[".spec_bytes() + bit_text(size as nat) + "]".spec_bytes(),
            None => "[??]".spec_bytes(),
        }) + "\t".spec_bytes() + name_text(self.name, "<anon>") + ": ".spec_bytes() + ref_at(
            hash,
            self.ty,
            hash.depth(),
        )
    }

    /// The type of the member.
    pub fn ty<'a>(&self, hash: &FileHash<'a>) -> (ty: Option<&'a Type>)
        ensures
            ty == hash.ty(self.ty),
    {
        Type::from_option(hash, self.ty)
    }

    /// The size of the member in bits.
    pub fn bit_size(&self, hash: &FileHash) -> (size: Option<u64>)
        ensures
            size == self.size(hash),
    {
        if self.bit_size.is_some() {
            self.bit_size
        } else {
            match Type::size_from_offset(hash, self.ty, hash.fuel()) {
                Some(size) => size.checked_mul(8),
                None => None,
            }
        }
    }

    /// Where the member ends in its type, in bits.
    pub fn end_bit_offset(&self, hash: &FileHash) -> (end: Option<u64>)
        ensures
            end == self.end(hash),
    {
        match self.bit_size(hash) {
            Some(size) => self.bit_offset.checked_add(size),
            None => None,
        }
    }

    /// What it costs to take a member alone when two lists are aligned.
    pub fn step_cost() -> (cost: usize)
        ensures
            cost == 1,
    {
        1
    }

    /// The padding before the member, where the member before it ends at
    /// `end_bit_offset`. Returns (offset, size) of padding.
    pub fn padding(&self, end_bit_offset: Option<u64>) -> (padding: Option<(u64, u64)>)
        ensures
            padding == padding_before(self.bit_offset, end_bit_offset),
    {
        if let Some(end_bit_offset) = end_bit_offset {
            if self.bit_offset > end_bit_offset {
                return Some((end_bit_offset, self.bit_offset - end_bit_offset));
            }
        }
        None
    }

    /// Writes padding.
    pub fn print_padding(w: &mut Vec<u8>, padding: Option<(u64, u64)>)
        ensures
            final(w)@ == old(w)@ + padding_text(padding),
    {
        broadcast use group_bytes;

        if let Some((padding_bit_offset, padding_bit_size)) = padding {
            let offset = format_bit(padding_bit_offset);
            put(w, offset.as_slice());
            put_str(w, "[");
            let size = format_bit(padding_bit_size);
            put(w, size.as_slice());
            put_str(w, "]\t<padding>");
        }
    }

    /// Writes the line of the member.
    pub fn print_name(&self, w: &mut Vec<u8>, hash: &FileHash)
        ensures
            final(w)@ == old(w)@ + self.text(hash),
    {
        broadcast use group_bytes;

        let offset = format_bit(self.bit_offset);
        put(w, offset.as_slice());
        match self.bit_size(hash) {
            Some(bit_size) => {
                put_str(w, "[");
                let size = format_bit(bit_size);
                put(w, size.as_slice());
                put_str(w, "]");
            },
            None => {
                put_str(w, "[??]");
            },
        }
        put_str(w, "\t");
        print_name(w, &self.name, "<anon>");
        put_str(w, ": ");
        Type::print_ref_from_offset(w, hash, self.ty, hash.fuel());
    }

    /// Whether the members of the type of the member are printed below it.
    pub fn is_inline(&self, hash: &FileHash) -> (inline: bool)
        ensures
            inline == self.inline(hash),
    {
        match &self.name {
            Some(s) => {
                if starts_with(s.as_slice(), "RUST$ENCODED$ENUM$".as_bytes()) {
                    return true;
                }
            },
            None => {
                return true;
            },
        };
        if let Some(ty) = self.ty(hash) {
            ty.is_anon()
        } else {
            false
        }
    }

    /// Prints the member, and below it the members of its type, where that
    /// has no name of its own.
    pub fn print(&self, w: &mut Vec<u8>, state: &mut PrintState, fuel: usize) -> (r: Result<(), Error>)
        ensures
            printed(
                *old(state),
                old(w)@,
                *final(state),
                final(w)@,
                r is Ok,
                member_out(old(state).cursor(), old(state).hash, *self, fuel),
            ),
        decreases fuel, 0int, 0int,
    {
        broadcast use group_bytes;

        let mut buf: Vec<u8> = Vec::new();
        self.print_name(&mut buf, state.hash);
        state.line(w, buf.as_slice());
        if fuel == 0 {
            return Ok(());
        }
        let before = state.indent_begin();
        let ty = if self.is_inline(state.hash) {
            self.ty(state.hash)
        } else {
            None
        };
        let r = Type::print_members_entries(w, state, ty, fuel - 1);
        state.indent_end(before);
        r
    }
}

/// Printing a member, and below it the members of its type, where that has
/// no name of its own.
pub open spec fn member_out(cx: Cursor, hash: &FileHash, m: Member, fuel: usize) -> Out
    decreases fuel, 0int, 0int,
{
    line_out(cx, m.text(hash)).and(
        if fuel > 0 {
            members_entries_out(cx.deeper(), hash, m.inline_type(hash), (fuel - 1) as usize)
        } else {
            Out::nothing()
        },
    )
}

/// Printing the members of a type. A type that is neither a struct nor a
/// union has none that could be printed.
pub open spec fn members_entries_out(cx: Cursor, hash: &FileHash, ty: Option<&Type>, fuel: usize) -> Out
    decreases fuel, 3int, 0int,
{
    match ty {
        Some(ty) => match ty.kind {
            TypeKind::Struct(t) => struct_entries_out(cx, hash, t, fuel),
            TypeKind::Union(t) => union_entries_upto(cx, hash, t.members@, t.members@.len() as int, fuel),
            _ => Out::failure(),
        },
        None => Out::nothing(),
    }
}

/// Printing the members of a struct, with the padding between them and
/// after them.
pub open spec fn struct_entries_out(cx: Cursor, hash: &FileHash, t: StructType, fuel: usize) -> Out
    decreases fuel, 2int, 0int,
{
    struct_entries_upto(cx, hash, t.members@, t.members@.len() as int, fuel).and(
        line_option_out(
            cx,
            padding_text(
                padding_after(t.byte_size, end_before(hash, t.members@, t.members@.len() as int)),
            ),
        ),
    )
}

/// Printing the first `n` members of a struct, each with the padding before
/// it.
pub open spec fn struct_entries_upto(
    cx: Cursor,
    hash: &FileHash,
    members: Seq<Member>,
    n: int,
    fuel: usize,
) -> Out
    decreases fuel, 1int, n,
{
    if n <= 0 {
        Out::nothing()
    } else {
        struct_entries_upto(cx, hash, members, n - 1, fuel).and(
            line_option_out(
                cx,
                padding_text(
                    padding_before(members[n - 1].bit_offset, end_before(hash, members, n - 1)),
                ),
            ),
        ).and(member_out(cx, hash, members[n - 1], fuel))
    }
}

/// Printing the first `n` members of a union.
pub open spec fn union_entries_upto(
    cx: Cursor,
    hash: &FileHash,
    members: Seq<Member>,
    n: int,
    fuel: usize,
) -> Out
    decreases fuel, 1int, n,
{
    if n <= 0 {
        Out::nothing()
    } else {
        union_entries_upto(cx, hash, members, n - 1, fuel).and(
            member_out(cx, hash, members[n - 1], fuel),
        )
    }
}

/// Once printing the members of a struct has failed, it stays failed.
pub proof fn lemma_struct_entries_failed(
    cx: Cursor,
    hash: &FileHash,
    members: Seq<Member>,
    n: int,
    m: int,
    fuel: usize,
)
    requires
        n <= m,
        struct_entries_upto(cx, hash, members, n, fuel).failed,
    ensures
        struct_entries_upto(cx, hash, members, m, fuel).failed,
    decreases m - n,
{
    if n < m {
        lemma_struct_entries_failed(cx, hash, members, n, m - 1, fuel);
    }
}

/// Once printing the members of a union has failed, it stays failed.
pub proof fn lemma_union_entries_failed(
    cx: Cursor,
    hash: &FileHash,
    members: Seq<Member>,
    n: int,
    m: int,
    fuel: usize,
)
    requires
        n <= m,
        union_entries_upto(cx, hash, members, n, fuel).failed,
    ensures
        union_entries_upto(cx, hash, members, m, fuel).failed,
    decreases m - n,
{
    if n < m {
        lemma_union_entries_failed(cx, hash, members, n, m - 1, fuel);
    }
}

impl Type {
    /// Prints the members of a type, which must be a struct or a union.
    pub fn print_members_entries(
        w: &mut Vec<u8>,
        state: &mut PrintState,
        ty: Option<&Type>,
        fuel: usize,
    ) -> (r: Result<(), Error>)
        ensures
            printed(
                *old(state),
                old(w)@,
                *final(state),
                final(w)@,
                r is Ok,
                members_entries_out(old(state).cursor(), old(state).hash, ty, fuel),
            ),
        decreases fuel, 3int, 0int,
    {
        broadcast use group_bytes;

        if let Some(ty) = ty {
            match &ty.kind {
                TypeKind::Struct(t) => {
                    return t.print_members_entries(w, state, fuel);
                },
                TypeKind::Union(t) => {
                    return t.print_members_entries(w, state, fuel);
                },
                _ => {
                    return Err(Error::new("can't print members entries"));
                },
            }
        }
        Ok(())
    }
}

impl StructType {
    /// The padding at the end of the struct, where its last member ends at
    /// `bit_offset`. Returns (offset, size) of padding.
    pub fn padding(&self, bit_offset: Option<u64>) -> (padding: Option<(u64, u64)>)
        ensures
            padding == padding_after(self.byte_size, bit_offset),
    {
        if let (Some(bit_offset), Some(size)) = (bit_offset, self.byte_size) {
            if let Some(bits) = size.checked_mul(8) {
                if bit_offset < bits {
                    return Some((bit_offset, bits - bit_offset));
                }
            }
        }
        None
    }

    /// Prints the members of the struct, with the padding between them and
    /// after them.
    pub fn print_members_entries(&self, w: &mut Vec<u8>, state: &mut PrintState, fuel: usize) -> (r:
        Result<(), Error>)
        ensures
            printed(
                *old(state),
                old(w)@,
                *final(state),
                final(w)@,
                r is Ok,
                struct_entries_out(old(state).cursor(), old(state).hash, *self, fuel),
            ),
        decreases fuel, 2int, 0int,
    {
        let ghost cx = state.cursor();
        let ghost hash = state.hash;
        let mut bit_offset: Option<u64> = Some(0);
        let mut i: usize = 0;
        proof {
            lemma_printed_nothing(*state, w@);
        }
        while i < self.members.len()
            invariant
                i <= self.members@.len(),
                cx == old(state).cursor(),
                hash == old(state).hash,
                bit_offset == end_before(hash, self.members@, i as int),
                printed(
                    *old(state),
                    old(w)@,
                    *state,
                    w@,
                    true,
                    struct_entries_upto(cx, hash, self.members@, i as int, fuel),
                ),
            decreases self.members@.len() - i,
        {
            let member = &self.members[i];
            let ghost s0 = *state;
            let ghost w0 = w@;
            let ghost done = struct_entries_upto(cx, hash, self.members@, i as int, fuel);
            let ghost pad = line_option_out(
                cx,
                padding_text(
                    padding_before(member.bit_offset, end_before(hash, self.members@, i as int)),
                ),
            );
            let mut buf: Vec<u8> = Vec::new();
            Member::print_padding(&mut buf, member.padding(bit_offset));
            state.line_option(w, buf.as_slice());
            let ghost s1 = *state;
            let ghost w1 = w@;
            let r = member.print(w, state, fuel);
            proof {
                lemma_printed_and(*old(state), old(w)@, s0, w0, s1, w1, true, done, pad);
                lemma_printed_and(
                    *old(state),
                    old(w)@,
                    s1,
                    w1,
                    *state,
                    w@,
                    r is Ok,
                    done.and(pad),
                    member_out(cx, hash, *member, fuel),
                );
                assert(struct_entries_upto(cx, hash, self.members@, i + 1, fuel) == done.and(pad).and(
                    member_out(cx, hash, *member, fuel),
                ));
            }
            if r.is_err() {
                proof {
                    lemma_struct_entries_failed(
                        cx,
                        hash,
                        self.members@,
                        i + 1,
                        self.members@.len() as int,
                        fuel,
                    );
                }
                return r;
            }
            bit_offset = member.end_bit_offset(state.hash);
            i += 1;
        }
        let ghost s0 = *state;
        let ghost w0 = w@;
        let mut buf: Vec<u8> = Vec::new();
        Member::print_padding(&mut buf, self.padding(bit_offset));
        state.line_option(w, buf.as_slice());
        proof {
            lemma_printed_and(
                *old(state),
                old(w)@,
                s0,
                w0,
                *state,
                w@,
                true,
                struct_entries_upto(cx, hash, self.members@, self.members@.len() as int, fuel),
                line_option_out(
                    cx,
                    padding_text(
                        padding_after(
                            self.byte_size,
                            end_before(hash, self.members@, self.members@.len() as int),
                        ),
                    ),
                ),
            );
        }
        Ok(())
    }
}

impl UnionType {
    /// Prints the members of the union.
    pub fn print_members_entries(&self, w: &mut Vec<u8>, state: &mut PrintState, fuel: usize) -> (r:
        Result<(), Error>)
        ensures
            printed(
                *old(state),
                old(w)@,
                *final(state),
                final(w)@,
                r is Ok,
                union_entries_upto(
                    old(state).cursor(),
                    old(state).hash,
                    self.members@,
                    self.members@.len() as int,
                    fuel,
                ),
            ),
        decreases fuel, 2int, 0int,
    {
        let ghost cx = state.cursor();
        let ghost hash = state.hash;
        let mut i: usize = 0;
        proof {
            lemma_printed_nothing(*state, w@);
        }
        while i < self.members.len()
            invariant
                i <= self.members@.len(),
                cx == old(state).cursor(),
                hash == old(state).hash,
                printed(
                    *old(state),
                    old(w)@,
                    *state,
                    w@,
                    true,
                    union_entries_upto(cx, hash, self.members@, i as int, fuel),
                ),
            decreases self.members@.len() - i,
        {
            let ghost s0 = *state;
            let ghost w0 = w@;
            let r = self.members[i].print(w, state, fuel);
            proof {
                lemma_printed_and(
                    *old(state),
                    old(w)@,
                    s0,
                    w0,
                    *state,
                    w@,
                    r is Ok,
                    union_entries_upto(cx, hash, self.members@, i as int, fuel),
                    member_out(cx, hash, self.members@[i as int], fuel),
                );
                assert(union_entries_upto(cx, hash, self.members@, i + 1, fuel)
                    == union_entries_upto(cx, hash, self.members@, i as int, fuel).and(
                    member_out(cx, hash, self.members@[i as int], fuel),
                ));
            }
            if r.is_err() {
                proof {
                    lemma_union_entries_failed(
                        cx,
                        hash,
                        self.members@,
                        i + 1,
                        self.members@.len() as int,
                        fuel,
                    );
                }
                return r;
            }
            i += 1;
        }
        Ok(())
    }
}


/// The costs of aligning two lists of members: taking a member alone costs
/// one, and pairing two members costs one for names that differ and one
/// for types that differ.
pub open spec fn member_costs(
    hash_a: &FileHash,
    ma: Seq<Member>,
    hash_b: &FileHash,
    mb: Seq<Member>,
) -> Costs {
    list_costs(
        ma.len(),
        mb.len(),
        |i: int| 1nat,
        |j: int| 1nat,
        |i: int, j: int| entry_pair(hash_a, ma[i].name, ma[i].ty, hash_b, mb[j].name, mb[j].ty),
    )
}

/// The padding before the members at `i` and `j` of two structs, compared.
pub open spec fn padding_pair_out(
    cx: Cursor2,
    hash_a: &FileHash,
    hash_b: &FileHash,
    ma: Seq<Member>,
    mb: Seq<Member>,
    i: int,
    j: int,
) -> Out2 {
    pair_out(
        cx,
        padding_text(padding_before(ma[i].bit_offset, end_before(hash_a, ma, i))),
        padding_text(padding_before(mb[j].bit_offset, end_before(hash_b, mb, j))),
    )
}

/// Comparing two members, and below them the members of their types, where
/// those have no names of their own.
pub open spec fn member_diff_out(
    cx: Cursor2,
    hash_a: &FileHash,
    hash_b: &FileHash,
    a: Member,
    b: Member,
    fuel: usize,
    choice: Choice,
) -> Out2
    decreases fuel, 0int, 0int,
{
    pair_out(cx, a.text(hash_a), b.text(hash_b)).and(
        if fuel > 0 {
            diff_members_entries_out(
                cx.deeper(),
                hash_a,
                hash_b,
                a.inline_type(hash_a),
                b.inline_type(hash_b),
                (fuel - 1) as usize,
                choice,
            )
        } else {
            Out2::nothing()
        },
    )
}

/// Printing the members of two types that are not compared: those of the
/// first as removed and those of the second as added.
pub open spec fn split_members_out(
    cx: Cursor2,
    hash_a: &FileHash,
    hash_b: &FileHash,
    ty_a: Option<&Type>,
    ty_b: Option<&Type>,
    fuel: usize,
) -> Out2 {
    Out2::on_a(members_entries_out(cx.a.marked(DiffPrefix::Less), hash_a, ty_a, fuel)).and(
        Out2::on_b(members_entries_out(cx.b.marked(DiffPrefix::Greater), hash_b, ty_b, fuel)),
    )
}

/// Comparing the members of two types. The members of two structs or of two
/// unions are aligned and compared; the members of other types are printed
/// as removed and as added.
pub open spec fn diff_members_entries_out(
    cx: Cursor2,
    hash_a: &FileHash,
    hash_b: &FileHash,
    ty_a: Option<&Type>,
    ty_b: Option<&Type>,
    fuel: usize,
    choice: Choice,
) -> Out2
    decreases fuel, 3int, 0int,
{
    match (ty_a, ty_b) {
        (Some(x), Some(y)) => match (x.kind, y.kind) {
            (TypeKind::Struct(s), TypeKind::Struct(t)) => member_list_out(
                cx,
                hash_a,
                hash_b,
                s.members@,
                t.members@,
                true,
                s.byte_size,
                t.byte_size,
                fuel,
                choice,
            ),
            (TypeKind::Union(s), TypeKind::Union(t)) => member_list_out(
                cx,
                hash_a,
                hash_b,
                s.members@,
                t.members@,
                false,
                s.byte_size,
                t.byte_size,
                fuel,
                choice,
            ),
            _ => split_members_out(cx, hash_a, hash_b, ty_a, ty_b, fuel),
        },
        _ => split_members_out(cx, hash_a, hash_b, ty_a, ty_b, fuel),
    }
}

/// The padding after the last members of two structs, compared.
pub open spec fn member_tail_out(
    cx: Cursor2,
    hash_a: &FileHash,
    hash_b: &FileHash,
    ma: Seq<Member>,
    mb: Seq<Member>,
    padded: bool,
    size_a: Option<u64>,
    size_b: Option<u64>,
) -> Out2 {
    if padded {
        pair_out(
            cx,
            padding_text(padding_after(size_a, end_before(hash_a, ma, ma.len() as int))),
            padding_text(padding_after(size_b, end_before(hash_b, mb, mb.len() as int))),
        )
    } else {
        Out2::nothing()
    }
}

/// Comparing two lists of members by a least-cost script, with the padding
/// between the members and after them where `padded` is set.
pub open spec fn member_list_out(
    cx: Cursor2,
    hash_a: &FileHash,
    hash_b: &FileHash,
    ma: Seq<Member>,
    mb: Seq<Member>,
    padded: bool,
    size_a: Option<u64>,
    size_b: Option<u64>,
    fuel: usize,
    choice: Choice,
) -> Out2
    decreases fuel, 2int, 0int,
{
    let c = member_costs(hash_a, ma, hash_b, mb);
    if !c.fits() {
        Out2::failure()
    } else {
        let body = member_steps_out(
            cx,
            hash_a,
            hash_b,
            ma,
            mb,
            padded,
            fuel,
            choice.script,
            choice.subs,
            choice.script.len() as int,
        ).and(member_tail_out(cx, hash_a, hash_b, ma, mb, padded, size_a, size_b));
        Out2 { valid: optimal(c, choice.script) && body.valid, ..body }
    }
}

/// The first `k` steps of comparing two lists of members by a script.
pub open spec fn member_steps_out(
    cx: Cursor2,
    hash_a: &FileHash,
    hash_b: &FileHash,
    ma: Seq<Member>,
    mb: Seq<Member>,
    padded: bool,
    fuel: usize,
    script: Seq<Direction>,
    subs: Seq<Choice>,
    k: int,
) -> Out2
    decreases fuel, 1int, k,
{
    if k <= 0 {
        Out2::nothing()
    } else {
        member_steps_out(cx, hash_a, hash_b, ma, mb, padded, fuel, script, subs, k - 1).and(
            member_move_out(
                cx,
                hash_a,
                hash_b,
                ma,
                mb,
                padded,
                fuel,
                script[k - 1],
                pos_a(script, k - 1),
                pos_b(script, k - 1),
                subs[k - 1],
            ),
        )
    }
}

/// One step of comparing two lists of members: the members at `i` and `j`
/// compared, with the padding before them, or one of them printed as
/// removed or as added.
pub open spec fn member_move_out(
    cx: Cursor2,
    hash_a: &FileHash,
    hash_b: &FileHash,
    ma: Seq<Member>,
    mb: Seq<Member>,
    padded: bool,
    fuel: usize,
    step: Direction,
    i: int,
    j: int,
    sub: Choice,
) -> Out2
    decreases fuel, 0int, 1int,
{
    match step {
        Direction::Diagonal => (if padded {
            padding_pair_out(cx, hash_a, hash_b, ma, mb, i, j)
        } else {
            Out2::nothing()
        }).and(member_diff_out(cx, hash_a, hash_b, ma[i], mb[j], fuel, sub)),
        Direction::Horizontal => Out2::on_a(
            member_out(cx.a.marked(DiffPrefix::Less), hash_a, ma[i], fuel),
        ),
        Direction::Vertical => Out2::on_b(
            member_out(cx.b.marked(DiffPrefix::Greater), hash_b, mb[j], fuel),
        ),
        Direction::Start => Out2::nothing(),
    }
}

/// What the first `k` steps of comparing two lists of members do depends on
/// the choices of these steps alone.
pub proof fn lemma_member_steps_same(
    cx: Cursor2,
    hash_a: &FileHash,
    hash_b: &FileHash,
    ma: Seq<Member>,
    mb: Seq<Member>,
    padded: bool,
    fuel: usize,
    script: Seq<Direction>,
    subs1: Seq<Choice>,
    subs2: Seq<Choice>,
    k: int,
)
    requires
        forall|t: int| 0 <= t < k ==> subs1[t] == subs2[t],
    ensures
        member_steps_out(cx, hash_a, hash_b, ma, mb, padded, fuel, script, subs1, k)
            == member_steps_out(cx, hash_a, hash_b, ma, mb, padded, fuel, script, subs2, k),
    decreases k,
{
    if k > 0 {
        lemma_member_steps_same(cx, hash_a, hash_b, ma, mb, padded, fuel, script, subs1, subs2, k - 1);
    }
}

/// Once comparing two lists of members has failed, it stays failed, and the
/// choices that come after do not matter.
pub proof fn lemma_member_steps_failed(
    cx: Cursor2,
    hash_a: &FileHash,
    hash_b: &FileHash,
    ma: Seq<Member>,
    mb: Seq<Member>,
    padded: bool,
    fuel: usize,
    script: Seq<Direction>,
    subs: Seq<Choice>,
    n: int,
    m: int,
)
    requires
        n <= m,
        member_steps_out(cx, hash_a, hash_b, ma, mb, padded, fuel, script, subs, n).failed,
    ensures
        member_steps_out(cx, hash_a, hash_b, ma, mb, padded, fuel, script, subs, m).failed,
        member_steps_out(cx, hash_a, hash_b, ma, mb, padded, fuel, script, subs, m).valid
            == member_steps_out(cx, hash_a, hash_b, ma, mb, padded, fuel, script, subs, n).valid,
    decreases m - n,
{
    if n < m {
        lemma_member_steps_failed(cx, hash_a, hash_b, ma, mb, padded, fuel, script, subs, n, m - 1);
    }
}

/// A list of costs of one each sums up to its length.
pub proof fn lemma_ones_sum(n: nat, k: int)
    requires
        0 <= k <= n,
    ensures
        tail_sum(Seq::new(n, |i: int| 1nat), k) == n - k,
    decreases n - k,
{
    if k < n {
        lemma_ones_sum(n, k + 1);
    }
}

/// A list of `n` costs of one each.
pub fn ones(n: usize) -> (list: Vec<usize>)
    ensures
        list@.len() == n,
        forall|i: int| 0 <= i < n ==> list@[i] == 1,
{
    let mut list: Vec<usize> = Vec::new();
    let mut i: usize = 0;
    while i < n
        invariant
            i <= n,
            list@.len() == i,
            forall|k: int| 0 <= k < i ==> list@[k] == 1,
        decreases n - i,
    {
        list.push(1);
        i += 1;
    }
    list
}

impl Member {
    /// Compares two members, and below them the members of their types,
    /// where those have no names of their own.
    pub fn diff(
        w: &mut Vec<u8>,
        state: &mut DiffState,
        a: &Member,
        b: &Member,
        fuel: usize,
    ) -> (r: Result<(), Error>)
        requires
            old(state).wf(),
        ensures
            exists|choice: Choice|
                chosen(
                    #[trigger] member_diff_out(
                        old(state).cursor(),
                        old(state).a.hash,
                        old(state).b.hash,
                        *a,
                        *b,
                        fuel,
                        choice,
                    ),
                    *old(state),
                    old(w)@,
                    *final(state),
                    final(w)@,
                    r is Ok,
                ),
        decreases fuel, 0int, 0int,
    {
        let ghost cx = state.cursor();
        let ghost hash_a = state.a.hash;
        let ghost hash_b = state.b.hash;
        let mut text_a: Vec<u8> = Vec::new();
        a.print_name(&mut text_a, state.a.hash);
        let mut text_b: Vec<u8> = Vec::new();
        b.print_name(&mut text_b, state.b.hash);
        state.line(w, text_a.as_slice(), text_b.as_slice());
        let ghost head = pair_out(cx, a.text(hash_a), b.text(hash_b));
        if fuel == 0 {
            proof {
                let choice = Choice { script: Seq::empty(), subs: Seq::empty() };
                lemma_diffed_nothing(*state, w@);
                lemma_diffed_and(
                    *old(state),
                    old(w)@,
                    *state,
                    w@,
                    *state,
                    w@,
                    true,
                    head,
                    Out2::nothing(),
                );
                assert(chosen(
                    member_diff_out(cx, hash_a, hash_b, *a, *b, fuel, choice),
                    *old(state),
                    old(w)@,
                    *state,
                    w@,
                    true,
                ));
            }
            return Ok(());
        }
        let ghost s1 = *state;
        let ghost w1 = w@;
        let before = state.indent_begin();
        let ghost s2 = *state;
        let ty_a = if a.is_inline(state.a.hash) {
            a.ty(state.a.hash)
        } else {
            None
        };
        let ty_b = if b.is_inline(state.b.hash) {
            b.ty(state.b.hash)
        } else {
            None
        };
        let r = Type::diff_members_entries(w, state, ty_a, ty_b, fuel - 1);
        let ghost s3 = *state;
        state.indent_end(before);
        proof {
            let choice = choose|choice: Choice|
                chosen(
                    #[trigger] diff_members_entries_out(
                        cx.deeper(),
                        hash_a,
                        hash_b,
                        ty_a,
                        ty_b,
                        (fuel - 1) as usize,
                        choice,
                    ),
                    s2,
                    w1,
                    s3,
                    w@,
                    r is Ok,
                );
            let body = diff_members_entries_out(
                cx.deeper(),
                hash_a,
                hash_b,
                ty_a,
                ty_b,
                (fuel - 1) as usize,
                choice,
            );
            assert(diffed(s1, w1, *state, w@, r is Ok, body));
            lemma_diffed_and(*old(state), old(w)@, s1, w1, *state, w@, r is Ok, head, body);
            assert(chosen(
                member_diff_out(cx, hash_a, hash_b, *a, *b, fuel, choice),
                *old(state),
                old(w)@,
                *state,
                w@,
                r is Ok,
            ));
        }
        r
    }
}

/// Prints the members of two types that are not compared: those of the
/// first as removed and those of the second as added.
fn split_members(
    w: &mut Vec<u8>,
    state: &mut DiffState,
    type_a: Option<&Type>,
    type_b: Option<&Type>,
    fuel: usize,
) -> (r: Result<(), Error>)
    requires
        old(state).wf(),
    ensures
        diffed(
            *old(state),
            old(w)@,
            *final(state),
            final(w)@,
            r is Ok,
            split_members_out(
                old(state).cursor(),
                old(state).a.hash,
                old(state).b.hash,
                type_a,
                type_b,
                fuel,
            ),
        ),
{
    let ghost cx = state.cursor();
    let ghost hash_a = state.a.hash;
    let ghost hash_b = state.b.hash;
    let before = state.prefix_diff();
    let r = Type::print_members_entries(w, &mut state.a, type_a, fuel);
    if r.is_err() {
        state.prefix_end(before);
        return r;
    }
    let ghost s1 = *state;
    let ghost w1 = w@;
    let r = Type::print_members_entries(w, &mut state.b, type_b, fuel);
    state.prefix_end(before);
    proof {
        let out_a = Out2::on_a(
            members_entries_out(cx.a.marked(DiffPrefix::Less), hash_a, type_a, fuel),
        );
        let out_b = Out2::on_b(
            members_entries_out(cx.b.marked(DiffPrefix::Greater), hash_b, type_b, fuel),
        );
        let s1r = DiffState {
            a: PrintState { prefix: before.0, ..s1.a },
            b: PrintState { prefix: before.1, ..s1.b },
            ..s1
        };
        assert(diffed(*old(state), old(w)@, s1r, w1, true, out_a));
        assert(diffed(s1r, w1, *state, w@, r is Ok, out_b));
        lemma_diffed_and(*old(state), old(w)@, s1r, w1, *state, w@, r is Ok, out_a, out_b);
    }
    r
}

impl Type {
    /// Compares the members of two types. The members of two structs or of
    /// two unions are aligned and compared; the members of other types are
    /// printed as removed and as added.
    pub fn diff_members_entries(
        w: &mut Vec<u8>,
        state: &mut DiffState,
        type_a: Option<&Type>,
        type_b: Option<&Type>,
        fuel: usize,
    ) -> (r: Result<(), Error>)
        requires
            old(state).wf(),
        ensures
            exists|choice: Choice|
                chosen(
                    #[trigger] diff_members_entries_out(
                        old(state).cursor(),
                        old(state).a.hash,
                        old(state).b.hash,
                        type_a,
                        type_b,
                        fuel,
                        choice,
                    ),
                    *old(state),
                    old(w)@,
                    *final(state),
                    final(w)@,
                    r is Ok,
                ),
        decreases fuel, 3int, 0int,
    {
        if let (Some(x), Some(y)) = (type_a, type_b) {
            match (&x.kind, &y.kind) {
                (TypeKind::Struct(a), TypeKind::Struct(b)) => {
                    let r = StructType::diff_members_entries(w, state, a, b, fuel);
                    proof {
                        let choice = choose|choice: Choice|
                            chosen(
                                #[trigger] member_list_out(
                                    old(state).cursor(),
                                    old(state).a.hash,
                                    old(state).b.hash,
                                    a.members@,
                                    b.members@,
                                    true,
                                    a.byte_size,
                                    b.byte_size,
                                    fuel,
                                    choice,
                                ),
                                *old(state),
                                old(w)@,
                                *state,
                                w@,
                                r is Ok,
                            );
                        assert(chosen(
                            diff_members_entries_out(
                                old(state).cursor(),
                                old(state).a.hash,
                                old(state).b.hash,
                                type_a,
                                type_b,
                                fuel,
                                choice,
                            ),
                            *old(state),
                            old(w)@,
                            *state,
                            w@,
                            r is Ok,
                        ));
                    }
                    return r;
                },
                (TypeKind::Union(a), TypeKind::Union(b)) => {
                    let r = UnionType::diff_members_entries(w, state, a, b, fuel);
                    proof {
                        let choice = choose|choice: Choice|
                            chosen(
                                #[trigger] member_list_out(
                                    old(state).cursor(),
                                    old(state).a.hash,
                                    old(state).b.hash,
                                    a.members@,
                                    b.members@,
                                    false,
                                    a.byte_size,
                                    b.byte_size,
                                    fuel,
                                    choice,
                                ),
                                *old(state),
                                old(w)@,
                                *state,
                                w@,
                                r is Ok,
                            );
                        assert(chosen(
                            diff_members_entries_out(
                                old(state).cursor(),
                                old(state).a.hash,
                                old(state).b.hash,
                                type_a,
                                type_b,
                                fuel,
                                choice,
                            ),
                            *old(state),
                            old(w)@,
                            *state,
                            w@,
                            r is Ok,
                        ));
                    }
                    return r;
                },
                _ => {},
            }
        }
        let r = split_members(w, state, type_a, type_b, fuel);
        proof {
            let choice = Choice { script: Seq::empty(), subs: Seq::empty() };
            assert(chosen(
                diff_members_entries_out(
                    old(state).cursor(),
                    old(state).a.hash,
                    old(state).b.hash,
                    type_a,
                    type_b,
                    fuel,
                    choice,
                ),
                *old(state),
                old(w)@,
                *state,
                w@,
                r is Ok,
            ));
        }
        r
    }
}

impl StructType {
    /// Compares the members of two structs, with the padding between them
    /// and after them.
    pub fn diff_members_entries(
        w: &mut Vec<u8>,
        state: &mut DiffState,
        a: &StructType,
        b: &StructType,
        fuel: usize,
    ) -> (r: Result<(), Error>)
        requires
            old(state).wf(),
        ensures
            exists|choice: Choice|
                chosen(
                    #[trigger] member_list_out(
                        old(state).cursor(),
                        old(state).a.hash,
                        old(state).b.hash,
                        a.members@,
                        b.members@,
                        true,
                        a.byte_size,
                        b.byte_size,
                        fuel,
                        choice,
                    ),
                    *old(state),
                    old(w)@,
                    *final(state),
                    final(w)@,
                    r is Ok,
                ),
        decreases fuel, 2int, 1int,
    {
        diff_member_list(
            w,
            state,
            a.members.as_slice(),
            b.members.as_slice(),
            true,
            a.byte_size,
            b.byte_size,
            fuel,
        )
    }
}

impl UnionType {
    /// Compares the members of two unions.
    pub fn diff_members_entries(
        w: &mut Vec<u8>,
        state: &mut DiffState,
        a: &UnionType,
        b: &UnionType,
        fuel: usize,
    ) -> (r: Result<(), Error>)
        requires
            old(state).wf(),
        ensures
            exists|choice: Choice|
                chosen(
                    #[trigger] member_list_out(
                        old(state).cursor(),
                        old(state).a.hash,
                        old(state).b.hash,
                        a.members@,
                        b.members@,
                        false,
                        a.byte_size,
                        b.byte_size,
                        fuel,
                        choice,
                    ),
                    *old(state),
                    old(w)@,
                    *final(state),
                    final(w)@,
                    r is Ok,
                ),
        decreases fuel, 2int, 1int,
    {
        diff_member_list(
            w,
            state,
            a.members.as_slice(),
            b.members.as_slice(),
            false,
            a.byte_size,
            b.byte_size,
            fuel,
        )
    }
}

/// Takes one step of comparing two lists of members.
fn member_move(
    w: &mut Vec<u8>,
    state: &mut DiffState,
    ma: &[Member],
    mb: &[Member],
    padded: bool,
    fuel: usize,
    step: Direction,
    ia: usize,
    ib: usize,
) -> (r: (Result<(), Error>, Ghost<Choice>))
    requires
        old(state).wf(),
        step == Direction::Diagonal || step == Direction::Horizontal ==> ia < ma@.len(),
        step == Direction::Diagonal || step == Direction::Vertical ==> ib < mb@.len(),
    ensures
        chosen(
            member_move_out(
                old(state).cursor(),
                old(state).a.hash,
                old(state).b.hash,
                ma@,
                mb@,
                padded,
                fuel,
                step,
                ia as int,
                ib as int,
                r.1@,
            ),
            *old(state),
            old(w)@,
            *final(state),
            final(w)@,
            r.0 is Ok,
        ),
    decreases fuel, 0int, 1int,
{
    let ghost cx = state.cursor();
    let ghost hash_a = state.a.hash;
    let ghost hash_b = state.b.hash;
    let ghost mut sub = Choice { script: Seq::empty(), subs: Seq::empty() };
    let result = match step {
        Direction::Start => {
            proof {
                lemma_diffed_nothing(*state, w@);
            }
            Ok(())
        },
        Direction::Diagonal => {
            let ghost mut head = Out2::nothing();
            proof {
                lemma_diffed_nothing(*state, w@);
            }
            if padded {
                let end_a = if ia == 0 {
                    Some(0)
                } else {
                    ma[ia - 1].end_bit_offset(state.a.hash)
                };
                let end_b = if ib == 0 {
                    Some(0)
                } else {
                    mb[ib - 1].end_bit_offset(state.b.hash)
                };
                let mut text_a: Vec<u8> = Vec::new();
                Member::print_padding(&mut text_a, ma[ia].padding(end_a));
                let mut text_b: Vec<u8> = Vec::new();
                Member::print_padding(&mut text_b, mb[ib].padding(end_b));
                state.line_option(w, text_a.as_slice(), text_b.as_slice());
                proof {
                    head = padding_pair_out(cx, hash_a, hash_b, ma@, mb@, ia as int, ib as int);
                }
            }
            let ghost s1 = *state;
            let ghost w1 = w@;
            let result = Member::diff(w, state, &ma[ia], &mb[ib], fuel);
            proof {
                sub = choose|sub: Choice|
                    chosen(
                        #[trigger] member_diff_out(
                            cx,
                            hash_a,
                            hash_b,
                            ma@[ia as int],
                            mb@[ib as int],
                            fuel,
                            sub,
                        ),
                        s1,
                        w1,
                        *state,
                        w@,
                        result is Ok,
                    );
                lemma_diffed_and(
                    *old(state),
                    old(w)@,
                    s1,
                    w1,
                    *state,
                    w@,
                    result is Ok,
                    head,
                    member_diff_out(cx, hash_a, hash_b, ma@[ia as int], mb@[ib as int], fuel, sub),
                );
            }
            result
        },
        Direction::Horizontal => {
            let before = state.a.prefix_begin(DiffPrefix::Less);
            let result = ma[ia].print(w, &mut state.a, fuel);
            state.a.prefix_end(before);
            result
        },
        Direction::Vertical => {
            let before = state.b.prefix_begin(DiffPrefix::Greater);
            let result = mb[ib].print(w, &mut state.b, fuel);
            state.b.prefix_end(before);
            result
        },
    };
    (result, Ghost(sub))
}

/// Compares two lists of members by a least-cost script, with the padding
/// between the members and after them where `padded` is set.
#[verifier::rlimit(30)]
pub fn diff_member_list(
    w: &mut Vec<u8>,
    state: &mut DiffState,
    ma: &[Member],
    mb: &[Member],
    padded: bool,
    size_a: Option<u64>,
    size_b: Option<u64>,
    fuel: usize,
) -> (r: Result<(), Error>)
    requires
        old(state).wf(),
    ensures
        exists|choice: Choice|
            chosen(
                #[trigger] member_list_out(
                    old(state).cursor(),
                    old(state).a.hash,
                    old(state).b.hash,
                    ma@,
                    mb@,
                    padded,
                    size_a,
                    size_b,
                    fuel,
                    choice,
                ),
                *old(state),
                old(w)@,
                *final(state),
                final(w)@,
                r is Ok,
            ),
    decreases fuel, 2int, 0int,
{
    let hash_a = state.a.hash;
    let hash_b = state.b.hash;
    let ghost cx = state.cursor();
    let ghost c = member_costs(hash_a, ma@, hash_b, mb@);
    let n = ma.len();
    let m = mb.len();
    proof {
        lemma_ones_sum(ma@.len(), 0);
        lemma_ones_sum(mb@.len(), 0);
        assert(c.step_a =~= Seq::new(ma@.len(), |i: int| 1nat));
        assert(c.step_b =~= Seq::new(mb@.len(), |i: int| 1nat));
    }
    if !lists_fit(n, m, Some(n), Some(m)) {
        proof {
            let choice = Choice { script: Seq::empty(), subs: Seq::empty() };
            assert(chosen(
                member_list_out(cx, hash_a, hash_b, ma@, mb@, padded, size_a, size_b, fuel, choice),
                *old(state),
                old(w)@,
                *state,
                w@,
                false,
            ));
        }
        return Err(Error::new("too many members to compare"));
    }
    let step1 = ones(n);
    let step2 = ones(m);
    let pair = |a: &Member, b: &Member| -> (cost: usize)
        ensures
            cost == entry_pair(hash_a, a.name, a.ty, hash_b, b.name, b.ty),
        { Member::diff_cost(hash_a, a, hash_b, b) };
    let path = align(ma, mb, step1.as_slice(), step2.as_slice(), pair, Ghost(c));
    let ghost script = path@;
    let ghost mut subs: Seq<Choice> = Seq::empty();
    proof {
        lemma_steps_in_range(c, script);
        lemma_diffed_nothing(*state, w@);
    }
    let mut ia: usize = 0;
    let mut ib: usize = 0;
    let mut k: usize = 0;
    let mut result: Result<(), Error> = Ok(());
    while k < path.len() && result.is_ok()
        invariant
            n == ma@.len(),
            m == mb@.len(),
            k <= script.len(),
            script == path@,
            steps_in_range(script, ma@.len() as int, mb@.len() as int),
            ia == pos_a(script, k as int),
            ib == pos_b(script, k as int),
            subs.len() == k,
            old(state).wf(),
            hash_a == old(state).a.hash,
            hash_b == old(state).b.hash,
            cx == old(state).cursor(),
            member_steps_out(cx, hash_a, hash_b, ma@, mb@, padded, fuel, script, subs, k as int).valid,
            diffed(
                *old(state),
                old(w)@,
                *state,
                w@,
                result is Ok,
                member_steps_out(cx, hash_a, hash_b, ma@, mb@, padded, fuel, script, subs, k as int),
            ),
        decreases script.len() - k + (if result is Ok { 1int } else { 0int }),
    {
        let ghost s_k = *state;
        let ghost w_k = w@;
        let ghost subs_k = subs;
        proof {
            assert(pos_a(script, k + 1) == pos_a(script, k as int) + crate::path::takes_a(
                script[k as int],
            ));
            assert(pos_b(script, k + 1) == pos_b(script, k as int) + crate::path::takes_b(
                script[k as int],
            ));
        }
        let step = path[k];
        let (moved, chose) = member_move(w, state, ma, mb, padded, fuel, step, ia, ib);
        result = moved;
        match step {
            Direction::Start => {},
            Direction::Diagonal => {
                ia += 1;
                ib += 1;
            },
            Direction::Horizontal => {
                ia += 1;
            },
            Direction::Vertical => {
                ib += 1;
            },
        }
        proof {
            subs = subs_k.push(chose@);
            lemma_member_steps_same(
                cx,
                hash_a,
                hash_b,
                ma@,
                mb@,
                padded,
                fuel,
                script,
                subs_k,
                subs,
                k as int,
            );
            let done = member_steps_out(
                cx,
                hash_a,
                hash_b,
                ma@,
                mb@,
                padded,
                fuel,
                script,
                subs,
                k as int,
            );
            let this = member_move_out(
                cx,
                hash_a,
                hash_b,
                ma@,
                mb@,
                padded,
                fuel,
                script[k as int],
                pos_a(script, k as int),
                pos_b(script, k as int),
                subs[k as int],
            );
            assert(subs[k as int] == chose@);
            assert(diffed(s_k, w_k, *state, w@, result is Ok, this));
            lemma_diffed_and(*old(state), old(w)@, s_k, w_k, *state, w@, result is Ok, done, this);
            assert(member_steps_out(cx, hash_a, hash_b, ma@, mb@, padded, fuel, script, subs, k + 1)
                == done.and(this));
        }
        k += 1;
    }
    let ghost steps = member_steps_out(
        cx,
        hash_a,
        hash_b,
        ma@,
        mb@,
        padded,
        fuel,
        script,
        subs,
        script.len() as int,
    );
    let ghost s_end = *state;
    let ghost w_end = w@;
    proof {
        if result is Err {
            lemma_member_steps_failed(
                cx,
                hash_a,
                hash_b,
                ma@,
                mb@,
                padded,
                fuel,
                script,
                subs,
                k as int,
                script.len() as int,
            );
        }
    }
    if result.is_ok() {
        member_tail(w, state, ma, mb, padded, size_a, size_b);
    }
    proof {
        let choice = Choice { script, subs };
        let tail = member_tail_out(cx, hash_a, hash_b, ma@, mb@, padded, size_a, size_b);
        if result is Ok {
            lemma_diffed_and(*old(state), old(w)@, s_end, w_end, *state, w@, true, steps, tail);
        }
        assert(chosen(
            member_list_out(cx, hash_a, hash_b, ma@, mb@, padded, size_a, size_b, fuel, choice),
            *old(state),
            old(w)@,
            *state,
            w@,
            result is Ok,
        ));
    }
    result
}

/// Compares the padding after the last members of two structs.
fn member_tail(
    w: &mut Vec<u8>,
    state: &mut DiffState,
    ma: &[Member],
    mb: &[Member],
    padded: bool,
    size_a: Option<u64>,
    size_b: Option<u64>,
)
    ensures
        diffed(
            *old(state),
            old(w)@,
            *final(state),
            final(w)@,
            true,
            member_tail_out(
                old(state).cursor(),
                old(state).a.hash,
                old(state).b.hash,
                ma@,
                mb@,
                padded,
                size_a,
                size_b,
            ),
        ),
{
    if padded {
        let n = ma.len();
        let m = mb.len();
        let end_a = if n == 0 {
            Some(0)
        } else {
            ma[n - 1].end_bit_offset(state.a.hash)
        };
        let end_b = if m == 0 {
            Some(0)
        } else {
            mb[m - 1].end_bit_offset(state.b.hash)
        };
        let mut text_a: Vec<u8> = Vec::new();
        Member::print_padding(&mut text_a, struct_padding(size_a, end_a));
        let mut text_b: Vec<u8> = Vec::new();
        Member::print_padding(&mut text_b, struct_padding(size_b, end_b));
        proof {
            assert(Seq::<u8>::empty() + padding_text(padding_after(size_a, end_a)) =~= padding_text(
                padding_after(size_a, end_a),
            ));
            assert(Seq::<u8>::empty() + padding_text(padding_after(size_b, end_b)) =~= padding_text(
                padding_after(size_b, end_b),
            ));
        }
        state.line_option(w, text_a.as_slice(), text_b.as_slice());
    } else {
        proof {
            lemma_diffed_nothing(*state, w@);
        }
    }
}

/// The padding at the end of a struct of the size `byte_size`, where its
/// last member ends at `bit_offset`.
pub fn struct_padding(byte_size: Option<u64>, bit_offset: Option<u64>) -> (padding: Option<(u64, u64)>)
    ensures
        padding == padding_after(byte_size, bit_offset),
{
    if let (Some(bit_offset), Some(size)) = (bit_offset, byte_size) {
        if let Some(bits) = size.checked_mul(8) {
            if bit_offset < bits {
                return Some((bit_offset, bits - bit_offset));
            }
        }
    }
    None
}

} // verus!
