//! Comparing types.
use vstd::prelude::*;
use vstd::string::StringSliceAdditionalSpecFns;
use crate::file::FileHash;
use crate::list::{chosen, diff_list_out, label_text, list_label, Choice, Print};
use crate::members::{diff_member_list, member_list_out};
use crate::print::{
    diffed, lemma_diffed_and, lemma_diffed_nothing, pair_out, Cursor2, DiffPrefix, DiffState, Out,
    Out2, PrintState,
};
use crate::seqs::group_bytes;
use crate::type_print::{
    declaration_line, declaration_text, enumeration_text, size_line, size_text, struct_text,
    type_members_out, type_out, typedef_anon, typedef_text, union_text,
};
use crate::types::{
    size_at, EnumerationType, Enumerator, StructType, Type, TypeDef, TypeKind, UnionType,
};
use crate::unit::Unit;
use crate::{Error, Flags};

verus! {

/// Comparing the members of two structs or of two unions below their
/// labels.
pub open spec fn diff_members_out(
    cx: Cursor2,
    hash_a: &FileHash,
    hash_b: &FileHash,
    ma: Seq<crate::types::Member>,
    mb: Seq<crate::types::Member>,
    padded: bool,
    size_a: Option<u64>,
    size_b: Option<u64>,
    fuel: usize,
    choice: Choice,
) -> Out2 {
    pair_out(cx, label_text("members", ma.len()), label_text("members", mb.len())).and(
        member_list_out(cx.deeper(), hash_a, hash_b, ma, mb, padded, size_a, size_b, fuel, choice),
    )
}

/// Printing the members of two types that are not compared, below their
/// labels: those of the first as removed and those of the second as added.
pub open spec fn split_type_members_out(
    cx: Cursor2,
    hash_a: &FileHash,
    hash_b: &FileHash,
    ty_a: Option<&Type>,
    ty_b: Option<&Type>,
    fuel: usize,
) -> Out2 {
    Out2::on_a(type_members_out(cx.a.marked(DiffPrefix::Less), hash_a, ty_a, fuel)).and(
        Out2::on_b(type_members_out(cx.b.marked(DiffPrefix::Greater), hash_b, ty_b, fuel)),
    )
}

/// Comparing the members of two types below their labels. The members of
/// two structs or of two unions are aligned and compared; the members of
/// other types are printed as removed and as added.
pub open spec fn type_diff_members_out(
    cx: Cursor2,
    hash_a: &FileHash,
    hash_b: &FileHash,
    ty_a: Option<&Type>,
    ty_b: Option<&Type>,
    fuel: usize,
    choice: Choice,
) -> Out2 {
    match (ty_a, ty_b) {
        (Some(x), Some(y)) => match (x.kind, y.kind) {
            (TypeKind::Struct(s), TypeKind::Struct(t)) => diff_members_out(
                cx,
                hash_a,
                hash_b,
                s.members@,
                t.members@,
                true,
                s.byte_size,
                t.byte_size,
                fuel,
                choice,
            ),
            (TypeKind::Union(s), TypeKind::Union(t)) => diff_members_out(
                cx,
                hash_a,
                hash_b,
                s.members@,
                t.members@,
                false,
                s.byte_size,
                t.byte_size,
                fuel,
                choice,
            ),
            _ => split_type_members_out(cx, hash_a, hash_b, ty_a, ty_b, fuel),
        },
        _ => split_type_members_out(cx, hash_a, hash_b, ty_a, ty_b, fuel),
    }
}

/// Comparing two structs: their lines, and one level further in whether
/// they are declarations only, their sizes and their members.
pub open spec fn struct_diff_out(
    cx: Cursor2,
    hash_a: &FileHash,
    hash_b: &FileHash,
    a: StructType,
    b: StructType,
    choice: Choice,
) -> Out2 {
    pair_out(cx, struct_text(a), struct_text(b)).and(
        pair_out(cx.deeper(), declaration_text(a.declaration), declaration_text(b.declaration)),
    ).and(pair_out(cx.deeper(), size_text(a.byte_size), size_text(b.byte_size))).and(
        diff_members_out(
            cx.deeper(),
            hash_a,
            hash_b,
            a.members@,
            b.members@,
            true,
            a.byte_size,
            b.byte_size,
            hash_a.depth(),
            choice,
        ),
    )
}

/// Comparing two unions.
pub open spec fn union_diff_out(
    cx: Cursor2,
    hash_a: &FileHash,
    hash_b: &FileHash,
    a: UnionType,
    b: UnionType,
    choice: Choice,
) -> Out2 {
    pair_out(cx, union_text(a), union_text(b)).and(
        pair_out(cx.deeper(), declaration_text(a.declaration), declaration_text(b.declaration)),
    ).and(pair_out(cx.deeper(), size_text(a.byte_size), size_text(b.byte_size))).and(
        diff_members_out(
            cx.deeper(),
            hash_a,
            hash_b,
            a.members@,
            b.members@,
            false,
            a.byte_size,
            b.byte_size,
            hash_a.depth(),
            choice,
        ),
    )
}

/// Comparing two type definitions: their lines, and one level further in
/// their sizes and the members of the types that they stand for, where
/// those have no names of their own.
pub open spec fn typedef_diff_out(
    cx: Cursor2,
    hash_a: &FileHash,
    hash_b: &FileHash,
    a: TypeDef,
    b: TypeDef,
    choice: Choice,
) -> Out2 {
    pair_out(cx, typedef_text(hash_a, a), typedef_text(hash_b, b)).and(
        pair_out(
            cx.deeper(),
            size_text(size_at(hash_a, a.ty, hash_a.depth())),
            size_text(size_at(hash_b, b.ty, hash_b.depth())),
        ),
    ).and(
        type_diff_members_out(
            cx.deeper(),
            hash_a,
            hash_b,
            typedef_anon(hash_a, a),
            typedef_anon(hash_b, b),
            hash_a.depth(),
            choice,
        ),
    )
}

/// Comparing two enumerations: their lines, and one level further in
/// whether they are declarations only, their sizes and their enumerators.
pub open spec fn enumeration_diff_out(
    cx: Cursor2,
    hash_a: &FileHash,
    hash_b: &FileHash,
    options: &Flags,
    a: EnumerationType,
    b: EnumerationType,
    choice: Choice,
) -> Out2 {
    pair_out(cx, enumeration_text(a), enumeration_text(b)).and(
        pair_out(cx.deeper(), declaration_text(a.declaration), declaration_text(b.declaration)),
    ).and(pair_out(cx.deeper(), size_text(a.size(hash_a)), size_text(b.size(hash_b)))).and(
        diff_list_out::<Enumerator>(
            cx.deeper(),
            hash_a,
            hash_b,
            options,
            "enumerators",
            &(),
            a.enumerators@,
            &(),
            b.enumerators@,
            choice,
        ),
    )
}

/// Comparing two types. Only two type definitions, two structs, two unions
/// or two enumerations can be compared.
pub open spec fn type_diff_out(
    cx: Cursor2,
    hash_a: &FileHash,
    hash_b: &FileHash,
    options: &Flags,
    a: &Type,
    b: &Type,
    choice: Choice,
) -> Out2 {
    match (a.kind, b.kind) {
        (TypeKind::Def(x), TypeKind::Def(y)) => typedef_diff_out(cx, hash_a, hash_b, x, y, choice),
        (TypeKind::Struct(x), TypeKind::Struct(y)) => struct_diff_out(
            cx,
            hash_a,
            hash_b,
            x,
            y,
            choice,
        ),
        (TypeKind::Union(x), TypeKind::Union(y)) => union_diff_out(cx, hash_a, hash_b, x, y, choice),
        (TypeKind::Enumeration(x), TypeKind::Enumeration(y)) => enumeration_diff_out(
            cx,
            hash_a,
            hash_b,
            options,
            x,
            y,
            choice,
        ),
        _ => Out2::failure(),
    }
}

/// Compares the members of two structs or of two unions below their labels.
pub fn diff_members(
    w: &mut Vec<u8>,
    state: &mut DiffState,
    ma: &[crate::types::Member],
    mb: &[crate::types::Member],
    padded: bool,
    size_a: Option<u64>,
    size_b: Option<u64>,
    fuel: usize,
) -> (r: Result<(), Error>)
    requires
        old(state).wf(),
    ensures
        exists|choice: Choice|
            chosen(
                #[trigger] diff_members_out(
                    old(state).cursor(),
                    old(state).a.hash,
                    old(state).b.hash,
                    ma@,
                    mb@,
                    padded,
                    size_a,
                    size_b,
                    fuel,
                    choice,
                ),
                *old(state),
                old(w)@,
                *final(state),
                final(w)@,
                r is Ok,
            ),
{
    let ghost cx = state.cursor();
    let ghost hash_a = state.a.hash;
    let ghost hash_b = state.b.hash;
    let text_a = list_label("members", ma.len());
    let text_b = list_label("members", mb.len());
    state.line_option(w, text_a.as_slice(), text_b.as_slice());
    let ghost s1 = *state;
    let ghost w1 = w@;
    let before = state.indent_begin();
    let ghost s2 = *state;
    let r = diff_member_list(w, state, ma, mb, padded, size_a, size_b, fuel);
    let ghost s3 = *state;
    state.indent_end(before);
    proof {
        let choice = choose|choice: Choice|
            chosen(
                #[trigger] member_list_out(
                    cx.deeper(),
                    hash_a,
                    hash_b,
                    ma@,
                    mb@,
                    padded,
                    size_a,
                    size_b,
                    fuel,
                    choice,
                ),
                s2,
                w1,
                s3,
                w@,
                r is Ok,
            );
        let head = pair_out(cx, label_text("members", ma@.len()), label_text("members", mb@.len()));
        let body = member_list_out(
            cx.deeper(),
            hash_a,
            hash_b,
            ma@,
            mb@,
            padded,
            size_a,
            size_b,
            fuel,
            choice,
        );
        assert(diffed(s1, w1, *state, w@, r is Ok, body));
        lemma_diffed_and(*old(state), old(w)@, s1, w1, *state, w@, r is Ok, head, body);
        assert(chosen(
            diff_members_out(cx, hash_a, hash_b, ma@, mb@, padded, size_a, size_b, fuel, choice),
            *old(state),
            old(w)@,
            *state,
            w@,
            r is Ok,
        ));
    }
    r
}

/// Prints the members of two types that are not compared, below their
/// labels.
fn split_type_members(
    w: &mut Vec<u8>,
    state: &mut DiffState,
    type_a: Option<&Type>,
    type_b: Option<&Type>,
    fuel: usize,
) -> (r: Result<(), Error>)
    requires
        old(state).wf(),
    ensures
        diffed(
            *old(state),
            old(w)@,
            *final(state),
            final(w)@,
            r is Ok,
            split_type_members_out(
                old(state).cursor(),
                old(state).a.hash,
                old(state).b.hash,
                type_a,
                type_b,
                fuel,
            ),
        ),
{
    let ghost cx = state.cursor();
    let ghost hash_a = state.a.hash;
    let ghost hash_b = state.b.hash;
    let before = state.prefix_diff();
    let r = Type::print_members(w, &mut state.a, type_a, fuel);
    if r.is_err() {
        state.prefix_end(before);
        return r;
    }
    let ghost s1 = *state;
    let ghost w1 = w@;
    let r = Type::print_members(w, &mut state.b, type_b, fuel);
    state.prefix_end(before);
    proof {
        let out_a = Out2::on_a(type_members_out(cx.a.marked(DiffPrefix::Less), hash_a, type_a, fuel));
        let out_b = Out2::on_b(
            type_members_out(cx.b.marked(DiffPrefix::Greater), hash_b, type_b, fuel),
        );
        let s1r = DiffState {
            a: PrintState { prefix: before.0, ..s1.a },
            b: PrintState { prefix: before.1, ..s1.b },
            ..s1
        };
        assert(diffed(*old(state), old(w)@, s1r, w1, true, out_a));
        assert(diffed(s1r, w1, *state, w@, r is Ok, out_b));
        lemma_diffed_and(*old(state), old(w)@, s1r, w1, *state, w@, r is Ok, out_a, out_b);
    }
    r
}

impl Type {
    /// Compares the members of two types below their labels.
    pub fn diff_members(
        w: &mut Vec<u8>,
        state: &mut DiffState,
        type_a: Option<&Type>,
        type_b: Option<&Type>,
        fuel: usize,
    ) -> (r: Result<(), Error>)
        requires
            old(state).wf(),
        ensures
            exists|choice: Choice|
                chosen(
                    #[trigger] type_diff_members_out(
                        old(state).cursor(),
                        old(state).a.hash,
                        old(state).b.hash,
                        type_a,
                        type_b,
                        fuel,
                        choice,
                    ),
                    *old(state),
                    old(w)@,
                    *final(state),
                    final(w)@,
                    r is Ok,
                ),
    {
        let ghost cx = state.cursor();
        let ghost hash_a = state.a.hash;
        let ghost hash_b = state.b.hash;
        if let (Some(x), Some(y)) = (type_a, type_b) {
            match (&x.kind, &y.kind) {
                (TypeKind::Struct(a), TypeKind::Struct(b)) => {
                    let r = StructType::diff_members(w, state, a, b, fuel);
                    proof {
                        let choice = choose|choice: Choice|
                            chosen(
                                #[trigger] diff_members_out(
                                    cx,
                                    hash_a,
                                    hash_b,
                                    a.members@,
                                    b.members@,
                                    true,
                                    a.byte_size,
                                    b.byte_size,
                                    fuel,
                                    choice,
                                ),
                                *old(state),
                                old(w)@,
                                *state,
                                w@,
                                r is Ok,
                            );
                        assert(chosen(
                            type_diff_members_out(cx, hash_a, hash_b, type_a, type_b, fuel, choice),
                            *old(state),
                            old(w)@,
                            *state,
                            w@,
                            r is Ok,
                        ));
                    }
                    return r;
                },
                (TypeKind::Union(a), TypeKind::Union(b)) => {
                    let r = UnionType::diff_members(w, state, a, b, fuel);
                    proof {
                        let choice = choose|choice: Choice|
                            chosen(
                                #[trigger] diff_members_out(
                                    cx,
                                    hash_a,
                                    hash_b,
                                    a.members@,
                                    b.members@,
                                    false,
                                    a.byte_size,
                                    b.byte_size,
                                    fuel,
                                    choice,
                                ),
                                *old(state),
                                old(w)@,
                                *state,
                                w@,
                                r is Ok,
                            );
                        assert(chosen(
                            type_diff_members_out(cx, hash_a, hash_b, type_a, type_b, fuel, choice),
                            *old(state),
                            old(w)@,
                            *state,
                            w@,
                            r is Ok,
                        ));
                    }
                    return r;
                },
                _ => {},
            }
        }
        // Two types of two kinds: each is shown whole, on its own side.
        let r = split_type_members(w, state, type_a, type_b, fuel);
        proof {
            let choice = Choice { script: Seq::empty(), subs: Seq::empty() };
            assert(chosen(
                type_diff_members_out(cx, hash_a, hash_b, type_a, type_b, fuel, choice),
                *old(state),
                old(w)@,
                *state,
                w@,
                r is Ok,
            ));
        }
        r
    }

    /// Compares two types. Only two type definitions, two structs, two
    /// unions or two enumerations can be compared.
    pub fn diff(w: &mut Vec<u8>, state: &mut DiffState, type_a: &Type, type_b: &Type) -> (r: Result<
        (),
        Error,
    >)
        requires
            old(state).wf(),
        ensures
            exists|choice: Choice|
                chosen(
                    #[trigger] type_diff_out(
                        old(state).cursor(),
                        old(state).a.hash,
                        old(state).b.hash,
                        old(state).options,
                        type_a,
                        type_b,
                        choice,
                    ),
                    *old(state),
                    old(w)@,
                    *final(state),
                    final(w)@,
                    r is Ok,
                ),
    {
        let ghost cx = state.cursor();
        let ghost hash_a = state.a.hash;
        let ghost hash_b = state.b.hash;
        let ghost options = state.options;
        match (&type_a.kind, &type_b.kind) {
            (TypeKind::Def(a), TypeKind::Def(b)) => {
                let r = TypeDef::diff(w, state, a, b);
                proof {
                    let choice = choose|choice: Choice|
                        chosen(
                            #[trigger] typedef_diff_out(cx, hash_a, hash_b, *a, *b, choice),
                            *old(state),
                            old(w)@,
                            *state,
                            w@,
                            r is Ok,
                        );
                    assert(chosen(
                        type_diff_out(cx, hash_a, hash_b, options, type_a, type_b, choice),
                        *old(state),
                        old(w)@,
                        *state,
                        w@,
                        r is Ok,
                    ));
                }
                r
            },
            (TypeKind::Struct(a), TypeKind::Struct(b)) => {
                let r = StructType::diff(w, state, a, b);
                proof {
                    let choice = choose|choice: Choice|
                        chosen(
                            #[trigger] struct_diff_out(cx, hash_a, hash_b, *a, *b, choice),
                            *old(state),
                            old(w)@,
                            *state,
                            w@,
                            r is Ok,
                        );
                    assert(chosen(
                        type_diff_out(cx, hash_a, hash_b, options, type_a, type_b, choice),
                        *old(state),
                        old(w)@,
                        *state,
                        w@,
                        r is Ok,
                    ));
                }
                r
            },
            (TypeKind::Union(a), TypeKind::Union(b)) => {
                let r = UnionType::diff(w, state, a, b);
                proof {
                    let choice = choose|choice: Choice|
                        chosen(
                            #[trigger] union_diff_out(cx, hash_a, hash_b, *a, *b, choice),
                            *old(state),
                            old(w)@,
                            *state,
                            w@,
                            r is Ok,
                        );
                    assert(chosen(
                        type_diff_out(cx, hash_a, hash_b, options, type_a, type_b, choice),
                        *old(state),
                        old(w)@,
                        *state,
                        w@,
                        r is Ok,
                    ));
                }
                r
            },
            (TypeKind::Enumeration(a), TypeKind::Enumeration(b)) => {
                let r = EnumerationType::diff(w, state, a, b);
                proof {
                    let choice = choose|choice: Choice|
                        chosen(
                            #[trigger] enumeration_diff_out(
                                cx,
                                hash_a,
                                hash_b,
                                options,
                                *a,
                                *b,
                                choice,
                            ),
                            *old(state),
                            old(w)@,
                            *state,
                            w@,
                            r is Ok,
                        );
                    assert(chosen(
                        type_diff_out(cx, hash_a, hash_b, options, type_a, type_b, choice),
                        *old(state),
                        old(w)@,
                        *state,
                        w@,
                        r is Ok,
                    ));
                }
                r
            },
            _ => {
                proof {
                    let choice = Choice { script: Seq::empty(), subs: Seq::empty() };
                    assert(chosen(
                        type_diff_out(cx, hash_a, hash_b, options, type_a, type_b, choice),
                        *old(state),
                        old(w)@,
                        *state,
                        w@,
                        false,
                    ));
                }
                Err(Error::new("can't diff types of different kinds"))
            },
        }
    }
}

/// Compares the first three lines of two entries: their own lines, and one
/// level further in two more. Leaves the cursors one level further in, and
/// says how far lines were indented before.
fn diff_head(
    w: &mut Vec<u8>,
    state: &mut DiffState,
    a1: &[u8],
    b1: &[u8],
    a2: &[u8],
    b2: &[u8],
    a3: &[u8],
    b3: &[u8],
) -> (before: (usize, usize))
    ensures
        before == (old(state).a.indent, old(state).b.indent),
        diffed(
            DiffState {
                a: PrintState { indent: old(state).a.cursor().deeper().indent, ..old(state).a },
                b: PrintState { indent: old(state).b.cursor().deeper().indent, ..old(state).b },
                ..*old(state)
            },
            old(w)@,
            *final(state),
            final(w)@,
            true,
            pair_out(old(state).cursor(), a1@, b1@).and(
                pair_out(old(state).cursor().deeper(), a2@, b2@),
            ).and(pair_out(old(state).cursor().deeper(), a3@, b3@)),
        ),
{
    let ghost cx = state.cursor();
    state.line(w, a1, b1);
    let ghost s1 = *state;
    let ghost w1 = w@;
    let before = state.indent_begin();
    let ghost s1d = *state;
    state.line_option(w, a2, b2);
    let ghost s2 = *state;
    let ghost w2 = w@;
    state.line_option(w, a3, b3);
    proof {
        let o1 = pair_out(cx, a1@, b1@);
        let o2 = pair_out(cx.deeper(), a2@, b2@);
        let o3 = pair_out(cx.deeper(), a3@, b3@);
        let start = DiffState {
            a: PrintState { indent: old(state).a.cursor().deeper().indent, ..old(state).a },
            b: PrintState { indent: old(state).b.cursor().deeper().indent, ..old(state).b },
            ..*old(state)
        };
        assert(diffed(start, old(w)@, s1d, w1, true, o1));
        lemma_diffed_and(start, old(w)@, s1d, w1, s2, w2, true, o1, o2);
        lemma_diffed_and(start, old(w)@, s2, w2, *state, w@, true, o1.and(o2), o3);
    }
    before
}

impl StructType {
    /// Compares the members of two structs below their labels.
    pub fn diff_members(
        w: &mut Vec<u8>,
        state: &mut DiffState,
        a: &StructType,
        b: &StructType,
        fuel: usize,
    ) -> (r: Result<(), Error>)
        requires
            old(state).wf(),
        ensures
            exists|choice: Choice|
                chosen(
                    #[trigger] diff_members_out(
                        old(state).cursor(),
                        old(state).a.hash,
                        old(state).b.hash,
                        a.members@,
                        b.members@,
                        true,
                        a.byte_size,
                        b.byte_size,
                        fuel,
                        choice,
                    ),
                    *old(state),
                    old(w)@,
                    *final(state),
                    final(w)@,
                    r is Ok,
                ),
    {
        diff_members(
            w,
            state,
            a.members.as_slice(),
            b.members.as_slice(),
            true,
            a.byte_size,
            b.byte_size,
            fuel,
        )
    }

    /// Compares two structs.
    pub fn diff(w: &mut Vec<u8>, state: &mut DiffState, a: &StructType, b: &StructType) -> (r: Result<
        (),
        Error,
    >)
        requires
            old(state).wf(),
        ensures
            exists|choice: Choice|
                chosen(
                    #[trigger] struct_diff_out(
                        old(state).cursor(),
                        old(state).a.hash,
                        old(state).b.hash,
                        *a,
                        *b,
                        choice,
                    ),
                    *old(state),
                    old(w)@,
                    *final(state),
                    final(w)@,
                    r is Ok,
                ),
    {
        let ghost cx = state.cursor();
        let ghost hash_a = state.a.hash;
        let ghost hash_b = state.b.hash;
        // As a rule two types that are compared have one name; nothing ensures it.
        let mut name_a: Vec<u8> = Vec::new();
        let mut name_b: Vec<u8> = Vec::new();
        proof {
            assert(name_a@ + struct_text(*a) =~= struct_text(*a));
            assert(name_b@ + struct_text(*b) =~= struct_text(*b));
        }
        a.print_ref(&mut name_a);
        b.print_ref(&mut name_b);
        let decl_a = declaration_line(a.declaration);
        let decl_b = declaration_line(b.declaration);
        let size_a = size_line(a.byte_size);
        let size_b = size_line(b.byte_size);
        let before = diff_head(
            w,
            state,
            name_a.as_slice(),
            name_b.as_slice(),
            decl_a.as_slice(),
            decl_b.as_slice(),
            size_a.as_slice(),
            size_b.as_slice(),
        );
        let ghost s1 = *state;
        let ghost w1 = w@;
        let r = StructType::diff_members(w, state, a, b, state.a.hash.fuel());
        let ghost s2 = *state;
        state.indent_end(before);
        proof {
            let choice = choose|choice: Choice|
                chosen(
                    #[trigger] diff_members_out(
                        cx.deeper(),
                        hash_a,
                        hash_b,
                        a.members@,
                        b.members@,
                        true,
                        a.byte_size,
                        b.byte_size,
                        hash_a.depth(),
                        choice,
                    ),
                    s1,
                    w1,
                    s2,
                    w@,
                    r is Ok,
                );
            let head = pair_out(cx, struct_text(*a), struct_text(*b)).and(
                pair_out(
                    cx.deeper(),
                    declaration_text(a.declaration),
                    declaration_text(b.declaration),
                ),
            ).and(pair_out(cx.deeper(), size_text(a.byte_size), size_text(b.byte_size)));
            let body = diff_members_out(
                cx.deeper(),
                hash_a,
                hash_b,
                a.members@,
                b.members@,
                true,
                a.byte_size,
                b.byte_size,
                hash_a.depth(),
                choice,
            );
            let start = DiffState {
                a: PrintState { indent: old(state).a.cursor().deeper().indent, ..old(state).a },
                b: PrintState { indent: old(state).b.cursor().deeper().indent, ..old(state).b },
                ..*old(state)
            };
            lemma_diffed_and(start, old(w)@, s1, w1, s2, w@, r is Ok, head, body);
            assert(diffed(*old(state), old(w)@, *state, w@, r is Ok, head.and(body)));
            assert(chosen(
                struct_diff_out(cx, hash_a, hash_b, *a, *b, choice),
                *old(state),
                old(w)@,
                *state,
                w@,
                r is Ok,
            ));
        }
        r
    }
}

impl UnionType {
    /// Compares the members of two unions below their labels.
    pub fn diff_members(
        w: &mut Vec<u8>,
        state: &mut DiffState,
        a: &UnionType,
        b: &UnionType,
        fuel: usize,
    ) -> (r: Result<(), Error>)
        requires
            old(state).wf(),
        ensures
            exists|choice: Choice|
                chosen(
                    #[trigger] diff_members_out(
                        old(state).cursor(),
                        old(state).a.hash,
                        old(state).b.hash,
                        a.members@,
                        b.members@,
                        false,
                        a.byte_size,
                        b.byte_size,
                        fuel,
                        choice,
                    ),
                    *old(state),
                    old(w)@,
                    *final(state),
                    final(w)@,
                    r is Ok,
                ),
    {
        diff_members(
            w,
            state,
            a.members.as_slice(),
            b.members.as_slice(),
            false,
            a.byte_size,
            b.byte_size,
            fuel,
        )
    }

    /// Compares two unions.
    pub fn diff(w: &mut Vec<u8>, state: &mut DiffState, a: &UnionType, b: &UnionType) -> (r: Result<
        (),
        Error,
    >)
        requires
            old(state).wf(),
        ensures
            exists|choice: Choice|
                chosen(
                    #[trigger] union_diff_out(
                        old(state).cursor(),
                        old(state).a.hash,
                        old(state).b.hash,
                        *a,
                        *b,
                        choice,
                    ),
                    *old(state),
                    old(w)@,
                    *final(state),
                    final(w)@,
                    r is Ok,
                ),
    {
        let ghost cx = state.cursor();
        let ghost hash_a = state.a.hash;
        let ghost hash_b = state.b.hash;
        // As a rule two types that are compared have one name; nothing ensures it.
        let mut name_a: Vec<u8> = Vec::new();
        let mut name_b: Vec<u8> = Vec::new();
        proof {
            assert(name_a@ + union_text(*a) =~= union_text(*a));
            assert(name_b@ + union_text(*b) =~= union_text(*b));
        }
        a.print_ref(&mut name_a);
        b.print_ref(&mut name_b);
        let decl_a = declaration_line(a.declaration);
        let decl_b = declaration_line(b.declaration);
        let size_a = size_line(a.byte_size);
        let size_b = size_line(b.byte_size);
        let before = diff_head(
            w,
            state,
            name_a.as_slice(),
            name_b.as_slice(),
            decl_a.as_slice(),
            decl_b.as_slice(),
            size_a.as_slice(),
            size_b.as_slice(),
        );
        let ghost s1 = *state;
        let ghost w1 = w@;
        let r = UnionType::diff_members(w, state, a, b, state.a.hash.fuel());
        let ghost s2 = *state;
        state.indent_end(before);
        proof {
            let choice = choose|choice: Choice|
                chosen(
                    #[trigger] diff_members_out(
                        cx.deeper(),
                        hash_a,
                        hash_b,
                        a.members@,
                        b.members@,
                        false,
                        a.byte_size,
                        b.byte_size,
                        hash_a.depth(),
                        choice,
                    ),
                    s1,
                    w1,
                    s2,
                    w@,
                    r is Ok,
                );
            let head = pair_out(cx, union_text(*a), union_text(*b)).and(
                pair_out(
                    cx.deeper(),
                    declaration_text(a.declaration),
                    declaration_text(b.declaration),
                ),
            ).and(pair_out(cx.deeper(), size_text(a.byte_size), size_text(b.byte_size)));
            let body = diff_members_out(
                cx.deeper(),
                hash_a,
                hash_b,
                a.members@,
                b.members@,
                false,
                a.byte_size,
                b.byte_size,
                hash_a.depth(),
                choice,
            );
            let start = DiffState {
                a: PrintState { indent: old(state).a.cursor().deeper().indent, ..old(state).a },
                b: PrintState { indent: old(state).b.cursor().deeper().indent, ..old(state).b },
                ..*old(state)
            };
            lemma_diffed_and(start, old(w)@, s1, w1, s2, w@, r is Ok, head, body);
            assert(diffed(*old(state), old(w)@, *state, w@, r is Ok, head.and(body)));
            assert(chosen(
                union_diff_out(cx, hash_a, hash_b, *a, *b, choice),
                *old(state),
                old(w)@,
                *state,
                w@,
                r is Ok,
            ));
        }
        r
    }
}

impl EnumerationType {
    /// Compares two enumerations.
    pub fn diff(
        w: &mut Vec<u8>,
        state: &mut DiffState,
        a: &EnumerationType,
        b: &EnumerationType,
    ) -> (r: Result<(), Error>)
        requires
            old(state).wf(),
        ensures
            exists|choice: Choice|
                chosen(
                    #[trigger] enumeration_diff_out(
                        old(state).cursor(),
                        old(state).a.hash,
                        old(state).b.hash,
                        old(state).options,
                        *a,
                        *b,
                        choice,
                    ),
                    *old(state),
                    old(w)@,
                    *final(state),
                    final(w)@,
                    r is Ok,
                ),
    {
        let ghost cx = state.cursor();
        let ghost hash_a = state.a.hash;
        let ghost hash_b = state.b.hash;
        let ghost options = state.options;
        // As a rule two types that are compared have one name; nothing ensures it.
        let mut name_a: Vec<u8> = Vec::new();
        let mut name_b: Vec<u8> = Vec::new();
        proof {
            assert(name_a@ + enumeration_text(*a) =~= enumeration_text(*a));
            assert(name_b@ + enumeration_text(*b) =~= enumeration_text(*b));
        }
        a.print_ref(&mut name_a);
        b.print_ref(&mut name_b);
        let decl_a = declaration_line(a.declaration);
        let decl_b = declaration_line(b.declaration);
        let size_a = size_line(a.byte_size(state.a.hash));
        let size_b = size_line(b.byte_size(state.b.hash));
        let before = diff_head(
            w,
            state,
            name_a.as_slice(),
            name_b.as_slice(),
            decl_a.as_slice(),
            decl_b.as_slice(),
            size_a.as_slice(),
            size_b.as_slice(),
        );
        let ghost s1 = *state;
        let ghost w1 = w@;
        let r = state.list::<Enumerator>(
            "enumerators",
            w,
            &(),
            a.enumerators.as_slice(),
            &(),
            b.enumerators.as_slice(),
        );
        let ghost s2 = *state;
        state.indent_end(before);
        proof {
            let choice = choose|choice: Choice|
                chosen(
                    #[trigger] diff_list_out::<Enumerator>(
                        cx.deeper(),
                        hash_a,
                        hash_b,
                        options,
                        "enumerators",
                        &(),
                        a.enumerators@,
                        &(),
                        b.enumerators@,
                        choice,
                    ),
                    s1,
                    w1,
                    s2,
                    w@,
                    r is Ok,
                );
            let head = pair_out(cx, enumeration_text(*a), enumeration_text(*b)).and(
                pair_out(
                    cx.deeper(),
                    declaration_text(a.declaration),
                    declaration_text(b.declaration),
                ),
            ).and(pair_out(cx.deeper(), size_text(a.size(hash_a)), size_text(b.size(hash_b))));
            let body = diff_list_out::<Enumerator>(
                cx.deeper(),
                hash_a,
                hash_b,
                options,
                "enumerators",
                &(),
                a.enumerators@,
                &(),
                b.enumerators@,
                choice,
            );
            let start = DiffState {
                a: PrintState { indent: old(state).a.cursor().deeper().indent, ..old(state).a },
                b: PrintState { indent: old(state).b.cursor().deeper().indent, ..old(state).b },
                ..*old(state)
            };
            lemma_diffed_and(start, old(w)@, s1, w1, s2, w@, r is Ok, head, body);
            assert(diffed(*old(state), old(w)@, *state, w@, r is Ok, head.and(body)));
            assert(chosen(
                enumeration_diff_out(cx, hash_a, hash_b, options, *a, *b, choice),
                *old(state),
                old(w)@,
                *state,
                w@,
                r is Ok,
            ));
        }
        r
    }
}

impl TypeDef {
    /// Compares two type definitions.
    pub fn diff(w: &mut Vec<u8>, state: &mut DiffState, a: &TypeDef, b: &TypeDef) -> (r: Result<
        (),
        Error,
    >)
        requires
            old(state).wf(),
        ensures
            exists|choice: Choice|
                chosen(
                    #[trigger] typedef_diff_out(
                        old(state).cursor(),
                        old(state).a.hash,
                        old(state).b.hash,
                        *a,
                        *b,
                        choice,
                    ),
                    *old(state),
                    old(w)@,
                    *final(state),
                    final(w)@,
                    r is Ok,
                ),
    {
        let ghost cx = state.cursor();
        let ghost hash_a = state.a.hash;
        let ghost hash_b = state.b.hash;
        let mut name_a: Vec<u8> = Vec::new();
        let mut name_b: Vec<u8> = Vec::new();
        let mut size_a: Vec<u8> = Vec::new();
        let mut size_b: Vec<u8> = Vec::new();
        proof {
            assert(name_a@ + typedef_text(hash_a, *a) =~= typedef_text(hash_a, *a));
            assert(name_b@ + typedef_text(hash_b, *b) =~= typedef_text(hash_b, *b));
            assert(size_a@ + size_text(size_at(hash_a, a.ty, hash_a.depth())) =~= size_text(
                size_at(hash_a, a.ty, hash_a.depth()),
            ));
            assert(size_b@ + size_text(size_at(hash_b, b.ty, hash_b.depth())) =~= size_text(
                size_at(hash_b, b.ty, hash_b.depth()),
            ));
        }
        a.print_name(&mut name_a, state.a.hash);
        b.print_name(&mut name_b, state.b.hash);
        a.print_byte_size(&mut size_a, state.a.hash);
        b.print_byte_size(&mut size_b, state.b.hash);
        state.line(w, name_a.as_slice(), name_b.as_slice());
        let ghost s1 = *state;
        let ghost w1 = w@;
        let before = state.indent_begin();
        let ghost s1d = *state;
        state.line_option(w, size_a.as_slice(), size_b.as_slice());
        let ghost s2 = *state;
        let ghost w2 = w@;
        let ty_a = a.anon_type(state.a.hash);
        let ty_b = b.anon_type(state.b.hash);
        let r = Type::diff_members(w, state, ty_a, ty_b, state.a.hash.fuel());
        let ghost s3 = *state;
        state.indent_end(before);
        proof {
            let choice = choose|choice: Choice|
                chosen(
                    #[trigger] type_diff_members_out(
                        cx.deeper(),
                        hash_a,
                        hash_b,
                        ty_a,
                        ty_b,
                        hash_a.depth(),
                        choice,
                    ),
                    s2,
                    w2,
                    s3,
                    w@,
                    r is Ok,
                );
            let o1 = pair_out(cx, typedef_text(hash_a, *a), typedef_text(hash_b, *b));
            let o2 = pair_out(
                cx.deeper(),
                size_text(size_at(hash_a, a.ty, hash_a.depth())),
                size_text(size_at(hash_b, b.ty, hash_b.depth())),
            );
            let o3 = type_diff_members_out(
                cx.deeper(),
                hash_a,
                hash_b,
                ty_a,
                ty_b,
                hash_a.depth(),
                choice,
            );
            let start = DiffState {
                a: PrintState { indent: old(state).a.cursor().deeper().indent, ..old(state).a },
                b: PrintState { indent: old(state).b.cursor().deeper().indent, ..old(state).b },
                ..*old(state)
            };
            assert(diffed(start, old(w)@, s1d, w1, true, o1));
            lemma_diffed_and(start, old(w)@, s1d, w1, s2, w2, true, o1, o2);
            lemma_diffed_and(start, old(w)@, s2, w2, s3, w@, r is Ok, o1.and(o2), o3);
            assert(diffed(*old(state), old(w)@, *state, w@, r is Ok, o1.and(o2).and(o3)));
            assert(chosen(
                typedef_diff_out(cx, hash_a, hash_b, *a, *b, choice),
                *old(state),
                old(w)@,
                *state,
                w@,
                r is Ok,
            ));
        }
        r
    }
}

} // verus!
