//! What holds of comparing an entry with itself, and of printing an entry
//! that is in one file only.
use vstd::prelude::*;
use crate::entries::{blank, blank2};
use crate::file::FileHash;
use crate::function::{
    function_diff_out, inlined_costs, inlined_diff_out, inlined_entries_diff_out,
    inlined_list_diff_out, inlined_move_out, inlined_steps_out, Call, Function, InlinedFunction,
    Parameter,
};
use crate::identity::{lemma_entry_pair_same, sorted_locals};
use crate::list::{
    aligned_out, costs_for, diff_list_out, entry_step_out, fold_out2, merged_entry_out, optimal,
    Choice, DiffList, Print, SortList,
};
use crate::members::{
    diff_members_entries_out, member_costs, member_diff_out, member_list_out, member_move_out,
    member_steps_out, member_tail_out, members_entries_out,
};
use crate::merge::MergeResult;
use crate::path::{lemma_same_lists_all_paired, pos_a, pos_b, same_lists, Costs, Direction};
use crate::print::{line_bytes, line_out, marker, pair_out, Cursor, Cursor2, DiffPrefix, Out, Out2};
use crate::seqs::group_bytes;
use crate::type_diff::{
    diff_members_out, enumeration_diff_out, struct_diff_out, type_diff_members_out, type_diff_out,
    typedef_diff_out, union_diff_out,
};
use crate::types::{Enumerator, Member, Type, TypeKind};
use crate::variable::{variable_diff_out, LocalVariable, Variable};
use crate::Flags;

verus! {

/// Whether a comparison printed no line that is marked as removed or as
/// added.
pub open spec fn quiet(out: Out2) -> bool {
    !out.a && !out.b
}

/// Whether a comparison made choices that could be made, and did not fail.
pub open spec fn sound(out: Out2) -> bool {
    out.valid && !out.failed
}

/// A line printed with a mark is the mark and the line printed without
/// one: an entry that is printed as removed or as added reads as it reads
/// when it is printed alone.
pub proof fn lemma_marked_line(prefix: DiffPrefix, indent: nat, body: Seq<u8>)
    ensures
        line_bytes(prefix, indent, body) == marker(prefix) + line_bytes(
            DiffPrefix::Plain,
            indent,
            body,
        ),
{
    broadcast use group_bytes;

}

/// An entry that is in the first file only is printed as its `print` prints
/// it at the cursor of the first file, with the mark of a removed line; an
/// entry that is in the second file only likewise, with the mark of an
/// added line.
pub proof fn lemma_lone_entry_is_printed<T: SortList>(
    cx: Cursor2,
    hash_a: &FileHash,
    hash_b: &FileHash,
    options: &Flags,
    arg_a: &T::Arg,
    arg_b: &T::Arg,
    e: &T,
    sub: Choice,
)
    ensures
        !options.ignore_deleted ==> merged_entry_out::<T>(
            cx,
            hash_a,
            hash_b,
            options,
            arg_a,
            arg_b,
            MergeResult::Left(e),
            sub,
        ).bytes == e.print_out(cx.a.marked(DiffPrefix::Less), hash_a, options, arg_a).bytes,
        !options.ignore_added ==> merged_entry_out::<T>(
            cx,
            hash_a,
            hash_b,
            options,
            arg_a,
            arg_b,
            MergeResult::Right(e),
            sub,
        ).bytes == e.print_out(cx.b.marked(DiffPrefix::Greater), hash_b, options, arg_b).bytes,
{
}

/// The first `k` steps of comparing a list of entries with itself by the
/// script that pairs every entry with itself print no marked line.
proof fn lemma_entry_steps_same<T: DiffList>(
    cx: Cursor2,
    hash: &FileHash,
    options: &Flags,
    arg: &T::Arg,
    list: Seq<T>,
    script: Seq<Direction>,
    subs: Seq<Choice>,
    k: int,
)
    requires
        0 <= k <= script.len(),
        script.len() == list.len(),
        forall|t: int|
            0 <= t < script.len() ==> script[t] == Direction::Diagonal && pos_a(script, t) == t
                && pos_b(script, t) == t,
        forall|i: int, sub: Choice|
            0 <= i < list.len() ==> quiet(
                #[trigger] T::diff_out(cx, hash, hash, options, arg, &list[i], arg, &list[i], sub),
            ),
    ensures
        quiet(
            fold_out2(
                k,
                |t: int|
                    entry_step_out::<T>(cx, hash, hash, options, arg, list, arg, list, script, subs, t),
            ),
        ),
    decreases k,
{
    if k > 0 {
        lemma_entry_steps_same::<T>(cx, hash, options, arg, list, script, subs, k - 1);
    }
}

/// Comparing a list of entries with itself prints no marked line, where
/// pairing an entry with itself costs nothing, taking an entry alone costs
/// something, and comparing an entry with itself prints no marked line.
pub proof fn lemma_aligned_same<T: DiffList>(
    cx: Cursor2,
    hash: &FileHash,
    options: &Flags,
    arg: &T::Arg,
    list: Seq<T>,
    choice: Choice,
)
    requires
        forall|i: int|
            0 <= i < list.len() ==> T::pair(hash, arg, &list[i], hash, arg, &list[i]) == 0 && (
            #[trigger] list[i]).step(hash, arg) > 0,
        forall|i: int, sub: Choice|
            0 <= i < list.len() ==> quiet(
                #[trigger] T::diff_out(cx, hash, hash, options, arg, &list[i], arg, &list[i], sub),
            ),
        sound(aligned_out::<T>(cx, hash, hash, options, arg, list, arg, list, choice)),
    ensures
        quiet(aligned_out::<T>(cx, hash, hash, options, arg, list, arg, list, choice)),
{
    let c = costs_for::<T>(hash, arg, list, hash, arg, list);
    assert(same_lists(c)) by {
        assert forall|i: int| 0 <= i < c.step_a.len() implies (#[trigger] c.pair[i])[i] == 0
            && c.step_a[i] > 0 && c.step_b[i] > 0 by {
            assert(list[i].step(hash, arg) > 0);
        }
    }
    lemma_same_lists_all_paired(c, choice.script);
    lemma_entry_steps_same::<T>(
        cx,
        hash,
        options,
        arg,
        list,
        choice.script,
        choice.subs,
        choice.script.len() as int,
    );
}

/// Comparing a list of entries with itself below its label prints no marked
/// line.
pub proof fn lemma_diff_list_same<T: DiffList>(
    cx: Cursor2,
    hash: &FileHash,
    options: &Flags,
    label: &str,
    arg: &T::Arg,
    list: Seq<T>,
    choice: Choice,
)
    requires
        forall|i: int|
            0 <= i < list.len() ==> T::pair(hash, arg, &list[i], hash, arg, &list[i]) == 0 && (
            #[trigger] list[i]).step(hash, arg) > 0,
        forall|i: int, sub: Choice|
            0 <= i < list.len() ==> quiet(
                #[trigger] T::diff_out(
                    cx.deeper(),
                    hash,
                    hash,
                    options,
                    arg,
                    &list[i],
                    arg,
                    &list[i],
                    sub,
                ),
            ),
        sound(diff_list_out::<T>(cx, hash, hash, options, label, arg, list, arg, list, choice)),
    ensures
        quiet(diff_list_out::<T>(cx, hash, hash, options, label, arg, list, arg, list, choice)),
{
    if list.len() > 0 {
        lemma_aligned_same::<T>(cx.deeper(), hash, options, arg, list, choice);
    }
}

/// Comparing a member with itself prints no marked line.
pub proof fn lemma_member_diff_same(
    cx: Cursor2,
    hash: &FileHash,
    m: Member,
    fuel: usize,
    choice: Choice,
)
    requires
        sound(member_diff_out(cx, hash, hash, m, m, fuel, choice)),
    ensures
        quiet(member_diff_out(cx, hash, hash, m, m, fuel, choice)),
    decreases fuel, 0int, 0int,
{
    if fuel > 0 {
        lemma_members_entries_same(
            cx.deeper(),
            hash,
            m.inline_type(hash),
            (fuel - 1) as usize,
            choice,
        );
    }
}

/// Comparing the members of a type with themselves prints no marked line.
pub proof fn lemma_members_entries_same(
    cx: Cursor2,
    hash: &FileHash,
    ty: Option<&Type>,
    fuel: usize,
    choice: Choice,
)
    requires
        sound(diff_members_entries_out(cx, hash, hash, ty, ty, fuel, choice)),
    ensures
        quiet(diff_members_entries_out(cx, hash, hash, ty, ty, fuel, choice)),
    decreases fuel, 3int, 0int,
{
    match ty {
        Some(x) => match x.kind {
            TypeKind::Struct(s) => {
                lemma_member_list_same(cx, hash, s.members@, true, s.byte_size, fuel, choice);
            },
            TypeKind::Union(s) => {
                lemma_member_list_same(cx, hash, s.members@, false, s.byte_size, fuel, choice);
            },
            _ => {},
        },
        None => {},
    }
}

/// Comparing a list of members with itself prints no marked line.
pub proof fn lemma_member_list_same(
    cx: Cursor2,
    hash: &FileHash,
    ma: Seq<Member>,
    padded: bool,
    size: Option<u64>,
    fuel: usize,
    choice: Choice,
)
    requires
        sound(member_list_out(cx, hash, hash, ma, ma, padded, size, size, fuel, choice)),
    ensures
        quiet(member_list_out(cx, hash, hash, ma, ma, padded, size, size, fuel, choice)),
    decreases fuel, 2int, 0int,
{
    let c = member_costs(hash, ma, hash, ma);
    assert(same_lists(c)) by {
        assert forall|i: int| 0 <= i < c.step_a.len() implies (#[trigger] c.pair[i])[i] == 0
            && c.step_a[i] > 0 && c.step_b[i] > 0 by {
            lemma_entry_pair_same(hash, ma[i].name, ma[i].ty);
        }
    }
    lemma_same_lists_all_paired(c, choice.script);
    lemma_member_steps_quiet(
        cx,
        hash,
        ma,
        padded,
        fuel,
        choice.script,
        choice.subs,
        choice.script.len() as int,
    );
}

/// The first `k` steps of comparing a list of members with itself by the
/// script that pairs every member with itself print no marked line.
proof fn lemma_member_steps_quiet(
    cx: Cursor2,
    hash: &FileHash,
    ma: Seq<Member>,
    padded: bool,
    fuel: usize,
    script: Seq<Direction>,
    subs: Seq<Choice>,
    k: int,
)
    requires
        0 <= k <= script.len(),
        script.len() == ma.len(),
        forall|t: int|
            0 <= t < script.len() ==> script[t] == Direction::Diagonal && pos_a(script, t) == t
                && pos_b(script, t) == t,
        sound(member_steps_out(cx, hash, hash, ma, ma, padded, fuel, script, subs, k)),
    ensures
        quiet(member_steps_out(cx, hash, hash, ma, ma, padded, fuel, script, subs, k)),
    decreases fuel, 1int, k,
{
    if k > 0 {
        let before = member_steps_out(cx, hash, hash, ma, ma, padded, fuel, script, subs, k - 1);
        let this = member_move_out(
            cx,
            hash,
            hash,
            ma,
            ma,
            padded,
            fuel,
            script[k - 1],
            pos_a(script, k - 1),
            pos_b(script, k - 1),
            subs[k - 1],
        );
        let pair = member_diff_out(cx, hash, hash, ma[k - 1], ma[k - 1], fuel, subs[k - 1]);
        assert(member_steps_out(cx, hash, hash, ma, ma, padded, fuel, script, subs, k) == before.and(
            this,
        ));
        assert(script[k - 1] == Direction::Diagonal);
        assert(this == (if padded {
            crate::members::padding_pair_out(cx, hash, hash, ma, ma, k - 1, k - 1)
        } else {
            Out2::nothing()
        }).and(pair));
        assert(sound(before));
        assert(sound(pair));
        lemma_member_steps_quiet(cx, hash, ma, padded, fuel, script, subs, k - 1);
        lemma_member_diff_same(cx, hash, ma[k - 1], fuel, subs[k - 1]);
    }
}

/// Comparing the members of a type with themselves below their label
/// prints no marked line.
pub proof fn lemma_type_members_same(
    cx: Cursor2,
    hash: &FileHash,
    ty: Option<&Type>,
    fuel: usize,
    choice: Choice,
)
    requires
        sound(type_diff_members_out(cx, hash, hash, ty, ty, fuel, choice)),
    ensures
        quiet(type_diff_members_out(cx, hash, hash, ty, ty, fuel, choice)),
{
    match ty {
        Some(x) => match x.kind {
            TypeKind::Struct(s) => {
                lemma_member_list_same(
                    cx.deeper(),
                    hash,
                    s.members@,
                    true,
                    s.byte_size,
                    fuel,
                    choice,
                );
            },
            TypeKind::Union(s) => {
                lemma_member_list_same(
                    cx.deeper(),
                    hash,
                    s.members@,
                    false,
                    s.byte_size,
                    fuel,
                    choice,
                );
            },
            _ => {},
        },
        None => {},
    }
}

/// Comparing a type with itself prints no marked line.
pub proof fn lemma_type_diff_same(
    cx: Cursor2,
    hash: &FileHash,
    options: &Flags,
    ty: &Type,
    choice: Choice,
)
    requires
        sound(type_diff_out(cx, hash, hash, options, ty, ty, choice)),
    ensures
        quiet(type_diff_out(cx, hash, hash, options, ty, ty, choice)),
{
    match ty.kind {
        TypeKind::Def(t) => {
            lemma_type_members_same(
                cx.deeper(),
                hash,
                crate::type_print::typedef_anon(hash, t),
                hash.depth(),
                choice,
            );
        },
        TypeKind::Struct(t) => {
            lemma_member_list_same(
                cx.deeper().deeper(),
                hash,
                t.members@,
                true,
                t.byte_size,
                hash.depth(),
                choice,
            );
        },
        TypeKind::Union(t) => {
            lemma_member_list_same(
                cx.deeper().deeper(),
                hash,
                t.members@,
                false,
                t.byte_size,
                hash.depth(),
                choice,
            );
        },
        TypeKind::Enumeration(t) => {
            assert forall|i: int| 0 <= i < t.enumerators@.len() implies Enumerator::pair(
                hash,
                &(),
                &t.enumerators@[i],
                hash,
                &(),
                &t.enumerators@[i],
            ) == 0 && (#[trigger] t.enumerators@[i]).step(hash, &()) > 0 by {
                crate::order::lemma_name_order_equal(
                    crate::order::name_bytes(t.enumerators@[i].name),
                    crate::order::name_bytes(t.enumerators@[i].name),
                );
            }
            lemma_diff_list_same::<Enumerator>(
                cx.deeper(),
                hash,
                options,
                "enumerators",
                &(),
                t.enumerators@,
                choice,
            );
        },
        _ => {},
    }
}

/// A type that is compared with itself is not printed.
pub proof fn lemma_same_type_is_not_printed(
    cx: Cursor2,
    hash: &FileHash,
    options: &Flags,
    ty: &Type,
    choice: Choice,
)
    requires
        sound(
            merged_entry_out::<Type>(
                cx,
                hash,
                hash,
                options,
                &(),
                &(),
                MergeResult::Both(ty, ty),
                choice,
            ),
        ),
    ensures
        merged_entry_out::<Type>(
            cx,
            hash,
            hash,
            options,
            &(),
            &(),
            MergeResult::Both(ty, ty),
            choice,
        ).bytes == Seq::<u8>::empty(),
        quiet(
            merged_entry_out::<Type>(
                cx,
                hash,
                hash,
                options,
                &(),
                &(),
                MergeResult::Both(ty, ty),
                choice,
            ),
        ),
{
    lemma_type_diff_same(cx, hash, options, ty, choice);
}

/// A variable that is compared with itself is not printed.
pub proof fn lemma_same_variable_is_not_printed(
    cx: Cursor2,
    hash: &FileHash,
    options: &Flags,
    v: &Variable,
    choice: Choice,
)
    ensures
        merged_entry_out::<Variable>(
            cx,
            hash,
            hash,
            options,
            &(),
            &(),
            MergeResult::Both(v, v),
            choice,
        ).bytes == Seq::<u8>::empty(),
        quiet(
            merged_entry_out::<Variable>(
                cx,
                hash,
                hash,
                options,
                &(),
                &(),
                MergeResult::Both(v, v),
                choice,
            ),
        ),
{
}

/// Comparing an inlined call with itself prints no marked line.
pub proof fn lemma_inlined_diff_same(cx: Cursor2, hash: &FileHash, f: InlinedFunction, choice: Choice)
    requires
        sound(inlined_diff_out(cx, hash, hash, f, f, choice)),
    ensures
        quiet(inlined_diff_out(cx, hash, hash, f, f, choice)),
    decreases cx.a.inline_depth, 0int, 0int,
{
    if cx.a.inline_depth > 0 && cx.b.inline_depth > 0 {
        lemma_inlined_entries_same(cx.inlined().deeper(), hash, f.inlined_functions@, choice);
    }
}

/// Comparing a list of inlined calls with itself prints no marked line.
pub proof fn lemma_inlined_entries_same(
    cx: Cursor2,
    hash: &FileHash,
    la: Seq<InlinedFunction>,
    choice: Choice,
)
    requires
        sound(inlined_entries_diff_out(cx, hash, hash, la, la, choice)),
    ensures
        quiet(inlined_entries_diff_out(cx, hash, hash, la, la, choice)),
    decreases cx.a.inline_depth, 2int, 0int,
{
    let c = inlined_costs(hash, la, hash, la);
    assert(same_lists(c)) by {
        assert forall|i: int| 0 <= i < c.step_a.len() implies (#[trigger] c.pair[i])[i] == 0
            && c.step_a[i] > 0 && c.step_b[i] > 0 by {
            lemma_function_pair_same(hash.function(la[i].abstract_origin));
        }
    }
    lemma_same_lists_all_paired(c, choice.script);
    lemma_inlined_steps_quiet(
        cx,
        hash,
        la,
        choice.script,
        choice.subs,
        choice.script.len() as int,
    );
}

proof fn lemma_inlined_steps_quiet(
    cx: Cursor2,
    hash: &FileHash,
    la: Seq<InlinedFunction>,
    script: Seq<Direction>,
    subs: Seq<Choice>,
    k: int,
)
    requires
        0 <= k <= script.len(),
        script.len() == la.len(),
        forall|t: int|
            0 <= t < script.len() ==> script[t] == Direction::Diagonal && pos_a(script, t) == t
                && pos_b(script, t) == t,
        sound(inlined_steps_out(cx, hash, hash, la, la, script, subs, k)),
    ensures
        quiet(inlined_steps_out(cx, hash, hash, la, la, script, subs, k)),
    decreases cx.a.inline_depth, 1int, k,
{
    if k > 0 {
        let before = inlined_steps_out(cx, hash, hash, la, la, script, subs, k - 1);
        let this = inlined_move_out(
            cx,
            hash,
            hash,
            la,
            la,
            script[k - 1],
            pos_a(script, k - 1),
            pos_b(script, k - 1),
            subs[k - 1],
        );
        let pair = inlined_diff_out(cx, hash, hash, la[k - 1], la[k - 1], subs[k - 1]);
        assert(inlined_steps_out(cx, hash, hash, la, la, script, subs, k) == before.and(this));
        assert(script[k - 1] == Direction::Diagonal);
        assert(this == pair);
        assert(sound(before));
        assert(sound(pair));
        lemma_inlined_steps_quiet(cx, hash, la, script, subs, k - 1);
        lemma_inlined_diff_same(cx, hash, la[k - 1], subs[k - 1]);
    }
}

/// Pairing a function that may be missing with itself costs nothing.
pub proof fn lemma_function_pair_same(f: Option<&Function>)
    ensures
        crate::identity::function_pair(f, f) == 0,
{
    if let Some(x) = f {
        crate::namespace::lemma_ns_and_name_order_same(
            x.namespace,
            crate::order::name_bytes(x.name),
        );
    }
}

/// Comparing a function with itself prints no marked line.
pub proof fn lemma_function_diff_same(
    cx: Cursor2,
    hash: &FileHash,
    options: &Flags,
    f: &Function,
    choice: Choice,
)
    requires
        sound(function_diff_out(cx, hash, hash, options, f, f, choice)),
    ensures
        quiet(function_diff_out(cx, hash, hash, options, f, f, choice)),
{
    let d = cx.deeper();
    assert forall|i: int| 0 <= i < f.parameters@.len() implies Parameter::pair(
        hash,
        &(),
        &f.parameters@[i],
        hash,
        &(),
        &f.parameters@[i],
    ) == 0 && (#[trigger] f.parameters@[i]).step(hash, &()) > 0 by {
        lemma_entry_pair_same(hash, f.parameters@[i].name, f.parameters@[i].ty);
    }
    lemma_diff_list_same::<Parameter>(d, hash, options, "parameters", &(), f.parameters@, choice.subs[0]);
    if options.function_variables {
        let locals = sorted_locals(f.variables@);
        assert forall|i: int| 0 <= i < locals.len() implies <&LocalVariable as DiffList>::pair(
            hash,
            &(),
            &locals[i],
            hash,
            &(),
            &locals[i],
        ) == 0 && (#[trigger] locals[i]).step(hash, &()) > 0 by {
            lemma_entry_pair_same(hash, locals[i].name, locals[i].ty);
        }
        lemma_diff_list_same::<&LocalVariable>(
            d,
            hash,
            options,
            "variables",
            &(),
            locals,
            choice.subs[1],
        );
    }
    if d.a.inline_depth > 0 && d.b.inline_depth > 0 {
        lemma_inlined_entries_same(d.inlined().deeper(), hash, f.inlined_functions@, choice.subs[2]);
    }
    if options.calls {
        assert forall|i: int| 0 <= i < f.calls@.len() implies Call::pair(
            hash,
            &(),
            &f.calls@[i],
            hash,
            &(),
            &f.calls@[i],
        ) == 0 && (#[trigger] f.calls@[i]).step(hash, &()) > 0 by {
            lemma_function_pair_same(hash.function_at(f.calls@[i].to));
        }
        lemma_diff_list_same::<Call>(d, hash, options, "calls", &(), f.calls@, choice.subs[3]);
    }
}

/// A function that is compared with itself is not printed.
pub proof fn lemma_same_function_is_not_printed(
    cx: Cursor2,
    hash: &FileHash,
    options: &Flags,
    f: &Function,
    choice: Choice,
)
    requires
        sound(
            merged_entry_out::<Function>(
                cx,
                hash,
                hash,
                options,
                &(),
                &(),
                MergeResult::Both(f, f),
                choice,
            ),
        ),
    ensures
        merged_entry_out::<Function>(
            cx,
            hash,
            hash,
            options,
            &(),
            &(),
            MergeResult::Both(f, f),
            choice,
        ).bytes == Seq::<u8>::empty(),
        quiet(
            merged_entry_out::<Function>(
                cx,
                hash,
                hash,
                options,
                &(),
                &(),
                MergeResult::Both(f, f),
                choice,
            ),
        ),
{
    lemma_function_diff_same(cx, hash, options, f, choice);
}

} // verus!
