//! Compilation units.
use std::collections::HashSet;
use vstd::prelude::*;
use vstd::std_specs::hash::group_hash_axioms;
use vstd::string::StringSliceAdditionalSpecFns;
use crate::file::FileHash;
use crate::function::Function;
use crate::list::{chosen, diff_sort_list_out, sort_list_out, Choice, Print};
use crate::namespace::{name_text, print_name};
use crate::order::name_bytes;
use crate::print::{
    diffed, lemma_diffed_and, lemma_diffed_nothing, lemma_printed_and, lemma_printed_nothing,
    line_out, pair_out, printed, Cursor, Cursor2, DiffState, Out, Out2, PrintState,
};
use crate::seqs::group_bytes;
use crate::text::put_str;
use crate::types::{entry_shown, name_slice, Member, Type, TypeKind};
use crate::variable::Variable;
use crate::{filter_name, name_matches, Error, Flags};

verus! {

/// A compilation unit, with the types, functions and variables that it
/// defines.
#[derive(Debug)]
pub struct Unit {
    pub dir: Option<Vec<u8>>,
    pub name: Option<Vec<u8>>,
    /// The code of the language of the unit.
    pub language: Option<u16>,
    pub address_size: Option<u64>,
    pub low_pc: Option<u64>,
    pub high_pc: Option<u64>,
    pub size: Option<u64>,
    pub types: Vec<Type>,
    pub functions: Vec<Function>,
    pub variables: Vec<Variable>,
}


/// The offsets of the types of the first `k` members that are printed with
/// the members of their types below them, added to `offsets`.
pub open spec fn with_inline_members(
    offsets: Set<usize>,
    hash: &FileHash,
    members: Seq<Member>,
    k: int,
) -> Set<usize>
    decreases k,
{
    if k <= 0 {
        offsets
    } else {
        let before = with_inline_members(offsets, hash, members, k - 1);
        match members[k - 1].ty {
            Some(offset) => if members[k - 1].inline(hash) {
                before.insert(offset.0)
            } else {
                before
            },
            None => before,
        }
    }
}

/// The members of a struct or a union.
pub open spec fn members_of(ty: &Type) -> Seq<Member> {
    match ty.kind {
        TypeKind::Struct(t) => t.members@,
        TypeKind::Union(t) => t.members@,
        _ => Seq::empty(),
    }
}

/// The offsets of the types that are printed within other types, as far
/// as the first `n` types show: the types that have no name of their own,
/// and the types of the members that are printed with the members of
/// their types below them.
pub open spec fn inline_offsets(hash: &FileHash, types: Seq<Type>, n: int) -> Set<usize>
    decreases n,
{
    if n <= 0 {
        Set::empty()
    } else {
        let before = inline_offsets(hash, types, n - 1);
        let ty = &types[n - 1];
        with_inline_members(
            if ty.anon() {
                before.insert(ty.offset.0)
            } else {
                before
            },
            hash,
            members_of(ty),
            members_of(ty).len() as int,
        )
    }
}

/// Whether a type is printed on its own: the options ask for it, it is a
/// type definition, a struct, a union or an enumeration, and it is not
/// printed within another type. When two files are compared, the structs
/// that stand for Rust closures are left out.
pub open spec fn type_listed(inline: Set<usize>, flags: &Flags, diff: bool, ty: &Type) -> bool {
    &&& ty.shown(flags)
    &&& match ty.kind {
        TypeKind::Struct(t) => !(diff && name_matches(name_bytes(t.name), "closure")),
        TypeKind::Def(_) | TypeKind::Union(_) | TypeKind::Enumeration(_) => true,
        _ => false,
    }
    &&& !inline.contains(ty.offset.0)
}

/// Those of the first `n` types that are printed on their own.
pub open spec fn kept_types<'a>(
    inline: Set<usize>,
    flags: &Flags,
    diff: bool,
    types: Seq<Type>,
    n: int,
) -> Seq<&'a Type>
    decreases n,
{
    if n <= 0 {
        Seq::empty()
    } else if type_listed(inline, flags, diff, &types[n - 1]) {
        kept_types(inline, flags, diff, types, n - 1).push(&types[n - 1])
    } else {
        kept_types(inline, flags, diff, types, n - 1)
    }
}

/// Those of the first `n` functions that the options ask for.
pub open spec fn kept_functions<'a>(flags: &Flags, functions: Seq<Function>, n: int) -> Seq<
    &'a Function,
>
    decreases n,
{
    if n <= 0 {
        Seq::empty()
    } else if entry_shown(flags, functions[n - 1].namespace, functions[n - 1].name) {
        kept_functions(flags, functions, n - 1).push(&functions[n - 1])
    } else {
        kept_functions(flags, functions, n - 1)
    }
}

/// Those of the first `n` variables that the options ask for.
pub open spec fn kept_variables<'a>(flags: &Flags, variables: Seq<Variable>, n: int) -> Seq<
    &'a Variable,
>
    decreases n,
{
    if n <= 0 {
        Seq::empty()
    } else if entry_shown(flags, variables[n - 1].namespace, variables[n - 1].name) {
        kept_variables(flags, variables, n - 1).push(&variables[n - 1])
    } else {
        kept_variables(flags, variables, n - 1)
    }
}

/// The line of a unit.
pub open spec fn unit_text(unit: &Unit) -> Seq<u8> {
    "Unit: ".spec_bytes() + name_text(unit.name, "<anon>")
}

impl Unit {
    /// The types of the unit that are printed on their own.
    pub open spec fn listed_types<'a>(&self, hash: &FileHash, flags: &Flags, diff: bool) -> Seq<
        &'a Type,
    > {
        kept_types(
            inline_offsets(hash, self.types@, self.types@.len() as int),
            flags,
            diff,
            self.types@,
            self.types@.len() as int,
        )
    }

    /// The functions of the unit that the options ask for.
    pub open spec fn listed_functions<'a>(&self, flags: &Flags) -> Seq<&'a Function> {
        kept_functions(flags, self.functions@, self.functions@.len() as int)
    }

    /// The variables of the unit that the options ask for.
    pub open spec fn listed_variables<'a>(&self, flags: &Flags) -> Seq<&'a Variable> {
        kept_variables(flags, self.variables@, self.variables@.len() as int)
    }

    /// Return true if this unit matches the filter options in the flags.
    pub fn filter(&self, flags: &Flags) -> (shown: bool)
        ensures
            shown == flags.unit_matches(name_bytes(self.name)),
    {
        flags.filter_unit(name_slice(&self.name))
    }

    /// The offsets of types that should be printed inline.
    pub fn inline_types(&self, hash: &FileHash) -> (inline: HashSet<usize>)
        ensures
            inline@ == inline_offsets(hash, self.types@, self.types@.len() as int),
    {
        broadcast use group_hash_axioms;

        let mut inline_types: HashSet<usize> = HashSet::new();
        let mut i: usize = 0;
        while i < self.types.len()
            invariant
                i <= self.types@.len(),
                inline_types@ == inline_offsets(hash, self.types@, i as int),
            decreases self.types@.len() - i,
        {
            let ty = &self.types[i];
            // A type without a name is taken to be shown where it is used.
            if ty.is_anon() {
                inline_types.insert(ty.offset.0);
            }
            // So are the types of the members that are shown within their structs.
            if let Some(members) = ty.visit_members() {
                let mut j: usize = 0;
                let ghost start = inline_types@;
                while j < members.len()
                    invariant
                        j <= members@.len(),
                        members@ == members_of(ty),
                        inline_types@ == with_inline_members(start, hash, members@, j as int),
                    decreases members@.len() - j,
                {
                    let member = &members[j];
                    if member.is_inline(hash) {
                        if let Some(offset) = member.ty {
                            inline_types.insert(offset.0);
                        }
                    }
                    j += 1;
                }
            }
            i += 1;
        }
        inline_types
    }

    /// Filter the list of types using the options in the flags.
    /// Perform additional filtering when diffing.
    pub fn filter_types<'a>(&'a self, hash: &FileHash, flags: &Flags, diff: bool) -> (types: Vec<
        &'a Type,
    >)
        ensures
            types@ == self.listed_types(hash, flags, diff),
    {
        broadcast use group_hash_axioms;

        let inline_types = self.inline_types(hash);
        let mut types: Vec<&'a Type> = Vec::new();
        let mut i: usize = 0;
        while i < self.types.len()
            invariant
                i <= self.types@.len(),
                types@ == kept_types(inline_types@, flags, diff, self.types@, i as int),
            decreases self.types@.len() - i,
        {
            let t = &self.types[i];
            // What the options ask for.
            let mut keep = t.filter(flags);
            if keep {
                match &t.kind {
                    TypeKind::Struct(s) => {
                        // The structs of closures are told apart by nothing that a
                        // comparison could go by.
                        if diff && filter_name(name_slice(&s.name), "closure") {
                            keep = false;
                        }
                    },
                    TypeKind::Def(..) | TypeKind::Union(..) | TypeKind::Enumeration(..) => {},
                    TypeKind::Base(..)
                    | TypeKind::Array(..)
                    | TypeKind::Subroutine(..)
                    | TypeKind::Unspecified(..)
                    | TypeKind::PointerToMember(..)
                    | TypeKind::Modifier(..) => {
                        keep = false;
                    },
                }
            }
            // Types that are shown where they are used are not listed.
            if keep && !inline_types.contains(&t.offset.0) {
                types.push(t);
            }
            i += 1;
        }
        types
    }

    /// Filter the list of functions using the options in the flags.
    pub fn filter_functions<'a>(&'a self, flags: &Flags) -> (functions: Vec<&'a Function>)
        ensures
            functions@ == self.listed_functions(flags),
    {
        let mut functions: Vec<&'a Function> = Vec::new();
        let mut i: usize = 0;
        while i < self.functions.len()
            invariant
                i <= self.functions@.len(),
                functions@ == kept_functions(flags, self.functions@, i as int),
            decreases self.functions@.len() - i,
        {
            if self.functions[i].filter(flags) {
                functions.push(&self.functions[i]);
            }
            i += 1;
        }
        functions
    }

    /// Filter the list of variables using the options in the flags.
    pub fn filter_variables<'a>(&'a self, flags: &Flags) -> (variables: Vec<&'a Variable>)
        ensures
            variables@ == self.listed_variables(flags),
    {
        let mut variables: Vec<&'a Variable> = Vec::new();
        let mut i: usize = 0;
        while i < self.variables.len()
            invariant
                i <= self.variables@.len(),
                variables@ == kept_variables(flags, self.variables@, i as int),
            decreases self.variables@.len() - i,
        {
            if self.variables[i].filter(flags) {
                variables.push(&self.variables[i]);
            }
            i += 1;
        }
        variables
    }

    /// Writes the name of the unit.
    pub fn print_ref(&self, w: &mut Vec<u8>)
        ensures
            final(w)@ == old(w)@ + name_text(self.name, "<anon>"),
    {
        print_name(w, &self.name, "<anon>");
    }

    /// Gives the line of the unit.
    pub fn line(&self) -> (text: Vec<u8>)
        ensures
            text@ == unit_text(self),
    {
        broadcast use group_bytes;

        let mut text: Vec<u8> = Vec::new();
        put_str(&mut text, "Unit: ");
        self.print_ref(&mut text);
        text
    }
}

/// Printing the entries of a unit: its types, its functions and its
/// variables, each kind in the order that the options ask for.
pub open spec fn unit_out(cx: Cursor, hash: &FileHash, options: &Flags, unit: &Unit) -> Out {
    sort_list_out::<Type>(cx, hash, options, &(), unit.listed_types(hash, options, false)).and(
        sort_list_out::<Function>(cx, hash, options, &(), unit.listed_functions(options)),
    ).and(sort_list_out::<Variable>(cx, hash, options, &(), unit.listed_variables(options)))
}

/// Comparing the entries of two units: their types, their functions and
/// their variables, each kind merged by identity.
pub open spec fn unit_diff_out(
    cx: Cursor2,
    hash_a: &FileHash,
    hash_b: &FileHash,
    options: &Flags,
    a: &Unit,
    b: &Unit,
    choice: Choice,
) -> Out2 {
    diff_sort_list_out::<Type>(
        cx,
        hash_a,
        hash_b,
        options,
        &(),
        a.listed_types(hash_a, options, true),
        &(),
        b.listed_types(hash_b, options, true),
        choice.subs[0],
    ).and(
        diff_sort_list_out::<Function>(
            cx,
            hash_a,
            hash_b,
            options,
            &(),
            a.listed_functions(options),
            &(),
            b.listed_functions(options),
            choice.subs[1],
        ),
    ).and(
        diff_sort_list_out::<Variable>(
            cx,
            hash_a,
            hash_b,
            options,
            &(),
            a.listed_variables(options),
            &(),
            b.listed_variables(options),
            choice.subs[2],
        ),
    )
}

impl Unit {
    /// Prints the entries of the unit.
    pub fn print(&self, w: &mut Vec<u8>, state: &mut PrintState) -> (r: Result<(), Error>)
        ensures
            printed(
                *old(state),
                old(w)@,
                *final(state),
                final(w)@,
                r is Ok,
                unit_out(old(state).cursor(), old(state).hash, old(state).options, self),
            ),
    {
        let ghost cx = state.cursor();
        let ghost hash = state.hash;
        let ghost options = state.options;
        let types = self.filter_types(state.hash, state.options, false);
        let r = state.sort_list::<Type>(w, &(), types.as_slice());
        let ghost o1 = sort_list_out::<Type>(
            cx,
            hash,
            options,
            &(),
            self.listed_types(hash, options, false),
        );
        if r.is_err() {
            return r;
        }
        let ghost s1 = *state;
        let ghost w1 = w@;
        let functions = self.filter_functions(state.options);
        let r = state.sort_list::<Function>(w, &(), functions.as_slice());
        let ghost o2 = sort_list_out::<Function>(
            cx,
            hash,
            options,
            &(),
            self.listed_functions(options),
        );
        proof {
            lemma_printed_and(*old(state), old(w)@, s1, w1, *state, w@, r is Ok, o1, o2);
        }
        if r.is_err() {
            return r;
        }
        let ghost s2 = *state;
        let ghost w2 = w@;
        let variables = self.filter_variables(state.options);
        let r = state.sort_list::<Variable>(w, &(), variables.as_slice());
        proof {
            lemma_printed_and(
                *old(state),
                old(w)@,
                s2,
                w2,
                *state,
                w@,
                r is Ok,
                o1.and(o2),
                sort_list_out::<Variable>(cx, hash, options, &(), self.listed_variables(options)),
            );
        }
        r
    }

    /// Compares the entries of two units.
    #[verifier::rlimit(60)]
    pub fn diff(w: &mut Vec<u8>, state: &mut DiffState, unit_a: &Unit, unit_b: &Unit) -> (r: Result<
        (),
        Error,
    >)
        requires
            old(state).wf(),
        ensures
            exists|choice: Choice|
                chosen(
                    #[trigger] unit_diff_out(
                        old(state).cursor(),
                        old(state).a.hash,
                        old(state).b.hash,
                        old(state).options,
                        unit_a,
                        unit_b,
                        choice,
                    ),
                    *old(state),
                    old(w)@,
                    *final(state),
                    final(w)@,
                    r is Ok,
                ),
    {
        let ghost cx = state.cursor();
        let ghost hash_a = state.a.hash;
        let ghost hash_b = state.b.hash;
        let ghost options = state.options;
        let ghost none = Choice { script: Seq::empty(), subs: Seq::empty() };
        let types_a = unit_a.filter_types(state.a.hash, state.options, true);
        let types_b = unit_b.filter_types(state.b.hash, state.options, true);
        let r = state.sort_list::<Type>(w, &(), types_a.as_slice(), &(), types_b.as_slice());
        let ghost c0 = choose|choice: Choice|
            chosen(
                #[trigger] diff_sort_list_out::<Type>(
                    cx,
                    hash_a,
                    hash_b,
                    options,
                    &(),
                    unit_a.listed_types(hash_a, options, true),
                    &(),
                    unit_b.listed_types(hash_b, options, true),
                    choice,
                ),
                *old(state),
                old(w)@,
                *state,
                w@,
                r is Ok,
            );
        let ghost o1 = diff_sort_list_out::<Type>(
            cx,
            hash_a,
            hash_b,
            options,
            &(),
            unit_a.listed_types(hash_a, options, true),
            &(),
            unit_b.listed_types(hash_b, options, true),
            c0,
        );
        if r.is_err() {
            proof {
                let choice = Choice { script: Seq::empty(), subs: seq![c0, none, none] };
                assert(chosen(
                    unit_diff_out(cx, hash_a, hash_b, options, unit_a, unit_b, choice),
                    *old(state),
                    old(w)@,
                    *state,
                    w@,
                    false,
                ));
            }
            return r;
        }
        let ghost s1 = *state;
        let ghost w1 = w@;
        let functions_a = unit_a.filter_functions(state.options);
        let functions_b = unit_b.filter_functions(state.options);
        let r = state.sort_list::<Function>(
            w,
            &(),
            functions_a.as_slice(),
            &(),
            functions_b.as_slice(),
        );
        let ghost c1 = choose|choice: Choice|
            chosen(
                #[trigger] diff_sort_list_out::<Function>(
                    cx,
                    hash_a,
                    hash_b,
                    options,
                    &(),
                    unit_a.listed_functions(options),
                    &(),
                    unit_b.listed_functions(options),
                    choice,
                ),
                s1,
                w1,
                *state,
                w@,
                r is Ok,
            );
        let ghost o2 = diff_sort_list_out::<Function>(
            cx,
            hash_a,
            hash_b,
            options,
            &(),
            unit_a.listed_functions(options),
            &(),
            unit_b.listed_functions(options),
            c1,
        );
        proof {
            lemma_diffed_and(*old(state), old(w)@, s1, w1, *state, w@, r is Ok, o1, o2);
        }
        if r.is_err() {
            proof {
                let choice = Choice { script: Seq::empty(), subs: seq![c0, c1, none] };
                assert(chosen(
                    unit_diff_out(cx, hash_a, hash_b, options, unit_a, unit_b, choice),
                    *old(state),
                    old(w)@,
                    *state,
                    w@,
                    false,
                ));
            }
            return r;
        }
        let ghost s2 = *state;
        let ghost w2 = w@;
        let variables_a = unit_a.filter_variables(state.options);
        let variables_b = unit_b.filter_variables(state.options);
        let r = state.sort_list::<Variable>(
            w,
            &(),
            variables_a.as_slice(),
            &(),
            variables_b.as_slice(),
        );
        let ghost c2 = choose|choice: Choice|
            chosen(
                #[trigger] diff_sort_list_out::<Variable>(
                    cx,
                    hash_a,
                    hash_b,
                    options,
                    &(),
                    unit_a.listed_variables(options),
                    &(),
                    unit_b.listed_variables(options),
                    choice,
                ),
                s2,
                w2,
                *state,
                w@,
                r is Ok,
            );
        proof {
            let o3 = diff_sort_list_out::<Variable>(
                cx,
                hash_a,
                hash_b,
                options,
                &(),
                unit_a.listed_variables(options),
                &(),
                unit_b.listed_variables(options),
                c2,
            );
            lemma_diffed_and(*old(state), old(w)@, s2, w2, *state, w@, r is Ok, o1.and(o2), o3);
            let choice = Choice { script: Seq::empty(), subs: seq![c0, c1, c2] };
            assert(chosen(
                unit_diff_out(cx, hash_a, hash_b, options, unit_a, unit_b, choice),
                *old(state),
                old(w)@,
                *state,
                w@,
                r is Ok,
            ));
        }
        r
    }
}

} // verus!
