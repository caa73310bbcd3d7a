//! The identity of types: the order by which a type of one file is found
//! again in another.
use std::cmp::Ordering;
use vstd::prelude::*;
use crate::file::FileHash;
use crate::function::{Call, Function, InlinedFunction, Parameter};
use crate::file::{Section, Symbol};
use crate::unit::Unit;
use crate::variable::{LocalVariable, Variable};
use crate::{Flags, Sort};
use crate::namespace::{cmp_ns_and_name, lemma_ns_and_name_order_same, ns_and_name_order};
use crate::order::{
    cmp_name, cmp_opt_u64, cmp_u8, cmp_usize, int_order, lemma_name_order_equal, name_bytes,
    name_order, opt_order, order_then,
};
use crate::seqs::{at, pred};
use crate::types::{
    ArrayType, Member, Enumerator, BaseType, EnumerationType, PointerToMemberType, StructType, SubroutineType, Type,
    TypeDef, TypeKind, TypeModifier, TypeModifierKind, TypeOffset, UnionType, UnspecifiedType,
};

verus! {

/// The number by which the kinds of types are ordered.
pub open spec fn kind_rank(kind: TypeKind) -> u8 {
    match kind {
        TypeKind::Base(_) => 0,
        TypeKind::Def(_) => 1,
        TypeKind::Struct(_) => 2,
        TypeKind::Union(_) => 3,
        TypeKind::Enumeration(_) => 4,
        TypeKind::Array(_) => 5,
        TypeKind::Subroutine(_) => 6,
        TypeKind::Unspecified(_) => 7,
        TypeKind::PointerToMember(_) => 8,
        TypeKind::Modifier(_) => 9,
    }
}

/// The number by which the kinds of type modifiers are ordered.
pub open spec fn modifier_rank(kind: TypeModifierKind) -> u8 {
    match kind {
        TypeModifierKind::Pointer => 1,
        TypeModifierKind::Reference => 2,
        TypeModifierKind::Const => 3,
        TypeModifierKind::Packed => 4,
        TypeModifierKind::Volatile => 5,
        TypeModifierKind::Restrict => 6,
        TypeModifierKind::Shared => 7,
        TypeModifierKind::RvalueReference => 8,
        TypeModifierKind::Atomic => 9,
        TypeModifierKind::Other => 10,
    }
}

/// The order of two types by identity: types of the same kind are ordered
/// by what names them, types of different kinds by their kinds. At most
/// `fuel` references from type to type are followed.
pub open spec fn type_order(
    hash_a: &FileHash,
    a: &Type,
    hash_b: &FileHash,
    b: &Type,
    fuel: usize,
) -> Ordering
    decreases fuel, 5int, 0int,
{
    match (a.kind, b.kind) {
        (TypeKind::Base(x), TypeKind::Base(y)) => name_order(name_bytes(x.name), name_bytes(y.name)),
        (TypeKind::Def(x), TypeKind::Def(y)) => ns_and_name_order(
            x.namespace,
            name_bytes(x.name),
            y.namespace,
            name_bytes(y.name),
        ),
        (TypeKind::Struct(x), TypeKind::Struct(y)) => ns_and_name_order(
            x.namespace,
            name_bytes(x.name),
            y.namespace,
            name_bytes(y.name),
        ),
        (TypeKind::Union(x), TypeKind::Union(y)) => ns_and_name_order(
            x.namespace,
            name_bytes(x.name),
            y.namespace,
            name_bytes(y.name),
        ),
        (TypeKind::Enumeration(x), TypeKind::Enumeration(y)) => ns_and_name_order(
            x.namespace,
            name_bytes(x.name),
            y.namespace,
            name_bytes(y.name),
        ),
        (TypeKind::Array(x), TypeKind::Array(y)) => array_order(hash_a, x, hash_b, y, fuel),
        (TypeKind::Subroutine(x), TypeKind::Subroutine(y)) => subroutine_order(
            hash_a,
            x,
            hash_b,
            y,
            fuel,
        ),
        (TypeKind::Unspecified(x), TypeKind::Unspecified(y)) => ns_and_name_order(
            x.namespace,
            name_bytes(x.name),
            y.namespace,
            name_bytes(y.name),
        ),
        (TypeKind::PointerToMember(x), TypeKind::PointerToMember(y)) => member_pointer_order(
            hash_a,
            x,
            hash_b,
            y,
            fuel,
        ),
        (TypeKind::Modifier(x), TypeKind::Modifier(y)) => modifier_order(hash_a, x, hash_b, y, fuel),
        _ => int_order(kind_rank(a.kind) + 0, kind_rank(b.kind) + 0),
    }
}

/// The order of two arrays: that of the types of their elements, and where
/// those are the same, that of the numbers of elements.
pub open spec fn array_order(
    hash_a: &FileHash,
    x: ArrayType,
    hash_b: &FileHash,
    y: ArrayType,
    fuel: usize,
) -> Ordering
    decreases fuel, 4int, 0int,
{
    order_then(ref_order(hash_a, x.ty, hash_b, y.ty, fuel), opt_order(x.count, y.count))
}

/// The order of the types of two functions: that of the first parameters
/// that differ; with the same parameters as far as both have any, the one
/// with fewer comes first; then that of the types that are returned.
pub open spec fn subroutine_order(
    hash_a: &FileHash,
    x: SubroutineType,
    hash_b: &FileHash,
    y: SubroutineType,
    fuel: usize,
) -> Ordering
    decreases fuel, 4int, 0int,
{
    order_then(
        params_order(
            hash_a,
            x.parameters@,
            hash_b,
            y.parameters@,
            shorter(x.parameters@, y.parameters@),
            fuel,
        ),
        order_then(
            int_order(x.parameters@.len() + 0int, y.parameters@.len() + 0int),
            ref_order(hash_a, x.return_type, hash_b, y.return_type, fuel),
        ),
    )
}

/// The order of two pointers to members: that of the types that the
/// members are members of, and where those are the same, that of the types
/// of the members.
pub open spec fn member_pointer_order(
    hash_a: &FileHash,
    x: PointerToMemberType,
    hash_b: &FileHash,
    y: PointerToMemberType,
    fuel: usize,
) -> Ordering
    decreases fuel, 4int, 0int,
{
    order_then(
        ref_order(hash_a, x.containing_ty, hash_b, y.containing_ty, fuel),
        ref_order(hash_a, x.ty, hash_b, y.ty, fuel),
    )
}

/// The order of two modified types: that of the types that are modified,
/// and where those are the same, that of the kinds of the modifiers.
pub open spec fn modifier_order(
    hash_a: &FileHash,
    x: TypeModifier,
    hash_b: &FileHash,
    y: TypeModifier,
    fuel: usize,
) -> Ordering
    decreases fuel, 4int, 0int,
{
    order_then(
        ref_order(hash_a, x.ty, hash_b, y.ty, fuel),
        int_order(modifier_rank(x.kind) + 0, modifier_rank(y.kind) + 0),
    )
}

/// The order of the types at two offsets: a type that is there comes before
/// one that is not.
pub open spec fn ref_order(
    hash_a: &FileHash,
    a: Option<TypeOffset>,
    hash_b: &FileHash,
    b: Option<TypeOffset>,
    fuel: usize,
) -> Ordering
    decreases fuel, 1int, 0int,
{
    match (hash_a.ty(a), hash_b.ty(b)) {
        (Some(x), Some(y)) => if fuel > 0 {
            type_order(hash_a, x, hash_b, y, pred(fuel))
        } else {
            Ordering::Equal
        },
        (Some(_), None) => Ordering::Less,
        (None, Some(_)) => Ordering::Greater,
        (None, None) => Ordering::Equal,
    }
}

/// The order of two parameters: that of their types, and where those are
/// the same, that of their names.
pub open spec fn param_order(
    hash_a: &FileHash,
    a: Parameter,
    hash_b: &FileHash,
    b: Parameter,
    fuel: usize,
) -> Ordering
    decreases fuel, 2int, 0int,
{
    order_then(
        ref_order(hash_a, a.ty, hash_b, b.ty, fuel),
        name_order(name_bytes(a.name), name_bytes(b.name)),
    )
}

/// The length of the shorter of two lists.
pub open spec fn shorter<T>(a: Seq<T>, b: Seq<T>) -> int {
    if a.len() <= b.len() {
        a.len() + 0int
    } else {
        b.len() + 0int
    }
}

/// The order of the first `n` parameters of two lists: that of the first
/// two that differ.
pub open spec fn params_order(
    hash_a: &FileHash,
    a: Seq<Parameter>,
    hash_b: &FileHash,
    b: Seq<Parameter>,
    n: int,
    fuel: usize,
) -> Ordering
    decreases fuel, 3int, n,
{
    if n <= 0 {
        Ordering::Equal
    } else {
        order_then(
            params_order(hash_a, a, hash_b, b, n - 1, fuel),
            param_order(hash_a, a[n - 1], hash_b, b[n - 1], fuel),
        )
    }
}

impl TypeKind {
    /// The place of the kind in the order of the kinds.
    pub fn discriminant_value(&self) -> (rank: u8)
        ensures
            rank == kind_rank(*self),
    {
        match *self {
            TypeKind::Base(..) => 0,
            TypeKind::Def(..) => 1,
            TypeKind::Struct(..) => 2,
            TypeKind::Union(..) => 3,
            TypeKind::Enumeration(..) => 4,
            TypeKind::Array(..) => 5,
            TypeKind::Subroutine(..) => 6,
            TypeKind::Unspecified(..) => 7,
            TypeKind::PointerToMember(..) => 8,
            TypeKind::Modifier(..) => 9,
        }
    }
}

impl TypeModifierKind {
    /// The place of the kind in the order of the kinds.
    pub fn discriminant_value(&self) -> (rank: u8)
        ensures
            rank == modifier_rank(*self),
    {
        match *self {
            TypeModifierKind::Pointer => 1,
            TypeModifierKind::Reference => 2,
            TypeModifierKind::Const => 3,
            TypeModifierKind::Packed => 4,
            TypeModifierKind::Volatile => 5,
            TypeModifierKind::Restrict => 6,
            TypeModifierKind::Shared => 7,
            TypeModifierKind::RvalueReference => 8,
            TypeModifierKind::Atomic => 9,
            TypeModifierKind::Other => 10,
        }
    }
}

impl Type {
    /// Compare the identifying information of two types.
    /// This can be used to sort, and to determine if two types refer to the
    /// same definition (even if there are differences in the definitions).
    pub fn cmp_id(hash_a: &FileHash, type_a: &Type, hash_b: &FileHash, type_b: &Type) -> (o: Ordering)
        ensures
            o == type_order(hash_a, type_a, hash_b, type_b, hash_a.depth()),
    {
        Type::cmp_id_with(hash_a, type_a, hash_b, type_b, hash_a.fuel())
    }

    /// Compares two types by identity, following at most `fuel` references
    /// from type to type.
    pub fn cmp_id_with(
        hash_a: &FileHash,
        type_a: &Type,
        hash_b: &FileHash,
        type_b: &Type,
        fuel: usize,
    ) -> (o: Ordering)
        ensures
            o == type_order(hash_a, type_a, hash_b, type_b, fuel),
        decreases fuel, 5int, 0int,
    {
        match (&type_a.kind, &type_b.kind) {
            (TypeKind::Base(a), TypeKind::Base(b)) => BaseType::cmp_id(a, b),
            (TypeKind::Def(a), TypeKind::Def(b)) => TypeDef::cmp_id(a, b),
            (TypeKind::Struct(a), TypeKind::Struct(b)) => StructType::cmp_id(a, b),
            (TypeKind::Union(a), TypeKind::Union(b)) => UnionType::cmp_id(a, b),
            (TypeKind::Enumeration(a), TypeKind::Enumeration(b)) => EnumerationType::cmp_id(a, b),
            (TypeKind::Array(a), TypeKind::Array(b)) => ArrayType::cmp_id_with(
                hash_a,
                a,
                hash_b,
                b,
                fuel,
            ),
            (TypeKind::Subroutine(a), TypeKind::Subroutine(b)) => SubroutineType::cmp_id_with(
                hash_a,
                a,
                hash_b,
                b,
                fuel,
            ),
            (TypeKind::Unspecified(a), TypeKind::Unspecified(b)) => UnspecifiedType::cmp_id(a, b),
            (
                TypeKind::PointerToMember(a),
                TypeKind::PointerToMember(b),
            ) => PointerToMemberType::cmp_id_with(hash_a, a, hash_b, b, fuel),
            (TypeKind::Modifier(a), TypeKind::Modifier(b)) => TypeModifier::cmp_id_with(
                hash_a,
                a,
                hash_b,
                b,
                fuel,
            ),
            _ => {
                let discr_a = type_a.kind.discriminant_value();
                let discr_b = type_b.kind.discriminant_value();
                cmp_u8(discr_a, discr_b)
            },
        }
    }

    /// Compares the types at two offsets by identity. A type that is there
    /// comes before one that is not.
    pub fn cmp_id_from_offset(
        hash_a: &FileHash,
        a: Option<TypeOffset>,
        hash_b: &FileHash,
        b: Option<TypeOffset>,
        fuel: usize,
    ) -> (o: Ordering)
        ensures
            o == ref_order(hash_a, a, hash_b, b, fuel),
        decreases fuel, 1int, 0int,
    {
        match (Type::from_option(hash_a, a), Type::from_option(hash_b, b)) {
            (Some(ty_a), Some(ty_b)) => {
                if fuel > 0 {
                    Type::cmp_id_with(hash_a, ty_a, hash_b, ty_b, fuel - 1)
                } else {
                    Ordering::Equal
                }
            },
            (Some(_), None) => Ordering::Less,
            (None, Some(_)) => Ordering::Greater,
            (None, None) => Ordering::Equal,
        }
    }

    /// Compare the size of two types.
    pub fn cmp_size(hash_a: &FileHash, type_a: &Type, hash_b: &FileHash, type_b: &Type) -> (o: Ordering)
        ensures
            o == opt_order(
                crate::types::type_size(hash_a, type_a, hash_a.depth()),
                crate::types::type_size(hash_b, type_b, hash_b.depth()),
            ),
    {
        cmp_opt_u64(type_a.byte_size(hash_a), type_b.byte_size(hash_b))
    }
}

impl BaseType {
    /// Compare the identifying information of two types.
    pub fn cmp_id(a: &BaseType, b: &BaseType) -> (o: Ordering)
        ensures
            o == name_order(name_bytes(a.name), name_bytes(b.name)),
    {
        cmp_name(&a.name, &b.name)
    }
}

impl TypeDef {
    /// Compare the identifying information of two types.
    pub fn cmp_id(a: &TypeDef, b: &TypeDef) -> (o: Ordering)
        ensures
            o == ns_and_name_order(a.namespace, name_bytes(a.name), b.namespace, name_bytes(b.name)),
    {
        cmp_ns_and_name(&a.namespace, &a.name, &b.namespace, &b.name)
    }
}

impl StructType {
    /// Compare the identifying information of two types.
    pub fn cmp_id(a: &StructType, b: &StructType) -> (o: Ordering)
        ensures
            o == ns_and_name_order(a.namespace, name_bytes(a.name), b.namespace, name_bytes(b.name)),
    {
        cmp_ns_and_name(&a.namespace, &a.name, &b.namespace, &b.name)
    }
}

impl UnionType {
    /// Compare the identifying information of two types.
    pub fn cmp_id(a: &UnionType, b: &UnionType) -> (o: Ordering)
        ensures
            o == ns_and_name_order(a.namespace, name_bytes(a.name), b.namespace, name_bytes(b.name)),
    {
        cmp_ns_and_name(&a.namespace, &a.name, &b.namespace, &b.name)
    }
}

impl EnumerationType {
    /// Compare the identifying information of two types.
    pub fn cmp_id(a: &EnumerationType, b: &EnumerationType) -> (o: Ordering)
        ensures
            o == ns_and_name_order(a.namespace, name_bytes(a.name), b.namespace, name_bytes(b.name)),
    {
        cmp_ns_and_name(&a.namespace, &a.name, &b.namespace, &b.name)
    }
}

impl UnspecifiedType {
    /// Compare the identifying information of two types.
    pub fn cmp_id(a: &UnspecifiedType, b: &UnspecifiedType) -> (o: Ordering)
        ensures
            o == ns_and_name_order(a.namespace, name_bytes(a.name), b.namespace, name_bytes(b.name)),
    {
        cmp_ns_and_name(&a.namespace, &a.name, &b.namespace, &b.name)
    }
}

impl ArrayType {
    /// Compare the identifying information of two types.
    pub fn cmp_id(hash_a: &FileHash, a: &ArrayType, hash_b: &FileHash, b: &ArrayType) -> (o: Ordering)
        ensures
            o == array_order(hash_a, *a, hash_b, *b, hash_a.depth()),
    {
        ArrayType::cmp_id_with(hash_a, a, hash_b, b, hash_a.fuel())
    }

    /// Compares two array types, following at most `fuel` references from type to type.
    pub fn cmp_id_with(
        hash_a: &FileHash,
        a: &ArrayType,
        hash_b: &FileHash,
        b: &ArrayType,
        fuel: usize,
    ) -> (o: Ordering)
        ensures
            o == array_order(hash_a, *a, hash_b, *b, fuel),
        decreases fuel, 4int, 0int,
    {
        match Type::cmp_id_from_offset(hash_a, a.ty, hash_b, b.ty, fuel) {
            Ordering::Equal => cmp_opt_u64(a.count, b.count),
            o => o,
        }
    }
}

impl SubroutineType {
    /// Compare the identifying information of two types.
    pub fn cmp_id(hash_a: &FileHash, a: &SubroutineType, hash_b: &FileHash, b: &SubroutineType) -> (o:
        Ordering)
        ensures
            o == subroutine_order(hash_a, *a, hash_b, *b, hash_a.depth()),
    {
        SubroutineType::cmp_id_with(hash_a, a, hash_b, b, hash_a.fuel())
    }

    /// Compares two subroutine types, following at most `fuel` references from type to type.
    pub fn cmp_id_with(
        hash_a: &FileHash,
        a: &SubroutineType,
        hash_b: &FileHash,
        b: &SubroutineType,
        fuel: usize,
    ) -> (o: Ordering)
        ensures
            o == subroutine_order(hash_a, *a, hash_b, *b, fuel),
        decreases fuel, 4int, 0int,
    {
        let mut i: usize = 0;
        while i < a.parameters.len() && i < b.parameters.len()
            invariant
                i <= a.parameters@.len(),
                i <= b.parameters@.len(),
                params_order(hash_a, a.parameters@, hash_b, b.parameters@, i + 0, fuel)
                    == Ordering::Equal,
            decreases a.parameters@.len() - i,
        {
            let ord = Parameter::cmp_id_with(hash_a, &a.parameters[i], hash_b, &b.parameters[i], fuel);
            proof {
                lemma_params_order_first(
                    hash_a,
                    a.parameters@,
                    hash_b,
                    b.parameters@,
                    i + 1,
                    shorter(a.parameters@, b.parameters@),
                    fuel,
                );
            }
            match ord {
                Ordering::Equal => {},
                o => {
                    return o;
                },
            }
            i += 1;
        }
        match cmp_usize(a.parameters.len(), b.parameters.len()) {
            Ordering::Equal => {},
            o => {
                return o;
            },
        }
        Type::cmp_id_from_offset(hash_a, a.return_type, hash_b, b.return_type, fuel)
    }
}

/// Where the first `n` parameters of two lists are not in the order
/// `Equal`, any more of them are in the order of the first `n`.
pub proof fn lemma_params_order_first(
    hash_a: &FileHash,
    a: Seq<Parameter>,
    hash_b: &FileHash,
    b: Seq<Parameter>,
    n: int,
    m: int,
    fuel: usize,
)
    requires
        0 <= n <= m,
    ensures
        params_order(hash_a, a, hash_b, b, n, fuel) != Ordering::Equal ==> params_order(
            hash_a,
            a,
            hash_b,
            b,
            m,
            fuel,
        ) == params_order(hash_a, a, hash_b, b, n, fuel),
    decreases m - n,
{
    if n < m {
        lemma_params_order_first(hash_a, a, hash_b, b, n, m - 1, fuel);
    }
}

impl PointerToMemberType {
    /// Compare the identifying information of two types.
    pub fn cmp_id(
        hash_a: &FileHash,
        a: &PointerToMemberType,
        hash_b: &FileHash,
        b: &PointerToMemberType,
    ) -> (o: Ordering)
        ensures
            o == member_pointer_order(hash_a, *a, hash_b, *b, hash_a.depth()),
    {
        PointerToMemberType::cmp_id_with(hash_a, a, hash_b, b, hash_a.fuel())
    }

    /// Compares two pointers to members, following at most `fuel` references from type to type.
    pub fn cmp_id_with(
        hash_a: &FileHash,
        a: &PointerToMemberType,
        hash_b: &FileHash,
        b: &PointerToMemberType,
        fuel: usize,
    ) -> (o: Ordering)
        ensures
            o == member_pointer_order(hash_a, *a, hash_b, *b, fuel),
        decreases fuel, 4int, 0int,
    {
        match Type::cmp_id_from_offset(hash_a, a.containing_ty, hash_b, b.containing_ty, fuel) {
            Ordering::Equal => {},
            o => {
                return o;
            },
        }
        Type::cmp_id_from_offset(hash_a, a.ty, hash_b, b.ty, fuel)
    }
}

impl TypeModifier {
    /// Compare the identifying information of two types.
    pub fn cmp_id(hash_a: &FileHash, a: &TypeModifier, hash_b: &FileHash, b: &TypeModifier) -> (o:
        Ordering)
        ensures
            o == modifier_order(hash_a, *a, hash_b, *b, hash_a.depth()),
    {
        TypeModifier::cmp_id_with(hash_a, a, hash_b, b, hash_a.fuel())
    }

    /// Compares two modified types, following at most `fuel` references from type to type.
    pub fn cmp_id_with(
        hash_a: &FileHash,
        a: &TypeModifier,
        hash_b: &FileHash,
        b: &TypeModifier,
        fuel: usize,
    ) -> (o: Ordering)
        ensures
            o == modifier_order(hash_a, *a, hash_b, *b, fuel),
        decreases fuel, 4int, 0int,
    {
        match Type::cmp_id_from_offset(hash_a, a.ty, hash_b, b.ty, fuel) {
            Ordering::Equal => {},
            o => {
                return o;
            },
        }
        let discr_a = a.kind.discriminant_value();
        let discr_b = b.kind.discriminant_value();
        cmp_u8(discr_a, discr_b)
    }
}

impl Parameter {
    /// Compare the identifying information of two parameters: their types,
    /// then their names.
    pub fn cmp_id(hash_a: &FileHash, a: &Parameter, hash_b: &FileHash, b: &Parameter) -> (o: Ordering)
        ensures
            o == param_order(hash_a, *a, hash_b, *b, hash_a.depth()),
    {
        Parameter::cmp_id_with(hash_a, a, hash_b, b, hash_a.fuel())
    }

    /// Compares two parameters, following at most `fuel` references from type to type.
    pub fn cmp_id_with(
        hash_a: &FileHash,
        a: &Parameter,
        hash_b: &FileHash,
        b: &Parameter,
        fuel: usize,
    ) -> (o: Ordering)
        ensures
            o == param_order(hash_a, *a, hash_b, *b, fuel),
        decreases fuel, 2int, 0int,
    {
        match Type::cmp_id_from_offset(hash_a, a.ty, hash_b, b.ty, fuel) {
            Ordering::Equal => {},
            o => {
                return o;
            },
        }
        cmp_name(&a.name, &b.name)
    }
}

/// A type is in the order `Equal` with itself.
pub proof fn lemma_type_order_same(hash: &FileHash, ty: &Type, fuel: usize)
    ensures
        type_order(hash, ty, hash, ty, fuel) == Ordering::Equal,
    decreases fuel, 5int, 0int,
{
    match ty.kind {
        TypeKind::Base(x) => {
            lemma_name_order_equal(name_bytes(x.name), name_bytes(x.name));
        },
        TypeKind::Def(x) => {
            lemma_ns_and_name_order_same(x.namespace, name_bytes(x.name));
        },
        TypeKind::Struct(x) => {
            lemma_ns_and_name_order_same(x.namespace, name_bytes(x.name));
        },
        TypeKind::Union(x) => {
            lemma_ns_and_name_order_same(x.namespace, name_bytes(x.name));
        },
        TypeKind::Enumeration(x) => {
            lemma_ns_and_name_order_same(x.namespace, name_bytes(x.name));
        },
        TypeKind::Unspecified(x) => {
            lemma_ns_and_name_order_same(x.namespace, name_bytes(x.name));
        },
        TypeKind::Array(x) => {
            lemma_ref_order_same(hash, x.ty, fuel);
        },
        TypeKind::Subroutine(x) => {
            lemma_params_order_same(hash, x.parameters@, x.parameters@.len() + 0int, fuel);
            lemma_ref_order_same(hash, x.return_type, fuel);
        },
        TypeKind::PointerToMember(x) => {
            lemma_ref_order_same(hash, x.containing_ty, fuel);
            lemma_ref_order_same(hash, x.ty, fuel);
        },
        TypeKind::Modifier(x) => {
            lemma_ref_order_same(hash, x.ty, fuel);
        },
    }
}

/// The type at an offset is in the order `Equal` with itself.
pub proof fn lemma_ref_order_same(hash: &FileHash, offset: Option<TypeOffset>, fuel: usize)
    ensures
        ref_order(hash, offset, hash, offset, fuel) == Ordering::Equal,
    decreases fuel, 1int, 0int,
{
    if fuel > 0 {
        if let Some(ty) = hash.ty(offset) {
            lemma_type_order_same(hash, ty, pred(fuel));
        }
    }
}

/// A list of parameters is in the order `Equal` with itself.
pub proof fn lemma_params_order_same(hash: &FileHash, a: Seq<Parameter>, n: int, fuel: usize)
    requires
        n <= a.len(),
    ensures
        params_order(hash, a, hash, a, n, fuel) == Ordering::Equal,
    decreases fuel, 3int, n,
{
    if n > 0 {
        lemma_params_order_same(hash, a, n - 1, fuel);
        lemma_ref_order_same(hash, a[n - 1].ty, fuel);
        lemma_name_order_equal(name_bytes(a[n - 1].name), name_bytes(a[n - 1].name));
        assert(param_order(hash, a[n - 1], hash, a[n - 1], fuel) == Ordering::Equal);
    }
}


/// What pairing two entries costs as far as their types go: nothing where
/// the two types are the same by identity, or neither entry has a type.
pub open spec fn type_pair(
    hash_a: &FileHash,
    a: Option<TypeOffset>,
    hash_b: &FileHash,
    b: Option<TypeOffset>,
) -> nat {
    match (hash_a.ty(a), hash_b.ty(b)) {
        (Some(x), Some(y)) => if type_order(hash_a, x, hash_b, y, hash_a.depth())
            != Ordering::Equal {
            1
        } else {
            0
        },
        (None, None) => 0,
        _ => 1,
    }
}

/// What pairing two entries costs as far as their names go.
pub open spec fn name_pair(a: Option<Vec<u8>>, b: Option<Vec<u8>>) -> nat {
    if name_order(name_bytes(a), name_bytes(b)) != Ordering::Equal {
        1
    } else {
        0
    }
}

/// What pairing two entries with a name and a type costs: one for names
/// that differ and one for types that differ.
pub open spec fn entry_pair(
    hash_a: &FileHash,
    name_a: Option<Vec<u8>>,
    ty_a: Option<TypeOffset>,
    hash_b: &FileHash,
    name_b: Option<Vec<u8>>,
    ty_b: Option<TypeOffset>,
) -> nat {
    name_pair(name_a, name_b) + type_pair(hash_a, ty_a, hash_b, ty_b)
}

/// Gives what pairing two entries with a name and a type costs.
pub fn entry_diff_cost(
    hash_a: &FileHash,
    name_a: &Option<Vec<u8>>,
    ty_a: Option<TypeOffset>,
    hash_b: &FileHash,
    name_b: &Option<Vec<u8>>,
    ty_b: Option<TypeOffset>,
) -> (cost: usize)
    ensures
        cost == entry_pair(hash_a, *name_a, ty_a, hash_b, *name_b, ty_b),
{
    let mut cost: usize = 0;
    match cmp_name(name_a, name_b) {
        Ordering::Equal => {},
        _ => {
            cost += 1;
        },
    }
    match (Type::from_option(hash_a, ty_a), Type::from_option(hash_b, ty_b)) {
        (Some(ty_a), Some(ty_b)) => {
            match Type::cmp_id(hash_a, ty_a, hash_b, ty_b) {
                Ordering::Equal => {},
                _ => {
                    cost += 1;
                },
            }
        },
        (None, None) => {},
        _ => {
            cost += 1;
        },
    }
    cost
}

/// Pairing an entry with itself costs nothing.
pub proof fn lemma_entry_pair_same(hash: &FileHash, name: Option<Vec<u8>>, ty: Option<TypeOffset>)
    ensures
        entry_pair(hash, name, ty, hash, name, ty) == 0,
{
    lemma_name_order_equal(name_bytes(name), name_bytes(name));
    if let Some(x) = hash.ty(ty) {
        lemma_type_order_same(hash, x, hash.depth());
    }
}

impl Member {
    /// What pairing two members costs: one for names that differ and one
    /// for types that differ.
    pub fn diff_cost(hash_a: &FileHash, a: &Member, hash_b: &FileHash, b: &Member) -> (cost: usize)
        ensures
            cost == entry_pair(hash_a, a.name, a.ty, hash_b, b.name, b.ty),
    {
        entry_diff_cost(hash_a, &a.name, a.ty, hash_b, &b.name, b.ty)
    }
}

/// What pairing two enumerators costs: a difference in name is more
/// significant than a difference in value, such as for enums where the
/// value is assigned by the compiler.
pub open spec fn enumerator_pair(a: Enumerator, b: Enumerator) -> nat {
    (if name_order(name_bytes(a.name), name_bytes(b.name)) != Ordering::Equal {
        4nat
    } else {
        0nat
    }) + (if a.value != b.value {
        2nat
    } else {
        0nat
    })
}

impl Enumerator {
    /// What it costs to pair two enumerators when two lists are aligned.
    pub fn diff_cost(a: &Enumerator, b: &Enumerator) -> (cost: usize)
        ensures
            cost == enumerator_pair(*a, *b),
    {
        let mut cost: usize = 0;
        match cmp_name(&a.name, &b.name) {
            Ordering::Equal => {},
            _ => {
                cost += 4;
            },
        }
        let same = match (a.value, b.value) {
            (Some(x), Some(y)) => x == y,
            (None, None) => true,
            _ => false,
        };
        if !same {
            cost += 2;
        }
        cost
    }
}


/// The order of two functions by identity: by namespace and name.
pub open spec fn function_order(a: &Function, b: &Function) -> Ordering {
    ns_and_name_order(a.namespace, name_bytes(a.name), b.namespace, name_bytes(b.name))
}

/// The order of the types of the first `n` parameters of two lists: that of
/// the first two that differ.
pub open spec fn param_types_order(
    hash_a: &FileHash,
    a: Seq<Parameter>,
    hash_b: &FileHash,
    b: Seq<Parameter>,
    n: int,
) -> Ordering
    decreases n,
{
    if n <= 0 {
        Ordering::Equal
    } else {
        order_then(
            param_types_order(hash_a, a, hash_b, b, n - 1),
            ref_order(hash_a, a[n - 1].ty, hash_b, b[n - 1].ty, hash_a.depth()),
        )
    }
}

/// The order in which the functions of a file are put before two files are
/// merged: by namespace and name, then by the types of the parameters, so
/// that functions of the same name stand in the same order in both files.
pub open spec fn function_sort_order(
    hash_a: &FileHash,
    a: &Function,
    hash_b: &FileHash,
    b: &Function,
) -> Ordering {
    order_then(
        function_order(a, b),
        order_then(
            param_types_order(
                hash_a,
                a.parameters@,
                hash_b,
                b.parameters@,
                shorter(a.parameters@, b.parameters@),
            ),
            int_order(a.parameters@.len() + 0int, b.parameters@.len() + 0int),
        ),
    )
}

/// The order in which functions are printed.
pub open spec fn function_display_order(
    hash_a: &FileHash,
    a: &Function,
    hash_b: &FileHash,
    b: &Function,
    options: &Flags,
) -> Ordering {
    match options.sort {
        Sort::Unsorted => opt_order(a.low_pc, b.low_pc),
        Sort::Name => function_sort_order(hash_a, a, hash_b, b),
        Sort::Size => opt_order(a.size, b.size),
    }
}

/// Once the first `n` parameters of two lists decide their order, more
/// parameters change nothing.
pub proof fn lemma_param_types_order_first(
    hash_a: &FileHash,
    a: Seq<Parameter>,
    hash_b: &FileHash,
    b: Seq<Parameter>,
    n: int,
    m: int,
)
    requires
        0 <= n <= m,
    ensures
        param_types_order(hash_a, a, hash_b, b, n) != Ordering::Equal ==> param_types_order(
            hash_a,
            a,
            hash_b,
            b,
            m,
        ) == param_types_order(hash_a, a, hash_b, b, n),
    decreases m - n,
{
    if n < m {
        lemma_param_types_order_first(hash_a, a, hash_b, b, n, m - 1);
    }
}

impl Parameter {
    /// Compares the types of two parameters.
    pub fn cmp_type(hash_a: &FileHash, a: &Parameter, hash_b: &FileHash, b: &Parameter) -> (o: Ordering)
        ensures
            o == ref_order(hash_a, a.ty, hash_b, b.ty, hash_a.depth()),
    {
        Type::cmp_id_from_offset(hash_a, a.ty, hash_b, b.ty, hash_a.fuel())
    }

    /// What it costs to pair two parameters when two lists are aligned.
    pub fn diff_cost(hash_a: &FileHash, a: &Parameter, hash_b: &FileHash, b: &Parameter) -> (cost: usize)
        ensures
            cost == entry_pair(hash_a, a.name, a.ty, hash_b, b.name, b.ty),
    {
        entry_diff_cost(hash_a, &a.name, a.ty, hash_b, &b.name, b.ty)
    }
}

impl Function {
    /// Compare the identifying information of two functions.
    /// This can be used to sort, and to determine if two functions refer to
    /// the same definition (even if there are differences in the
    /// definitions).
    pub fn cmp_id(a: &Function, b: &Function) -> (o: Ordering)
        ensures
            o == function_order(a, b),
    {
        cmp_ns_and_name(&a.namespace, &a.name, &b.namespace, &b.name)
    }

    /// Compare the size of two functions.
    pub fn cmp_size(a: &Function, b: &Function) -> (o: Ordering)
        ensures
            o == opt_order(a.size, b.size),
    {
        cmp_opt_u64(a.size, b.size)
    }

    /// The order in which functions are sorted before the functions of two
    /// files are merged: that of `cmp_id`, and among functions of one name
    /// that of their parameters' types, so that overloaded functions meet
    /// the ones of their signature.
    pub fn cmp_id_for_sort(hash_a: &FileHash, a: &Function, hash_b: &FileHash, b: &Function) -> (o:
        Ordering)
        ensures
            o == function_sort_order(hash_a, a, hash_b, b),
    {
        match Function::cmp_id(a, b) {
            Ordering::Equal => {},
            o => {
                return o;
            },
        }
        let mut i: usize = 0;
        while i < a.parameters.len() && i < b.parameters.len()
            invariant
                i <= a.parameters@.len(),
                i <= b.parameters@.len(),
                param_types_order(hash_a, a.parameters@, hash_b, b.parameters@, i + 0)
                    == Ordering::Equal,
                function_order(a, b) == Ordering::Equal,
            decreases a.parameters@.len() - i,
        {
            let ord = Parameter::cmp_type(hash_a, &a.parameters[i], hash_b, &b.parameters[i]);
            proof {
                lemma_param_types_order_first(
                    hash_a,
                    a.parameters@,
                    hash_b,
                    b.parameters@,
                    i + 1,
                    shorter(a.parameters@, b.parameters@),
                );
                assert(param_types_order(hash_a, a.parameters@, hash_b, b.parameters@, i + 1) == ord);
            }
            match ord {
                Ordering::Equal => {},
                o => {
                    return o;
                },
            }
            i += 1;
        }
        cmp_usize(a.parameters.len(), b.parameters.len())
    }

    /// Compares two functions by what the options sort by.
    pub fn cmp_by(
        hash_a: &FileHash,
        a: &Function,
        hash_b: &FileHash,
        b: &Function,
        options: &Flags,
    ) -> (o: Ordering)
        ensures
            o == function_display_order(hash_a, a, hash_b, b, options),
    {
        match options.sort {
            Sort::Unsorted => cmp_opt_u64(a.low_pc, b.low_pc),
            Sort::Name => Function::cmp_id_for_sort(hash_a, a, hash_b, b),
            Sort::Size => cmp_opt_u64(a.size, b.size),
        }
    }
}

/// What pairing two functions that may be missing costs: nothing where the
/// two are the same by identity, or both are missing.
pub open spec fn function_pair(a: Option<&Function>, b: Option<&Function>) -> nat {
    match (a, b) {
        (Some(x), Some(y)) => if function_order(x, y) != Ordering::Equal {
            1
        } else {
            0
        },
        (None, None) => 0,
        _ => 1,
    }
}

/// Gives what pairing two functions that may be missing costs.
pub fn function_diff_cost(a: Option<&Function>, b: Option<&Function>) -> (cost: usize)
    ensures
        cost == function_pair(a, b),
{
    match (a, b) {
        (Some(function_a), Some(function_b)) => {
            match Function::cmp_id(function_a, function_b) {
                Ordering::Equal => 0,
                _ => 1,
            }
        },
        (None, None) => 0,
        _ => 1,
    }
}

/// What pairing two calls costs: one where they go to different functions.
pub open spec fn call_pair(hash_a: &FileHash, a: Call, hash_b: &FileHash, b: Call) -> nat {
    function_pair(hash_a.function_at(a.to), hash_b.function_at(b.to))
}

impl Call {
    /// What it costs to pair two calls when two lists are aligned.
    pub fn diff_cost(hash_a: &FileHash, a: &Call, hash_b: &FileHash, b: &Call) -> (cost: usize)
        ensures
            cost == call_pair(hash_a, *a, hash_b, *b),
    {
        function_diff_cost(hash_a.function_from_address(a.to), hash_b.function_from_address(b.to))
    }
}

/// What pairing two inlined calls costs: one where different functions were
/// inlined, and one where the sizes differ.
pub open spec fn inlined_pair(
    hash_a: &FileHash,
    a: InlinedFunction,
    hash_b: &FileHash,
    b: InlinedFunction,
) -> nat {
    function_pair(hash_a.function(a.abstract_origin), hash_b.function(b.abstract_origin)) + (if a.size
        != b.size {
        1nat
    } else {
        0nat
    })
}

impl InlinedFunction {
    /// What it costs to pair two inlined calls when two lists are aligned.
    pub fn diff_cost(
        hash_a: &FileHash,
        a: &InlinedFunction,
        hash_b: &FileHash,
        b: &InlinedFunction,
    ) -> (cost: usize)
        ensures
            cost == inlined_pair(hash_a, *a, hash_b, *b),
    {
        let origin_a = match a.abstract_origin {
            Some(offset) => hash_a.function_from_offset(offset),
            None => None,
        };
        let origin_b = match b.abstract_origin {
            Some(offset) => hash_b.function_from_offset(offset),
            None => None,
        };
        let mut cost = function_diff_cost(origin_a, origin_b);
        let same = match (a.size, b.size) {
            (Some(x), Some(y)) => x == y,
            (None, None) => true,
            _ => false,
        };
        if !same {
            cost += 1;
        }
        cost
    }
}

/// The size of a variable: the one that is given, or that of its type.
pub open spec fn variable_size(hash: &FileHash, size: Option<u64>, ty: Option<TypeOffset>) -> Option<
    u64,
> {
    if size is Some {
        size
    } else {
        crate::types::size_at(hash, ty, hash.depth())
    }
}

/// The order of two variables by identity: by namespace and name.
pub open spec fn variable_order(a: &Variable, b: &Variable) -> Ordering {
    ns_and_name_order(a.namespace, name_bytes(a.name), b.namespace, name_bytes(b.name))
}

/// The order in which variables are printed.
pub open spec fn variable_display_order(
    hash_a: &FileHash,
    a: &Variable,
    hash_b: &FileHash,
    b: &Variable,
    options: &Flags,
) -> Ordering {
    match options.sort {
        Sort::Unsorted => opt_order(a.address, b.address),
        Sort::Name => variable_order(a, b),
        Sort::Size => opt_order(
            variable_size(hash_a, a.size, a.ty),
            variable_size(hash_b, b.size, b.ty),
        ),
    }
}

impl Variable {
    /// The size in bytes of the variable.
    pub fn byte_size(&self, hash: &FileHash) -> (size: Option<u64>)
        ensures
            size == variable_size(hash, self.size, self.ty),
    {
        if self.size.is_some() {
            self.size
        } else {
            Type::size_from_offset(hash, self.ty, hash.fuel())
        }
    }

    /// Compare the identifying information of two variables.
    ///
    /// Variables are equal if they have the same namespace and name.
    ///
    /// This can be used to sort, and to determine if two variables refer to
    /// the same definition (even if there are differences in the
    /// definitions).
    pub fn cmp_id(_hash_a: &FileHash, a: &Variable, _hash_b: &FileHash, b: &Variable) -> (o: Ordering)
        ensures
            o == variable_order(a, b),
    {
        cmp_ns_and_name(&a.namespace, &a.name, &b.namespace, &b.name)
    }

    /// Compare the size of two variables.
    pub fn cmp_size(hash_a: &FileHash, a: &Variable, hash_b: &FileHash, b: &Variable) -> (o: Ordering)
        ensures
            o == opt_order(
                variable_size(hash_a, a.size, a.ty),
                variable_size(hash_b, b.size, b.ty),
            ),
    {
        cmp_opt_u64(a.byte_size(hash_a), b.byte_size(hash_b))
    }

    /// Compares two variables by what the options sort by.
    pub fn cmp_by(
        hash_a: &FileHash,
        a: &Variable,
        hash_b: &FileHash,
        b: &Variable,
        options: &Flags,
    ) -> (o: Ordering)
        ensures
            o == variable_display_order(hash_a, a, hash_b, b, options),
    {
        match options.sort {
            Sort::Unsorted => cmp_opt_u64(a.address, b.address),
            Sort::Name => Variable::cmp_id(hash_a, a, hash_b, b),
            Sort::Size => Variable::cmp_size(hash_a, a, hash_b, b),
        }
    }
}

impl LocalVariable {
    /// The size in bytes of the variable.
    pub fn byte_size(&self, hash: &FileHash) -> (size: Option<u64>)
        ensures
            size == variable_size(hash, self.size, self.ty),
    {
        if self.size.is_some() {
            self.size
        } else {
            Type::size_from_offset(hash, self.ty, hash.fuel())
        }
    }

    /// Compare the identifying information of two variables.
    ///
    /// Variables are considered equal if their names are equal.
    ///
    /// This can be used to sort, and to determine if two variables refer to
    /// the same definition (even if there are differences in the
    /// definitions).
    pub fn cmp_id(_hash_a: &FileHash, a: &LocalVariable, _hash_b: &FileHash, b: &LocalVariable) -> (o:
        Ordering)
        ensures
            o == name_order(name_bytes(a.name), name_bytes(b.name)),
    {
        cmp_name(&a.name, &b.name)
    }

    /// What it costs to pair two variables when two lists are aligned.
    pub fn diff_cost(hash_a: &FileHash, a: &LocalVariable, hash_b: &FileHash, b: &LocalVariable) -> (cost:
        usize)
        ensures
            cost == entry_pair(hash_a, a.name, a.ty, hash_b, b.name, b.ty),
    {
        entry_diff_cost(hash_a, &a.name, a.ty, hash_b, &b.name, b.ty)
    }
}

/// The order in which types are printed.
pub open spec fn type_display_order(
    hash_a: &FileHash,
    a: &Type,
    hash_b: &FileHash,
    b: &Type,
    options: &Flags,
) -> Ordering {
    match options.sort {
        Sort::Unsorted => int_order(a.offset.0 + 0, b.offset.0 + 0),
        Sort::Name => type_order(hash_a, a, hash_b, b, hash_a.depth()),
        Sort::Size => opt_order(
            crate::types::type_size(hash_a, a, hash_a.depth()),
            crate::types::type_size(hash_b, b, hash_b.depth()),
        ),
    }
}

impl Type {
    /// Compares two types by what the options sort by.
    pub fn cmp_by(hash_a: &FileHash, a: &Type, hash_b: &FileHash, b: &Type, options: &Flags) -> (o:
        Ordering)
        ensures
            o == type_display_order(hash_a, a, hash_b, b, options),
    {
        match options.sort {
            Sort::Unsorted => cmp_usize(a.offset.0, b.offset.0),
            Sort::Name => Type::cmp_id(hash_a, a, hash_b, b),
            Sort::Size => Type::cmp_size(hash_a, a, hash_b, b),
        }
    }
}

/// The order in which units are printed. Unsorted, they stay in the order
/// in which they are.
pub open spec fn unit_display_order(a: &Unit, b: &Unit, options: &Flags) -> Ordering {
    match options.sort {
        Sort::Unsorted => Ordering::Equal,
        Sort::Name => name_order(name_bytes(a.name), name_bytes(b.name)),
        Sort::Size => opt_order(a.size, b.size),
    }
}

impl Unit {
    /// Compare the identifying information of two units.
    /// This can be used to sort, and to determine if two units refer to the
    /// same source.
    pub fn cmp_id(a: &Unit, b: &Unit) -> (o: Ordering)
        ensures
            o == name_order(name_bytes(a.name), name_bytes(b.name)),
    {
        cmp_name(&a.name, &b.name)
    }

    /// Compare the size of two units.
    pub fn cmp_size(a: &Unit, b: &Unit) -> (o: Ordering)
        ensures
            o == opt_order(a.size, b.size),
    {
        cmp_opt_u64(a.size, b.size)
    }

    /// Compares two units by what the options sort by.
    pub fn cmp_by(a: &Unit, b: &Unit, options: &Flags) -> (o: Ordering)
        ensures
            o == unit_display_order(a, b, options),
    {
        match options.sort {
            Sort::Unsorted => Ordering::Equal,
            Sort::Name => Unit::cmp_id(a, b),
            Sort::Size => Unit::cmp_size(a, b),
        }
    }
}


/// The order of two local variables by name.
pub open spec fn local_ord<'a>() -> spec_fn(&'a LocalVariable, &'a LocalVariable) -> Ordering {
    |x: &'a LocalVariable, y: &'a LocalVariable| name_order(name_bytes(x.name), name_bytes(y.name))
}

/// The local variables of a function in the order of their names.
pub open spec fn sorted_locals<'a>(list: Seq<LocalVariable>) -> Seq<&'a LocalVariable> {
    crate::sort::sorted(crate::list::refs_of::<LocalVariable>(list), local_ord())
}

/// Gives the local variables of a function in the order of their names.
pub fn sort_locals<'a>(hash: &FileHash, list: &'a [LocalVariable]) -> (r: Vec<&'a LocalVariable>)
    ensures
        r@ == sorted_locals(list@),
{
    let refs = crate::list::refs(list);
    let by = |x: &LocalVariable, y: &LocalVariable| -> (o: Ordering)
        ensures
            o == name_order(name_bytes(x.name), name_bytes(y.name)),
        { LocalVariable::cmp_id(hash, x, hash, y) };
    crate::sort::sort_by(refs.as_slice(), &by, Ghost(local_ord()))
}


/// What pairing two sections costs: two where their names or their segments
/// differ.
pub open spec fn section_pair(a: &Section, b: &Section) -> nat {
    if name_order(name_bytes(a.name), name_bytes(b.name)) != Ordering::Equal || name_order(
        name_bytes(a.segment),
        name_bytes(b.segment),
    ) != Ordering::Equal {
        2
    } else {
        0
    }
}

/// What pairing two symbols costs: two where their names differ.
pub open spec fn symbol_pair(a: &Symbol, b: &Symbol) -> nat {
    if name_order(name_bytes(a.name), name_bytes(b.name)) != Ordering::Equal {
        2
    } else {
        0
    }
}

impl Section {
    /// What it costs to pair two sections when two lists are aligned.
    pub fn diff_cost(a: &Section, b: &Section) -> (cost: usize)
        ensures
            cost == section_pair(a, b),
    {
        let same_name = match cmp_name(&a.name, &b.name) {
            Ordering::Equal => true,
            _ => false,
        };
        let same_segment = match cmp_name(&a.segment, &b.segment) {
            Ordering::Equal => true,
            _ => false,
        };
        if same_name && same_segment {
            0
        } else {
            2
        }
    }
}

impl Symbol {
    /// What it costs to pair two symbols when two lists are aligned.
    pub fn diff_cost(a: &Symbol, b: &Symbol) -> (cost: usize)
        ensures
            cost == symbol_pair(a, b),
    {
        match cmp_name(&a.name, &b.name) {
            Ordering::Equal => 0,
            _ => 2,
        }
    }
}

} // verus!
