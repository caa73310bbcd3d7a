//! Types, their members and their enumerators.
use std::rc::Rc;
use vstd::prelude::*;
use vstd::string::StringSliceAdditionalSpecFns;
use crate::file::FileHash;
use crate::function::Parameter;
use crate::namespace::{name_text, ns_text, print_name, print_namespace, Namespace};
use crate::order::name_bytes;
use crate::seqs::group_bytes;
use crate::text::{decimal, put, put_str, put_u64};
use crate::Flags;

verus! {

/// Where a type stands in the debugging information. Other entries refer to
/// a type by it.
#[derive(Debug, Clone, Copy, PartialEq, Eq, Structural)]
pub struct TypeOffset(pub usize);

/// A type, and the place where it is found.
#[derive(Debug)]
pub struct Type {
    pub offset: TypeOffset,
    pub kind: TypeKind,
}

/// What a type is.
#[derive(Debug)]
pub enum TypeKind {
    Base(BaseType),
    Def(TypeDef),
    Struct(StructType),
    Union(UnionType),
    Enumeration(EnumerationType),
    Array(ArrayType),
    Subroutine(SubroutineType),
    Unspecified(UnspecifiedType),
    PointerToMember(PointerToMemberType),
    Modifier(TypeModifier),
}

/// A type made of another by a modifier, such as a pointer to it.
#[derive(Debug)]
pub struct TypeModifier {
    pub kind: TypeModifierKind,
    pub ty: Option<TypeOffset>,
    pub name: Option<Vec<u8>>,
    pub byte_size: Option<u64>,
    /// The size of an address in the unit of the type.
    pub address_size: Option<u64>,
}

/// The ways in which a type is made of another.
#[derive(Debug, Clone, Copy, PartialEq, Eq, Structural)]
pub enum TypeModifierKind {
    Pointer,
    Reference,
    Const,
    Packed,
    Volatile,
    Restrict,
    Shared,
    RvalueReference,
    Atomic,
    Other,
}

/// A type of the language, such as an integer.
#[derive(Debug)]
pub struct BaseType {
    pub name: Option<Vec<u8>>,
    pub byte_size: Option<u64>,
}

/// A name for another type.
#[derive(Debug)]
pub struct TypeDef {
    pub namespace: Option<Rc<Namespace>>,
    pub name: Option<Vec<u8>>,
    pub ty: Option<TypeOffset>,
}

/// A struct.
#[derive(Debug)]
pub struct StructType {
    pub namespace: Option<Rc<Namespace>>,
    pub name: Option<Vec<u8>>,
    pub byte_size: Option<u64>,
    pub declaration: bool,
    pub members: Vec<Member>,
}

/// A union.
#[derive(Debug)]
pub struct UnionType {
    pub namespace: Option<Rc<Namespace>>,
    pub name: Option<Vec<u8>>,
    pub byte_size: Option<u64>,
    pub declaration: bool,
    pub members: Vec<Member>,
}

/// A member of a struct or of a union.
#[derive(Debug)]
pub struct Member {
    pub name: Option<Vec<u8>>,
    pub ty: Option<TypeOffset>,
    /// Where the member begins in its type, in bits.
    pub bit_offset: u64,
    pub bit_size: Option<u64>,
}

/// An enumeration.
#[derive(Debug)]
pub struct EnumerationType {
    pub namespace: Option<Rc<Namespace>>,
    pub name: Option<Vec<u8>>,
    pub declaration: bool,
    pub ty: Option<TypeOffset>,
    pub byte_size: Option<u64>,
    pub enumerators: Vec<Enumerator>,
}

/// A value of an enumeration.
#[derive(Debug)]
pub struct Enumerator {
    pub name: Option<Vec<u8>>,
    pub value: Option<i64>,
}

/// An array.
#[derive(Debug)]
pub struct ArrayType {
    pub ty: Option<TypeOffset>,
    pub count: Option<u64>,
    pub byte_size: Option<u64>,
}

/// The type of a subroutine.
#[derive(Debug)]
pub struct SubroutineType {
    pub parameters: Vec<Parameter>,
    pub return_type: Option<TypeOffset>,
    pub byte_size: Option<u64>,
}

/// A type of which nothing but the name is known.
#[derive(Debug)]
pub struct UnspecifiedType {
    pub namespace: Option<Rc<Namespace>>,
    pub name: Option<Vec<u8>>,
}

/// A pointer to a member of a type.
#[derive(Debug)]
pub struct PointerToMemberType {
    pub ty: Option<TypeOffset>,
    pub containing_ty: Option<TypeOffset>,
    pub byte_size: Option<u64>,
    /// The size of an address in the unit of the type.
    pub address_size: Option<u64>,
}


/// The product of two sizes, where it is a size.
pub open spec fn times(a: u64, b: u64) -> Option<u64> {
    if a * b <= u64::MAX {
        Some((a * b) as u64)
    } else {
        None
    }
}

/// The size in bytes of a type, following at most `fuel` references from
/// type to type.
pub open spec fn type_size(hash: &FileHash, ty: &Type, fuel: usize) -> Option<u64>
    decreases fuel, 1int,
{
    match ty.kind {
        TypeKind::Base(t) => t.byte_size,
        TypeKind::Def(t) => size_at(hash, t.ty, fuel),
        TypeKind::Struct(t) => t.byte_size,
        TypeKind::Union(t) => t.byte_size,
        TypeKind::Enumeration(t) => if t.byte_size is Some {
            t.byte_size
        } else {
            size_at(hash, t.ty, fuel)
        },
        TypeKind::Array(t) => if t.byte_size is Some {
            t.byte_size
        } else {
            match (size_at(hash, t.ty, fuel), t.count) {
                (Some(size), Some(count)) => times(size, count),
                _ => None,
            }
        },
        TypeKind::Subroutine(t) => t.byte_size,
        TypeKind::Unspecified(_) => None,
        TypeKind::PointerToMember(t) => if t.byte_size is Some {
            t.byte_size
        } else {
            match hash.ty(t.ty) {
                Some(ty) => if is_subroutine_type(hash, ty, fuel) {
                    match t.address_size {
                        Some(size) => times(size, 2),
                        None => None,
                    }
                } else {
                    t.address_size
                },
                None => None,
            }
        },
        TypeKind::Modifier(t) => if t.byte_size is Some {
            t.byte_size
        } else {
            match t.kind {
                TypeModifierKind::Pointer
                | TypeModifierKind::Reference
                | TypeModifierKind::RvalueReference => t.address_size,
                _ => size_at(hash, t.ty, fuel),
            }
        },
    }
}

/// The size in bytes of the type at `offset`, following at most `fuel`
/// references from type to type.
pub open spec fn size_at(hash: &FileHash, offset: Option<TypeOffset>, fuel: usize) -> Option<u64>
    decreases fuel, 0int,
{
    if fuel == 0 {
        None
    } else {
        match hash.ty(offset) {
            Some(ty) => type_size(hash, ty, (fuel - 1) as usize),
            None => None,
        }
    }
}

/// Whether a type is the type of a function, or another name for one.
pub open spec fn is_subroutine_type(hash: &FileHash, ty: &Type, fuel: usize) -> bool
    decreases fuel,
{
    match ty.kind {
        TypeKind::Subroutine(_) => true,
        TypeKind::Def(t) => fuel > 0 && match hash.ty(t.ty) {
            Some(ty) => is_subroutine_type(hash, ty, (fuel - 1) as usize),
            None => false,
        },
        TypeKind::Modifier(t) => fuel > 0 && match hash.ty(t.ty) {
            Some(ty) => is_subroutine_type(hash, ty, (fuel - 1) as usize),
            None => false,
        },
        _ => false,
    }
}

/// The number of elements of an array: the one that is given, or the size
/// of the array in units of the size of its elements.
pub open spec fn array_count(hash: &FileHash, t: ArrayType) -> Option<u64> {
    if t.count is Some {
        t.count
    } else {
        match (size_at(hash, t.ty, hash.depth()), t.byte_size) {
            (Some(size), Some(byte_size)) => if size > 0 {
                Some(byte_size / size)
            } else {
                None
            },
            _ => None,
        }
    }
}

/// What stands for a type that is not there.
pub open spec fn invalid_type_text(offset: usize) -> Seq<u8> {
    "<invalid-type ".spec_bytes() + decimal(offset as nat) + ">".spec_bytes()
}

/// The word that a type modifier is shown as.
pub open spec fn modifier_text(kind: TypeModifierKind) -> Seq<u8> {
    match kind {
        TypeModifierKind::Pointer => "* ".spec_bytes(),
        TypeModifierKind::Reference | TypeModifierKind::RvalueReference => "& ".spec_bytes(),
        TypeModifierKind::Const => "const ".spec_bytes(),
        TypeModifierKind::Volatile => "volatile ".spec_bytes(),
        TypeModifierKind::Restrict => "restrict ".spec_bytes(),
        _ => Seq::empty(),
    }
}

/// The text by which a type is referred to, following at most `fuel`
/// references from type to type.
pub open spec fn type_ref(hash: &FileHash, ty: &Type, fuel: usize) -> Seq<u8>
    decreases fuel, 3int, 0int,
{
    match ty.kind {
        TypeKind::Base(t) => name_text(t.name, "<anon-base-type>"),
        TypeKind::Def(t) => ns_text(t.namespace) + name_text(t.name, "<anon-typedef>"),
        TypeKind::Struct(t) => "struct ".spec_bytes() + ns_text(t.namespace) + name_text(
            t.name,
            "<anon>",
        ),
        TypeKind::Union(t) => "union ".spec_bytes() + ns_text(t.namespace) + name_text(
            t.name,
            "<anon>",
        ),
        TypeKind::Enumeration(t) => "enum ".spec_bytes() + ns_text(t.namespace) + name_text(
            t.name,
            "<anon>",
        ),
        TypeKind::Array(t) => "[".spec_bytes() + ref_at(hash, t.ty, fuel) + (match array_count(
            hash,
            t,
        ) {
            Some(count) => "; ".spec_bytes() + decimal(count as nat),
            None => Seq::empty(),
        }) + "]".spec_bytes(),
        TypeKind::Subroutine(t) => "(".spec_bytes() + params_text(
            hash,
            t.parameters@,
            t.parameters@.len() as int,
            fuel,
        ) + ")".spec_bytes() + (if hash.ty(t.return_type) is Some {
            " -> ".spec_bytes() + ref_at(hash, t.return_type, fuel)
        } else {
            Seq::empty()
        }),
        TypeKind::Unspecified(t) => ns_text(t.namespace) + name_text(t.name, "<void>"),
        TypeKind::PointerToMember(t) => ref_at(hash, t.containing_ty, fuel) + "::* ".spec_bytes()
            + ref_at(hash, t.ty, fuel),
        TypeKind::Modifier(t) => match t.name {
            Some(name) => name@,
            None => modifier_text(t.kind) + ref_at(hash, t.ty, fuel),
        },
    }
}

/// The text by which the type at `offset` is referred to: `void` where
/// there is no offset, and a placeholder where there is no type at the
/// offset or the references go in a circle.
pub open spec fn ref_at(hash: &FileHash, offset: Option<TypeOffset>, fuel: usize) -> Seq<u8>
    decreases fuel, 0int, 0int,
{
    match offset {
        None => "void".spec_bytes(),
        Some(o) => match hash.ty(offset) {
            Some(ty) => if fuel > 0 {
                type_ref(hash, ty, (fuel - 1) as usize)
            } else {
                invalid_type_text(o.0)
            },
            None => invalid_type_text(o.0),
        },
    }
}

/// The text of a parameter: its name, where it has one, and its type.
pub open spec fn param_text(hash: &FileHash, p: Parameter, fuel: usize) -> Seq<u8>
    decreases fuel, 1int, 0int,
{
    (match p.name {
        Some(name) => name@ + ": ".spec_bytes(),
        None => Seq::empty(),
    }) + (if hash.ty(p.ty) is Some {
        ref_at(hash, p.ty, fuel)
    } else {
        "<anon>".spec_bytes()
    })
}

/// The text of the first `n` parameters of a list, with commas between
/// them.
pub open spec fn params_text(hash: &FileHash, params: Seq<Parameter>, n: int, fuel: usize) -> Seq<u8>
    decreases fuel, 2int, n,
{
    if n <= 0 {
        Seq::empty()
    } else {
        params_text(hash, params, n - 1, fuel) + (if n > 1 {
            ", ".spec_bytes()
        } else {
            Seq::empty()
        }) + param_text(hash, params[n - 1], fuel)
    }
}

/// The bytes of a name, where there is a name.
pub fn name_slice(name: &Option<Vec<u8>>) -> (bytes: Option<&[u8]>)
    ensures
        match bytes {
            Some(bytes) => name_bytes(*name) == Some(bytes@),
            None => name_bytes(*name) is None,
        },
{
    match name {
        Some(name) => Some(name.as_slice()),
        None => None,
    }
}

/// Whether an entry of this name in this namespace is to be printed.
pub open spec fn entry_shown(flags: &Flags, namespace: Option<Rc<Namespace>>, name: Option<Vec<u8>>) -> bool {
    flags.entry_matches(name_bytes(name)) && flags.namespace_matches(namespace)
}

/// Whether an entry of this name in this namespace is to be printed.
pub fn filter_entry(flags: &Flags, namespace: &Option<Rc<Namespace>>, name: &Option<Vec<u8>>) -> (shown:
    bool)
    ensures
        shown == entry_shown(flags, *namespace, *name),
{
    flags.filter_name(name_slice(name)) && flags.filter_namespace(namespace)
}

impl Type {
    /// Whether the type has no name of its own.
    pub open spec fn anon(&self) -> bool {
        match self.kind {
            TypeKind::Struct(t) => t.anon(),
            TypeKind::Union(t) => t.anon(),
            _ => false,
        }
    }

    /// Whether the type is to be printed.
    pub open spec fn shown(&self, flags: &Flags) -> bool {
        match self.kind {
            TypeKind::Def(t) => entry_shown(flags, t.namespace, t.name),
            TypeKind::Struct(t) => entry_shown(flags, t.namespace, t.name),
            TypeKind::Union(t) => entry_shown(flags, t.namespace, t.name),
            TypeKind::Enumeration(t) => entry_shown(flags, t.namespace, t.name),
            TypeKind::Unspecified(t) => entry_shown(flags, t.namespace, t.name),
            _ => flags.name is None,
        }
    }

    /// The type at `offset`, where there is one.
    pub fn from_offset<'a>(hash: &FileHash<'a>, offset: TypeOffset) -> (ty: Option<&'a Type>)
        ensures
            ty == hash.ty(Some(offset)),
    {
        hash.type_from_offset(offset)
    }

    /// The type at `offset`, where there is an offset and a type at it.
    pub fn from_option<'a>(hash: &FileHash<'a>, offset: Option<TypeOffset>) -> (ty: Option<&'a Type>)
        ensures
            ty == hash.ty(offset),
    {
        match offset {
            Some(offset) => hash.type_from_offset(offset),
            None => None,
        }
    }

    /// The size of the type in bytes.
    pub fn byte_size(&self, hash: &FileHash) -> (size: Option<u64>)
        ensures
            size == type_size(hash, self, hash.depth()),
    {
        self.size_with(hash, hash.fuel())
    }

    fn size_with(&self, hash: &FileHash, fuel: usize) -> (size: Option<u64>)
        ensures
            size == type_size(hash, self, fuel),
        decreases fuel, 1int,
    {
        match &self.kind {
            TypeKind::Base(val) => val.byte_size,
            TypeKind::Def(val) => Type::size_from_offset(hash, val.ty, fuel),
            TypeKind::Struct(val) => val.byte_size,
            TypeKind::Union(val) => val.byte_size,
            TypeKind::Enumeration(val) => {
                if val.byte_size.is_some() {
                    val.byte_size
                } else {
                    Type::size_from_offset(hash, val.ty, fuel)
                }
            },
            TypeKind::Array(val) => {
                if val.byte_size.is_some() {
                    val.byte_size
                } else {
                    match (Type::size_from_offset(hash, val.ty, fuel), val.count) {
                        (Some(size), Some(count)) => size.checked_mul(count),
                        _ => None,
                    }
                }
            },
            TypeKind::Subroutine(val) => val.byte_size,
            TypeKind::Unspecified(..) => None,
            TypeKind::PointerToMember(val) => {
                if val.byte_size.is_some() {
                    val.byte_size
                } else {
                    match Type::from_option(hash, val.ty) {
                        Some(ty) => {
                            if ty.subroutine_with(hash, fuel) {
                                match val.address_size {
                                    Some(size) => size.checked_mul(2),
                                    None => None,
                                }
                            } else {
                                val.address_size
                            }
                        },
                        None => None,
                    }
                }
            },
            TypeKind::Modifier(val) => {
                if val.byte_size.is_some() {
                    val.byte_size
                } else {
                    match val.kind {
                        TypeModifierKind::Pointer
                        | TypeModifierKind::Reference
                        | TypeModifierKind::RvalueReference => val.address_size,
                        _ => Type::size_from_offset(hash, val.ty, fuel),
                    }
                }
            },
        }
    }

    /// The size in bytes of the type at `offset`.
    pub fn size_from_offset(hash: &FileHash, offset: Option<TypeOffset>, fuel: usize) -> (size: Option<
        u64,
    >)
        ensures
            size == size_at(hash, offset, fuel),
        decreases fuel, 0int,
    {
        if fuel == 0 {
            return None;
        }
        match Type::from_option(hash, offset) {
            Some(ty) => ty.size_with(hash, fuel - 1),
            None => None,
        }
    }

    /// Whether the type is the type of a function, or another name for one.
    pub fn is_subroutine(&self, hash: &FileHash) -> (found: bool)
        ensures
            found == is_subroutine_type(hash, self, hash.depth()),
    {
        self.subroutine_with(hash, hash.fuel())
    }

    fn subroutine_with(&self, hash: &FileHash, fuel: usize) -> (found: bool)
        ensures
            found == is_subroutine_type(hash, self, fuel),
        decreases fuel,
    {
        match &self.kind {
            TypeKind::Subroutine(..) => true,
            TypeKind::Def(val) => {
                if fuel == 0 {
                    return false;
                }
                match Type::from_option(hash, val.ty) {
                    Some(ty) => ty.subroutine_with(hash, fuel - 1),
                    None => false,
                }
            },
            TypeKind::Modifier(val) => {
                if fuel == 0 {
                    return false;
                }
                match Type::from_option(hash, val.ty) {
                    Some(ty) => ty.subroutine_with(hash, fuel - 1),
                    None => false,
                }
            },
            _ => false,
        }
    }

    /// The members of the type that are looked at: those of a struct or a
    /// union.
    pub fn visit_members(&self) -> (members: Option<&Vec<Member>>)
        ensures
            members == match self.kind {
                TypeKind::Struct(t) => Some(&t.members),
                TypeKind::Union(t) => Some(&t.members),
                _ => None,
            },
    {
        match &self.kind {
            TypeKind::Struct(val) => Some(val.visit_members()),
            TypeKind::Union(val) => Some(val.visit_members()),
            _ => None,
        }
    }

    /// Whether the type is to be printed.
    pub fn filter(&self, flags: &Flags) -> (shown: bool)
        ensures
            shown == self.shown(flags),
    {
        match &self.kind {
            TypeKind::Def(val) => val.filter(flags),
            TypeKind::Struct(val) => val.filter(flags),
            TypeKind::Union(val) => val.filter(flags),
            TypeKind::Enumeration(val) => val.filter(flags),
            TypeKind::Unspecified(val) => val.filter(flags),
            TypeKind::Base(..)
            | TypeKind::Array(..)
            | TypeKind::Subroutine(..)
            | TypeKind::PointerToMember(..)
            | TypeKind::Modifier(..) => flags.name.is_none(),
        }
    }

    /// Whether the type has no name of its own.
    pub fn is_anon(&self) -> (anon: bool)
        ensures
            anon == self.anon(),
    {
        match &self.kind {
            TypeKind::Struct(val) => val.is_anon(),
            TypeKind::Union(val) => val.is_anon(),
            _ => false,
        }
    }

    /// Writes the text by which the type is referred to.
    pub fn print_ref(&self, w: &mut Vec<u8>, hash: &FileHash)
        ensures
            final(w)@ == old(w)@ + type_ref(hash, self, hash.depth()),
    {
        self.print_ref_with(w, hash, hash.fuel())
    }

    /// Writes the text by which the type is referred to, following at most
    /// `fuel` references from type to type.
    pub fn print_ref_with(&self, w: &mut Vec<u8>, hash: &FileHash, fuel: usize)
        ensures
            final(w)@ == old(w)@ + type_ref(hash, self, fuel),
        decreases fuel, 3int, 0int,
    {
        broadcast use group_bytes;

        match &self.kind {
            TypeKind::Base(val) => val.print_ref(w),
            TypeKind::Def(val) => val.print_ref(w),
            TypeKind::Struct(val) => val.print_ref(w),
            TypeKind::Union(val) => val.print_ref(w),
            TypeKind::Enumeration(val) => val.print_ref(w),
            TypeKind::Array(val) => {
                put_str(w, "[");
                Type::print_ref_from_offset(w, hash, val.ty, fuel);
                if let Some(count) = val.count(hash) {
                    put_str(w, "; ");
                    put_u64(w, count);
                }
                put_str(w, "]");
            },
            TypeKind::Subroutine(val) => {
                put_str(w, "(");
                let ghost start = w@;
                let mut i: usize = 0;
                while i < val.parameters.len()
                    invariant
                        i <= val.parameters@.len(),
                        w@ == start + params_text(hash, val.parameters@, i as int, fuel),
                    decreases val.parameters@.len() - i,
                {
                    if i > 0 {
                        put_str(w, ", ");
                    }
                    val.parameters[i].print_with(w, hash, fuel);
                    i += 1;
                }
                put_str(w, ")");
                if Type::from_option(hash, val.return_type).is_some() {
                    put_str(w, " -> ");
                    Type::print_ref_from_offset(w, hash, val.return_type, fuel);
                }
            },
            TypeKind::Unspecified(val) => val.print_ref(w),
            TypeKind::PointerToMember(val) => {
                Type::print_ref_from_offset(w, hash, val.containing_ty, fuel);
                put_str(w, "::* ");
                Type::print_ref_from_offset(w, hash, val.ty, fuel);
            },
            TypeKind::Modifier(val) => {
                if let Some(name) = &val.name {
                    put(w, name.as_slice());
                } else {
                    match val.kind {
                        TypeModifierKind::Pointer => put_str(w, "* "),
                        TypeModifierKind::Reference | TypeModifierKind::RvalueReference => put_str(
                            w,
                            "& ",
                        ),
                        TypeModifierKind::Const => put_str(w, "const "),
                        TypeModifierKind::Volatile => put_str(w, "volatile "),
                        TypeModifierKind::Restrict => put_str(w, "restrict "),
                        TypeModifierKind::Packed
                        | TypeModifierKind::Shared
                        | TypeModifierKind::Atomic
                        | TypeModifierKind::Other => {},
                    }
                    Type::print_ref_from_offset(w, hash, val.ty, fuel);
                }
            },
        }
    }

    /// Writes the text by which the type at `offset` is referred to:
    /// `void` where there is no offset, and a placeholder where there is no
    /// type at the offset.
    pub fn print_ref_from_offset(
        w: &mut Vec<u8>,
        hash: &FileHash,
        offset: Option<TypeOffset>,
        fuel: usize,
    )
        ensures
            final(w)@ == old(w)@ + ref_at(hash, offset, fuel),
        decreases fuel, 0int, 0int,
    {
        broadcast use group_bytes;

        match offset {
            Some(offset) => {
                match Type::from_offset(hash, offset) {
                    Some(ty) => {
                        if fuel > 0 {
                            ty.print_ref_with(w, hash, fuel - 1);
                            return ;
                        }
                    },
                    None => {},
                }
                put_str(w, "<invalid-type ");
                put_u64(w, offset.0 as u64);
                put_str(w, ">");
            },
            None => put_str(w, "void"),
        }
    }
}

impl BaseType {
    /// The size of the base type in bytes, where it is known.
    pub fn byte_size(&self) -> (size: Option<u64>)
        ensures
            size == self.byte_size,
    {
        self.byte_size
    }

    /// Writes the text by which the base type is referred to.
    pub fn print_ref(&self, w: &mut Vec<u8>)
        ensures
            final(w)@ == old(w)@ + name_text(self.name, "<anon-base-type>"),
    {
        print_name(w, &self.name, "<anon-base-type>");
    }
}

impl TypeDef {
    /// The type that this is another name for.
    pub fn ty<'a>(&self, hash: &FileHash<'a>) -> (ty: Option<&'a Type>)
        ensures
            ty == hash.ty(self.ty),
    {
        Type::from_option(hash, self.ty)
    }

    /// The size of the type definition in bytes, where it is known.
    pub fn byte_size(&self, hash: &FileHash) -> (size: Option<u64>)
        ensures
            size == size_at(hash, self.ty, hash.depth()),
    {
        Type::size_from_offset(hash, self.ty, hash.fuel())
    }

    /// Writes the text by which the type definition is referred to.
    pub fn print_ref(&self, w: &mut Vec<u8>)
        ensures
            final(w)@ == old(w)@ + (ns_text(self.namespace) + name_text(self.name, "<anon-typedef>")),
    {
        broadcast use group_bytes;

        print_namespace(w, &self.namespace);
        print_name(w, &self.name, "<anon-typedef>");
    }

    /// Whether the options ask for the type definition.
    pub fn filter(&self, flags: &Flags) -> (shown: bool)
        ensures
            shown == entry_shown(flags, self.namespace, self.name),
    {
        filter_entry(flags, &self.namespace, &self.name)
    }
}

impl StructType {
    /// Whether the struct has no name of its own: it has none, or it lies
    /// in a type that has none.
    pub open spec fn anon(&self) -> bool {
        self.name is None || match self.namespace {
            Some(namespace) => namespace.anon_type(),
            None => false,
        }
    }

    /// The size of the struct in bytes, where it is known.
    pub fn byte_size(&self) -> (size: Option<u64>)
        ensures
            size == self.byte_size,
    {
        self.byte_size
    }

    /// The members of the struct.
    pub fn visit_members(&self) -> (members: &Vec<Member>)
        ensures
            members == &self.members,
    {
        &self.members
    }

    /// Whether the options ask for the struct.
    pub fn filter(&self, flags: &Flags) -> (shown: bool)
        ensures
            shown == entry_shown(flags, self.namespace, self.name),
    {
        filter_entry(flags, &self.namespace, &self.name)
    }

    /// Writes the text by which the struct is referred to.
    pub fn print_ref(&self, w: &mut Vec<u8>)
        ensures
            final(w)@ == old(w)@ + ("struct ".spec_bytes() + ns_text(self.namespace) + name_text(
                self.name,
                "<anon>",
            )),
    {
        broadcast use group_bytes;

        put_str(w, "struct ");
        print_namespace(w, &self.namespace);
        print_name(w, &self.name, "<anon>");
    }

    /// Whether the struct has no name, or lies within a type that has none.
    pub fn is_anon(&self) -> (anon: bool)
        ensures
            anon == self.anon(),
    {
        self.name.is_none() || Namespace::is_anon_type(&self.namespace)
    }
}

impl UnionType {
    /// Whether the union has no name of its own: it has none, or it lies in
    /// a type that has none.
    pub open spec fn anon(&self) -> bool {
        self.name is None || match self.namespace {
            Some(namespace) => namespace.anon_type(),
            None => false,
        }
    }

    /// The size of the union in bytes, where it is known.
    pub fn byte_size(&self) -> (size: Option<u64>)
        ensures
            size == self.byte_size,
    {
        self.byte_size
    }

    /// The members of the union.
    pub fn visit_members(&self) -> (members: &Vec<Member>)
        ensures
            members == &self.members,
    {
        &self.members
    }

    /// Whether the options ask for the union.
    pub fn filter(&self, flags: &Flags) -> (shown: bool)
        ensures
            shown == entry_shown(flags, self.namespace, self.name),
    {
        filter_entry(flags, &self.namespace, &self.name)
    }

    /// Writes the text by which the union is referred to.
    pub fn print_ref(&self, w: &mut Vec<u8>)
        ensures
            final(w)@ == old(w)@ + ("union ".spec_bytes() + ns_text(self.namespace) + name_text(
                self.name,
                "<anon>",
            )),
    {
        broadcast use group_bytes;

        put_str(w, "union ");
        print_namespace(w, &self.namespace);
        print_name(w, &self.name, "<anon>");
    }

    /// Whether the union has no name, or lies within a type that has none.
    pub fn is_anon(&self) -> (anon: bool)
        ensures
            anon == self.anon(),
    {
        self.name.is_none() || Namespace::is_anon_type(&self.namespace)
    }
}

impl EnumerationType {
    /// The type that the values of the enumeration are of.
    pub fn ty<'a>(&self, hash: &FileHash<'a>) -> (ty: Option<&'a Type>)
        ensures
            ty == hash.ty(self.ty),
    {
        Type::from_option(hash, self.ty)
    }

    /// The size in bytes: the one that is given, or that of the type of the
    /// values.
    pub open spec fn size(&self, hash: &FileHash) -> Option<u64> {
        if self.byte_size is Some {
            self.byte_size
        } else {
            size_at(hash, self.ty, hash.depth())
        }
    }

    /// The size of the enumeration in bytes, where it is known.
    pub fn byte_size(&self, hash: &FileHash) -> (size: Option<u64>)
        ensures
            size == self.size(hash),
    {
        if self.byte_size.is_some() {
            self.byte_size
        } else {
            Type::size_from_offset(hash, self.ty, hash.fuel())
        }
    }

    /// Whether the options ask for the enumeration.
    pub fn filter(&self, flags: &Flags) -> (shown: bool)
        ensures
            shown == entry_shown(flags, self.namespace, self.name),
    {
        filter_entry(flags, &self.namespace, &self.name)
    }

    /// Writes the text by which the enumeration is referred to.
    pub fn print_ref(&self, w: &mut Vec<u8>)
        ensures
            final(w)@ == old(w)@ + ("enum ".spec_bytes() + ns_text(self.namespace) + name_text(
                self.name,
                "<anon>",
            )),
    {
        broadcast use group_bytes;

        put_str(w, "enum ");
        print_namespace(w, &self.namespace);
        print_name(w, &self.name, "<anon>");
    }
}

impl ArrayType {
    /// The type of the elements.
    pub fn ty<'a>(&self, hash: &FileHash<'a>) -> (ty: Option<&'a Type>)
        ensures
            ty == hash.ty(self.ty),
    {
        Type::from_option(hash, self.ty)
    }

    /// The number of elements: the one that is given, or the size of the
    /// array in units of the size of its elements.
    pub fn count(&self, hash: &FileHash) -> (count: Option<u64>)
        ensures
            count == array_count(hash, *self),
    {
        if self.count.is_some() {
            self.count
        } else {
            match (Type::size_from_offset(hash, self.ty, hash.fuel()), self.byte_size) {
                (Some(size), Some(byte_size)) => {
                    if size > 0 {
                        Some(byte_size / size)
                    } else {
                        None
                    }
                },
                _ => None,
            }
        }
    }
}

impl SubroutineType {
    /// The size of the subroutine type in bytes, where it is known.
    pub fn byte_size(&self) -> (size: Option<u64>)
        ensures
            size == self.byte_size,
    {
        self.byte_size
    }

    /// The type of what the function returns.
    pub fn return_type<'a>(&self, hash: &FileHash<'a>) -> (ty: Option<&'a Type>)
        ensures
            ty == hash.ty(self.return_type),
    {
        Type::from_option(hash, self.return_type)
    }
}

impl UnspecifiedType {
    /// Whether the options ask for the unspecified type.
    pub fn filter(&self, flags: &Flags) -> (shown: bool)
        ensures
            shown == entry_shown(flags, self.namespace, self.name),
    {
        filter_entry(flags, &self.namespace, &self.name)
    }

    /// Writes the text by which the unspecified type is referred to.
    pub fn print_ref(&self, w: &mut Vec<u8>)
        ensures
            final(w)@ == old(w)@ + (ns_text(self.namespace) + name_text(self.name, "<void>")),
    {
        broadcast use group_bytes;

        print_namespace(w, &self.namespace);
        print_name(w, &self.name, "<void>");
    }
}

impl PointerToMemberType {
    /// The type of the member that is pointed to.
    pub fn ty<'a>(&self, hash: &FileHash<'a>) -> (ty: Option<&'a Type>)
        ensures
            ty == hash.ty(self.ty),
    {
        Type::from_option(hash, self.ty)
    }

    /// The type that the member is a member of.
    pub fn containing_ty<'a>(&self, hash: &FileHash<'a>) -> (ty: Option<&'a Type>)
        ensures
            ty == hash.ty(self.containing_ty),
    {
        Type::from_option(hash, self.containing_ty)
    }
}

impl TypeModifier {
    /// The type that is modified.
    pub fn ty<'a>(&self, hash: &FileHash<'a>) -> (ty: Option<&'a Type>)
        ensures
            ty == hash.ty(self.ty),
    {
        Type::from_option(hash, self.ty)
    }
}

impl Parameter {
    /// The type of the parameter.
    pub fn ty<'a>(&self, hash: &FileHash<'a>) -> (ty: Option<&'a Type>)
        ensures
            ty == hash.ty(self.ty),
    {
        Type::from_option(hash, self.ty)
    }

    /// The size of the parameter in bytes.
    pub fn byte_size(&self, hash: &FileHash) -> (size: Option<u64>)
        ensures
            size == size_at(hash, self.ty, hash.depth()),
    {
        Type::size_from_offset(hash, self.ty, hash.fuel())
    }

    /// Writes the parameter: its name, where it has one, and its type.
    pub fn print(&self, w: &mut Vec<u8>, hash: &FileHash)
        ensures
            final(w)@ == old(w)@ + param_text(hash, *self, hash.depth()),
    {
        self.print_with(w, hash, hash.fuel())
    }

    /// Writes the parameter, following at most `fuel` references from type
    /// to type.
    pub fn print_with(&self, w: &mut Vec<u8>, hash: &FileHash, fuel: usize)
        ensures
            final(w)@ == old(w)@ + param_text(hash, *self, fuel),
        decreases fuel, 1int, 0int,
    {
        broadcast use group_bytes;

        if let Some(name) = &self.name {
            put(w, name.as_slice());
            put_str(w, ": ");
        }
        if Type::from_option(hash, self.ty).is_some() {
            Type::print_ref_from_offset(w, hash, self.ty, fuel);
        } else {
            put_str(w, "<anon>");
        }
    }
}

} // verus!
