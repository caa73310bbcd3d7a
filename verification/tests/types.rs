use ddbug::file::{File, FileHash, Section, Symbol, SymbolType};
use ddbug::function::Parameter;
use ddbug::list::Print;
use ddbug::print::{DiffState, PrintState};
use ddbug::types::{
    ArrayType, BaseType, EnumerationType, Member, PointerToMemberType, StructType,
    SubroutineType, Type, TypeDef, TypeKind, TypeModifier, TypeModifierKind, TypeOffset,
    UnionType, UnspecifiedType,
};
use ddbug::unit::Unit;
use ddbug::{print_file, Flags};
use std::cmp::Ordering;

fn named(s: &str) -> Option<Vec<u8>> {
    Some(s.as_bytes().to_vec())
}

fn string(w: &[u8]) -> String {
    String::from_utf8(w.to_vec()).unwrap()
}

fn ty(offset: usize, kind: TypeKind) -> Type {
    Type { offset: TypeOffset(offset), kind }
}

fn at(offset: usize) -> Option<TypeOffset> {
    Some(TypeOffset(offset))
}

fn modifier(kind: TypeModifierKind, to: Option<TypeOffset>) -> TypeKind {
    TypeKind::Modifier(TypeModifier { kind, ty: to, name: None, byte_size: None, address_size: Some(8) })
}

fn structure(n: Option<Vec<u8>>, size: Option<u64>, members: Vec<Member>) -> TypeKind {
    TypeKind::Struct(StructType {
        namespace: None,
        name: n,
        byte_size: size,
        declaration: false,
        members,
    })
}

fn field(n: &str, to: usize, bit_offset: u64, bit_size: Option<u64>) -> Member {
    Member { name: named(n), ty: at(to), bit_offset, bit_size }
}

fn sample() -> File {
    let types = vec![
        ty(1, TypeKind::Base(BaseType { name: named("i32"), byte_size: Some(4) })),
        ty(2, modifier(TypeModifierKind::Pointer, at(1))),
        ty(3, modifier(TypeModifierKind::Const, at(1))),
        ty(4, TypeKind::Array(ArrayType { ty: at(1), count: Some(4), byte_size: None })),
        ty(
            5,
            TypeKind::Subroutine(SubroutineType {
                parameters: vec![
                    Parameter { name: named("a"), ty: at(1) },
                    Parameter { name: None, ty: at(2) },
                ],
                return_type: at(1),
                byte_size: Some(8),
            }),
        ),
        ty(
            6,
            TypeKind::PointerToMember(PointerToMemberType {
                ty: at(1),
                containing_ty: at(7),
                byte_size: None,
                address_size: Some(8),
            }),
        ),
        ty(
            7,
            structure(
                named("S"),
                Some(16),
                vec![field("x", 1, 0, None), field("flag", 1, 35, Some(3)), field("y", 1, 64, None)],
            ),
        ),
        ty(8, TypeKind::Unspecified(UnspecifiedType { namespace: None, name: None })),
        ty(9, modifier(TypeModifierKind::Pointer, at(99))),
        ty(10, modifier(TypeModifierKind::Pointer, None)),
        ty(11, TypeKind::Def(TypeDef { namespace: None, name: named("T"), ty: at(1) })),
        ty(
            12,
            TypeKind::Enumeration(EnumerationType {
                namespace: None,
                name: named("E"),
                declaration: true,
                ty: None,
                byte_size: None,
                enumerators: vec![],
            }),
        ),
        ty(
            13,
            TypeKind::Union(UnionType {
                namespace: None,
                name: named("U"),
                byte_size: Some(4),
                declaration: false,
                members: vec![field("i", 1, 0, None), field("p", 3, 0, None)],
            }),
        ),
        ty(14, modifier(TypeModifierKind::Volatile, at(15))),
        ty(15, modifier(TypeModifierKind::Reference, at(14))),
        ty(16, TypeKind::Array(ArrayType { ty: at(1), count: None, byte_size: Some(12) })),
    ];
    File {
        path: b"a.out".to_vec(),
        sections: vec![],
        symbols: vec![],
        units: vec![Unit {
            dir: None,
            name: named("a.c"),
            language: None,
            address_size: Some(8),
            low_pc: None,
            high_pc: None,
            size: None,
            types,
            functions: vec![],
            variables: vec![],
        }],
    }
}

fn reference(hash: &FileHash, offset: usize) -> String {
    let mut w = Vec::new();
    Type::print_ref_from_offset(&mut w, hash, at(offset), hash.fuel());
    string(&w)
}

#[test]
fn a_type_is_referred_to_by_its_kind_and_name() {
    let file = sample();
    let hash = FileHash::new(&file);
    assert_eq!(reference(&hash, 1), "i32");
    assert_eq!(reference(&hash, 2), "* i32");
    assert_eq!(reference(&hash, 3), "const i32");
    assert_eq!(reference(&hash, 4), "[i32; 4]");
    assert_eq!(reference(&hash, 5), "(a: i32, * i32) -> i32");
    assert_eq!(reference(&hash, 6), "struct S::* i32");
    assert_eq!(reference(&hash, 7), "struct S");
    assert_eq!(reference(&hash, 8), "<void>");
    assert_eq!(reference(&hash, 11), "T");
    assert_eq!(reference(&hash, 12), "enum E");
    assert_eq!(reference(&hash, 13), "union U");
    assert_eq!(reference(&hash, 16), "[i32; 3]");
    let mut w = Vec::new();
    Type::print_ref_from_offset(&mut w, &hash, None, hash.fuel());
    assert_eq!(string(&w), "void");
}

#[test]
fn a_reference_to_no_type_is_a_placeholder() {
    let file = sample();
    let hash = FileHash::new(&file);
    assert_eq!(reference(&hash, 99), "<invalid-type 99>");
    assert_eq!(reference(&hash, 9), "* <invalid-type 99>");
    assert_eq!(reference(&hash, 10), "* void");
}

#[test]
fn references_in_a_circle_come_to_an_end() {
    let file = sample();
    let hash = FileHash::new(&file);
    let text = reference(&hash, 14);
    assert!(text.starts_with("volatile & volatile & "));
    assert!(text.ends_with(">"));
    assert!(text.contains("<invalid-type 1"));
    let ty = hash.type_from_offset(TypeOffset(14)).unwrap();
    assert_eq!(ty.byte_size(&hash), Some(8));
}

#[test]
fn the_size_of_a_type_follows_its_references() {
    let file = sample();
    let hash = FileHash::new(&file);
    let size = |offset: usize| hash.type_from_offset(TypeOffset(offset)).unwrap().byte_size(&hash);
    assert_eq!(size(1), Some(4));
    assert_eq!(size(2), Some(8));
    assert_eq!(size(3), Some(4));
    assert_eq!(size(4), Some(16));
    assert_eq!(size(5), Some(8));
    assert_eq!(size(6), Some(8));
    assert_eq!(size(7), Some(16));
    assert_eq!(size(8), None);
    assert_eq!(size(11), Some(4));
    assert_eq!(size(12), None);
    assert_eq!(size(13), Some(4));
    assert_eq!(size(16), Some(12));
    assert!(hash.type_from_offset(TypeOffset(99)).is_none());
    assert!(hash.type_from_offset(TypeOffset(5)).unwrap().is_subroutine(&hash));
    assert!(!hash.type_from_offset(TypeOffset(4)).unwrap().is_subroutine(&hash));
}

#[test]
fn types_are_printed_with_their_layout() {
    let file = sample();
    let mut w = Vec::new();
    print_file(&mut w, &file, &Flags::default()).unwrap();
    assert_eq!(
        string(&w),
        [
            "Unit: a.c\n",
            "struct S\n",
            "\tsize: 16\n",
            "\tmembers:\n",
            "\t\t0[4]\tx: i32\n",
            "\t\t4[0.3]\t<padding>\n",
            "\t\t4.3[0.3]\tflag: i32\n",
            "\t\t4.6[3.2]\t<padding>\n",
            "\t\t8[4]\ty: i32\n",
            "\t\t12[4]\t<padding>\n",
            "\n",
            "type T = i32\n",
            "\tsize: 4\n",
            "\n",
            "enum E\n",
            "\tdeclaration: yes\n",
            "\n",
            "union U\n",
            "\tsize: 4\n",
            "\tmembers:\n",
            "\t\t0[4]\ti: i32\n",
            "\t\t0[4]\tp: const i32\n",
            "\n",
        ]
        .concat()
    );
}

#[test]
fn only_named_kinds_of_types_are_printed_on_their_own() {
    let file = sample();
    let hash = FileHash::new(&file);
    let flags = Flags::default();
    let base = hash.type_from_offset(TypeOffset(1)).unwrap();
    let record = hash.type_from_offset(TypeOffset(7)).unwrap();
    let union = hash.type_from_offset(TypeOffset(13)).unwrap();

    let mut state = PrintState::new(&file, &hash, &flags);
    let mut w = Vec::new();
    let e = base.print(&mut w, &mut state).unwrap_err();
    assert_eq!(e.message(), "can't print type");
    let e = Type::print_members(&mut w, &mut state, Some(base), hash.fuel()).unwrap_err();
    assert_eq!(e.message(), "can't print members");
    let e = Type::print_members_entries(&mut w, &mut state, Some(base), hash.fuel()).unwrap_err();
    assert_eq!(e.message(), "can't print members entries");
    assert!(Type::print_members(&mut w, &mut state, None, hash.fuel()).is_ok());
    assert_eq!(string(&w), "");

    let mut state = DiffState::new(&file, &hash, &file, &hash, &flags);
    let e = Type::diff(&mut w, &mut state, record, union).unwrap_err();
    assert_eq!(e.message(), "can't diff types of different kinds");
    assert!(Type::diff(&mut w, &mut state, record, record).is_ok());
}

#[test]
fn types_are_identified_by_kind_and_name() {
    let file = sample();
    let hash = FileHash::new(&file);
    let get = |offset: usize| hash.type_from_offset(TypeOffset(offset)).unwrap();
    let order = |a: usize, b: usize| Type::cmp_id(&hash, get(a), &hash, get(b));
    for offset in [1, 2, 3, 4, 5, 6, 7, 8, 11, 12, 13] {
        assert_eq!(order(offset, offset), Ordering::Equal);
    }
    // Kinds come in the order base, definition, struct, union, enumeration,
    // array, subroutine, unspecified, pointer to member, modifier.
    assert_eq!(order(1, 11), Ordering::Less);
    assert_eq!(order(11, 7), Ordering::Less);
    assert_eq!(order(7, 13), Ordering::Less);
    assert_eq!(order(13, 12), Ordering::Less);
    assert_eq!(order(12, 4), Ordering::Less);
    assert_eq!(order(4, 5), Ordering::Less);
    assert_eq!(order(5, 8), Ordering::Less);
    assert_eq!(order(8, 6), Ordering::Less);
    assert_eq!(order(6, 2), Ordering::Less);
    assert_eq!(order(2, 6), Ordering::Greater);
    // Two modifiers of the same type: by the kind of modifier.
    assert_eq!(order(2, 3), Ordering::Less);
    // Two arrays of the same type: by their length.
    assert_eq!(order(16, 4), Ordering::Less);
    assert_eq!(Type::cmp_size(&hash, get(1), &hash, get(7)), Ordering::Less);
    assert_eq!(Type::cmp_size(&hash, get(8), &hash, get(1)), Ordering::Less);
}

#[test]
fn sections_and_symbols_are_printed_with_their_addresses() {
    let file = sample();
    let hash = FileHash::new(&file);
    let flags = Flags::default();
    let text = Section {
        name: named(".text"),
        segment: named("__TEXT"),
        address: Some(0x1000),
        size: 0x20,
    };
    let bss = Section { name: named(".bss"), segment: None, address: None, size: 8 };
    let main = Symbol { name: named("main"), ty: SymbolType::Function, address: 0x1000, size: 4 };
    let data = Symbol { name: None, ty: SymbolType::Variable, address: 0x2000, size: 0 };
    assert_eq!(string(&text.line()), "__TEXT,.text");
    assert_eq!(string(&bss.line()), ".bss");
    assert_eq!(text.address().map(|r| (r.begin, r.end)), Some((0x1000, 0x1020)));
    assert_eq!(bss.address().map(|r| (r.begin, r.end)), None);
    assert_eq!(string(&main.line()), "fn main");
    assert_eq!(string(&data.line()), "var <anon>");
    assert_eq!(main.address().map(|r| (r.begin, r.end)), Some((0x1000, 0x1004)));
    assert_eq!(data.address().map(|r| (r.begin, r.end)), Some((0x2000, 0x2000)));

    let mut state = PrintState::new(&file, &hash, &flags);
    let mut w = Vec::new();
    text.print(&mut w, &mut state, &()).unwrap();
    main.print(&mut w, &mut state, &()).unwrap();
    assert_eq!(
        string(&w),
        [
            "__TEXT,.text\n",
            "\taddress: 0x1000-0x101f\n",
            "\tsize: 32\n",
            "fn main\n",
            "\taddress: 0x1000-0x1003\n",
            "\tsize: 4\n",
        ]
        .concat()
    );
}
