use ddbug::file::{File, FileHash};
use ddbug::function::{Call, Function, FunctionOffset, InlinedFunction, Parameter};
use ddbug::print::{DiffState, PrintState};
use ddbug::types::{
    BaseType, EnumerationType, Enumerator, Member, StructType, Type, TypeKind, TypeOffset,
};
use ddbug::unit::Unit;
use ddbug::variable::{LocalVariable, Source, Variable, VariableOffset};
use ddbug::{diff_file, print_file, Flags, Sort};

fn name(s: &str) -> Option<Vec<u8>> {
    Some(s.as_bytes().to_vec())
}

fn text(w: &[u8]) -> String {
    String::from_utf8(w.to_vec()).unwrap()
}

fn base(offset: usize, n: &str, size: u64) -> Type {
    Type {
        offset: TypeOffset(offset),
        kind: TypeKind::Base(BaseType { name: name(n), byte_size: Some(size) }),
    }
}

fn member(n: &str, ty: usize, bit_offset: u64) -> Member {
    Member { name: name(n), ty: Some(TypeOffset(ty)), bit_offset, bit_size: None }
}

fn point(offset: usize, size: Option<u64>, members: Vec<Member>) -> Type {
    Type {
        offset: TypeOffset(offset),
        kind: TypeKind::Struct(StructType {
            namespace: None,
            name: name("Point"),
            byte_size: size,
            declaration: false,
            members,
        }),
    }
}

fn unit(n: &str, types: Vec<Type>) -> Unit {
    Unit {
        dir: None,
        name: name(n),
        language: None,
        address_size: Some(8),
        low_pc: None,
        high_pc: None,
        size: None,
        types,
        functions: vec![],
        variables: vec![],
    }
}

fn file(units: Vec<Unit>) -> File {
    File { path: b"a.out".to_vec(), sections: vec![], symbols: vec![], units }
}

fn source() -> Source {
    Source { directory: None, file: None, line: 0, column: 0 }
}

fn function(offset: usize, n: &str, parameters: Vec<Parameter>) -> Function {
    Function {
        offset: FunctionOffset(offset),
        namespace: None,
        name: name(n),
        linkage_name: None,
        symbol_name: None,
        low_pc: None,
        high_pc: None,
        size: None,
        inline: false,
        declaration: false,
        parameters,
        return_type: None,
        inlined_functions: vec![],
        variables: vec![],
        calls: vec![],
    }
}

fn two_points() -> Vec<Type> {
    vec![base(1, "i32", 4), point(2, None, vec![member("x", 1, 0), member("y", 1, 32)])]
}

#[test]
fn a_struct_is_printed_with_its_members() {
    let f = file(vec![unit("a.c", two_points())]);
    let mut w = Vec::new();
    print_file(&mut w, &f, &Flags::default()).unwrap();
    assert_eq!(
        text(&w),
        "Unit: a.c\nstruct Point\n\tmembers:\n\t\t0[4]\tx: i32\n\t\t4[4]\ty: i32\n\n"
    );
}

#[test]
fn identical_structs_are_not_printed_by_diff() {
    let a = file(vec![unit("a.c", two_points())]);
    let b = file(vec![unit("a.c", two_points())]);
    let mut w = Vec::new();
    diff_file(&mut w, &a, &b, &Flags::default()).unwrap();
    assert_eq!(text(&w), "");
}

#[test]
fn an_added_member_is_the_only_added_line() {
    let a = file(vec![unit("a.c", two_points())]);
    let b = file(vec![unit(
        "a.c",
        vec![
            base(1, "i32", 4),
            point(2, None, vec![member("x", 1, 0), member("y", 1, 32), member("z", 1, 64)]),
        ],
    )]);
    let mut w = Vec::new();
    diff_file(&mut w, &a, &b, &Flags::default()).unwrap();
    assert_eq!(
        text(&w),
        "  Unit: a.c\n  struct Point\n  \tmembers:\n  \t\t0[4]\tx: i32\n  \t\t4[4]\ty: i32\n+ \t\t8[4]\tz: i32\n\n"
    );
}

#[test]
fn a_changed_size_is_a_removed_and_an_added_line() {
    let a = file(vec![unit(
        "a.c",
        vec![base(1, "i32", 4), point(2, Some(8), vec![member("x", 1, 0), member("y", 1, 32)])],
    )]);
    let b = file(vec![unit(
        "a.c",
        vec![base(1, "i32", 4), point(2, Some(16), vec![member("x", 1, 0), member("y", 1, 64)])],
    )]);
    let mut w = Vec::new();
    diff_file(&mut w, &a, &b, &Flags::default()).unwrap();
    assert_eq!(
        text(&w),
        [
            "  Unit: a.c\n",
            "  struct Point\n",
            "- \tsize: 8\n",
            "+ \tsize: 16\n",
            "  \tmembers:\n",
            "  \t\t0[4]\tx: i32\n",
            "+ \t\t4[4]\t<padding>\n",
            "- \t\t4[4]\ty: i32\n",
            "+ \t\t8[4]\ty: i32\n",
            "+ \t\t12[4]\t<padding>\n",
            "\n"
        ].concat()
    );
}

#[test]
fn a_type_of_the_first_file_alone_is_printed_as_removed() {
    let a = file(vec![unit("a.c", two_points())]);
    let b = file(vec![unit("a.c", vec![base(1, "i32", 4)])]);
    let mut w = Vec::new();
    diff_file(&mut w, &a, &b, &Flags::default()).unwrap();
    let mut printed = Vec::new();
    print_file(&mut printed, &a, &Flags::default()).unwrap();
    assert_eq!(
        text(&w),
        "  Unit: a.c\n- struct Point\n- \tmembers:\n- \t\t0[4]\tx: i32\n- \t\t4[4]\ty: i32\n\n"
    );
    // Each removed line is the line that print gives, behind the mark.
    let plain: Vec<String> =
        text(&printed).lines().skip(1).filter(|l| !l.is_empty()).map(|l| l.to_string()).collect();
    let removed: Vec<String> = text(&w)
        .lines()
        .filter(|l| l.starts_with("- "))
        .map(|l| l[2..].to_string())
        .collect();
    assert_eq!(plain, removed);
}

#[test]
fn deleted_and_added_entries_can_be_left_out() {
    let a = file(vec![unit("a.c", two_points())]);
    let b = file(vec![unit("a.c", vec![base(1, "i32", 4)])]);
    let mut flags = Flags::default();
    flags.ignore_deleted = true;
    let mut w = Vec::new();
    diff_file(&mut w, &a, &b, &flags).unwrap();
    assert_eq!(text(&w), "");
    let mut w = Vec::new();
    diff_file(&mut w, &b, &a, &flags).unwrap();
    assert_eq!(
        text(&w),
        "  Unit: a.c\n+ struct Point\n+ \tmembers:\n+ \t\t0[4]\tx: i32\n+ \t\t4[4]\ty: i32\n\n"
    );
    flags.ignore_added = true;
    let mut w = Vec::new();
    diff_file(&mut w, &b, &a, &flags).unwrap();
    assert_eq!(text(&w), "");
}

#[test]
fn a_unit_of_one_file_alone_is_printed_as_a_whole() {
    let a = file(vec![unit("a.c", two_points()), unit("b.c", vec![])]);
    let b = file(vec![unit("b.c", vec![])]);
    let mut w = Vec::new();
    diff_file(&mut w, &a, &b, &Flags::default()).unwrap();
    assert_eq!(
        text(&w),
        "- Unit: a.c\n- struct Point\n- \tmembers:\n- \t\t0[4]\tx: i32\n- \t\t4[4]\ty: i32\n\n"
    );
}

#[test]
fn an_inserted_parameter_is_one_added_line() {
    let types = || vec![base(1, "i32", 4)];
    let p = |n: &str| Parameter { name: name(n), ty: Some(TypeOffset(1)) };
    let mut ua = unit("a.c", types());
    ua.functions = vec![function(10, "f", vec![p("a"), p("b")])];
    let mut ub = unit("a.c", types());
    ub.functions = vec![function(10, "f", vec![p("a"), p("c"), p("b")])];
    let mut w = Vec::new();
    diff_file(&mut w, &file(vec![ua]), &file(vec![ub]), &Flags::default()).unwrap();
    assert_eq!(
        text(&w),
        [
            "  Unit: a.c\n",
            "  fn f\n",
            "  \tparameters:\n",
            "  \t\t[4]\ta: i32\n",
            "+ \t\t[4]\tc: i32\n",
            "  \t\t[4]\tb: i32\n",
            "\n"
        ].concat()
    );
}

#[test]
fn unrelated_parameters_are_removed_and_added() {
    let types = || vec![base(1, "i32", 4), base(2, "f64", 8)];
    let mut ua = unit("a.c", types());
    ua.functions =
        vec![function(10, "f", vec![Parameter { name: name("a"), ty: Some(TypeOffset(1)) }])];
    let mut ub = unit("a.c", types());
    ub.functions =
        vec![function(10, "f", vec![Parameter { name: name("x"), ty: Some(TypeOffset(2)) }])];
    let mut w = Vec::new();
    diff_file(&mut w, &file(vec![ua]), &file(vec![ub]), &Flags::default()).unwrap();
    let out = text(&w);
    assert!(out.contains("- \t\t[4]\ta: i32\n"));
    assert!(out.contains("+ \t\t[8]\tx: f64\n"));
    assert!(!out.contains("  \t\t["));
}

#[test]
fn a_function_is_printed_with_what_the_options_ask_for() {
    let mut f = function(10, "main", vec![Parameter { name: name("argc"), ty: Some(TypeOffset(1)) }]);
    f.linkage_name = name("_main");
    f.low_pc = Some(0x1000);
    f.high_pc = Some(0x1010);
    f.size = Some(16);
    f.inline = true;
    f.return_type = Some(TypeOffset(1));
    f.variables = vec![LocalVariable {
        offset: VariableOffset(20),
        name: name("i"),
        ty: Some(TypeOffset(1)),
        source: source(),
        address: None,
        size: None,
    }];
    f.calls = vec![Call { from: 0x1004, to: 0x2000 }];
    f.inlined_functions = vec![InlinedFunction {
        abstract_origin: Some(FunctionOffset(11)),
        size: Some(3),
        inlined_functions: vec![InlinedFunction {
            abstract_origin: None,
            size: None,
            inlined_functions: vec![],
            variables: vec![],
        }],
        variables: vec![],
    }];
    let mut callee = function(11, "helper", vec![]);
    callee.low_pc = Some(0x2000);
    let mut u = unit("a.c", vec![base(1, "i32", 4)]);
    u.functions = vec![f, callee];
    let file = file(vec![u]);
    let mut flags = Flags::default();
    flags.unit = Some("a.c");
    flags.name = Some("main");
    let mut w = Vec::new();
    print_file(&mut w, &file, &flags).unwrap();
    assert_eq!(
        text(&w),
        [
            "fn main\n",
            "\tlinkage name: _main\n",
            "\taddress: 0x1000-0x100f\n",
            "\tsize: 16\n",
            "\tinline: yes\n",
            "\treturn type:\n",
            "\t\t[4]\ti32\n",
            "\tparameters:\n",
            "\t\t[4]\targc: i32\n",
            "\n"
        ].concat()
    );
    flags.calls = true;
    flags.function_variables = true;
    flags.inline_depth = 1;
    let mut w = Vec::new();
    print_file(&mut w, &file, &flags).unwrap();
    assert_eq!(
        text(&w),
        [
            "fn main\n",
            "\tlinkage name: _main\n",
            "\taddress: 0x1000-0x100f\n",
            "\tsize: 16\n",
            "\tinline: yes\n",
            "\treturn type:\n",
            "\t\t[4]\ti32\n",
            "\tparameters:\n",
            "\t\t[4]\targc: i32\n",
            "\tvariables:\n",
            "\t\t[4]\ti: i32\n",
            "\tinlined functions:\n",
            "\t\t[3]\thelper\n",
            "\tcalls:\n",
            "\t\t0x1004 -> 0x2000 helper\n",
            "\n"
        ].concat()
    );
    flags.inline_depth = 2;
    let mut w = Vec::new();
    print_file(&mut w, &file, &flags).unwrap();
    assert!(text(&w).contains("\t\t[3]\thelper\n\t\t\t[??]\t<anon>\n"));
}

#[test]
fn ignored_differences_do_not_make_a_function_differ() {
    let mut fa = function(10, "f", vec![]);
    fa.low_pc = Some(0x1000);
    fa.size = Some(10);
    let mut fb = function(10, "f", vec![]);
    fb.low_pc = Some(0x2000);
    fb.size = Some(10);
    let mut ua = unit("a.c", vec![]);
    ua.functions = vec![fa];
    let mut ub = unit("a.c", vec![]);
    ub.functions = vec![fb];
    let (a, b) = (file(vec![ua]), file(vec![ub]));
    let mut w = Vec::new();
    diff_file(&mut w, &a, &b, &Flags::default()).unwrap();
    assert_eq!(
        text(&w),
        "  Unit: a.c\n  fn f\n- \taddress: 0x1000\n+ \taddress: 0x2000\n  \tsize: 10\n\n"
    );
    let mut flags = Flags::default();
    flags.ignore_function_address = true;
    let mut w = Vec::new();
    diff_file(&mut w, &a, &b, &flags).unwrap();
    assert_eq!(text(&w), "");
}

#[test]
fn variables_are_printed_and_compared() {
    let var = |address: u64| Variable {
        id: 0,
        offset: VariableOffset(30),
        namespace: None,
        name: name("counter"),
        linkage_name: None,
        symbol_name: None,
        ty: Some(TypeOffset(1)),
        source: source(),
        address: Some(address),
        size: None,
        declaration: false,
    };
    let mut ua = unit("a.c", vec![base(1, "i32", 4)]);
    ua.variables = vec![var(0x4000)];
    let mut ub = unit("a.c", vec![base(1, "i32", 4)]);
    ub.variables = vec![var(0x5000)];
    let (a, b) = (file(vec![ua]), file(vec![ub]));
    let mut w = Vec::new();
    print_file(&mut w, &a, &Flags::default()).unwrap();
    assert_eq!(text(&w), "Unit: a.c\nvar counter: i32\n\taddress: 0x4000\n\tsize: 4\n\n");
    let mut w = Vec::new();
    diff_file(&mut w, &a, &b, &Flags::default()).unwrap();
    assert_eq!(
        text(&w),
        "  Unit: a.c\n  var counter: i32\n- \taddress: 0x4000\n+ \taddress: 0x5000\n  \tsize: 4\n\n"
    );
    let mut flags = Flags::default();
    flags.ignore_variable_address = true;
    let mut w = Vec::new();
    diff_file(&mut w, &a, &b, &flags).unwrap();
    assert_eq!(text(&w), "");
}

#[test]
fn enumerators_are_aligned_by_name_before_value() {
    let e = |n: &str, v: i64| Enumerator { name: name(n), value: Some(v) };
    let en = |list: Vec<Enumerator>| Type {
        offset: TypeOffset(2),
        kind: TypeKind::Enumeration(EnumerationType {
            namespace: None,
            name: name("Color"),
            declaration: false,
            ty: None,
            byte_size: Some(4),
            enumerators: list,
        }),
    };
    let a = file(vec![unit("a.c", vec![en(vec![e("Red", 0), e("Blue", 1)])])]);
    let b = file(vec![unit("a.c", vec![en(vec![e("Red", 0), e("Green", 1), e("Blue", 2)])])]);
    let mut w = Vec::new();
    diff_file(&mut w, &a, &b, &Flags::default()).unwrap();
    assert_eq!(
        text(&w),
        [
            "  Unit: a.c\n",
            "  enum Color\n",
            "  \tsize: 4\n",
            "  \tenumerators:\n",
            "  \t\tRed(0)\n",
            "+ \t\tGreen(1)\n",
            "- \t\tBlue(1)\n",
            "+ \t\tBlue(2)\n",
            "\n"
        ].concat()
    );
}

#[test]
fn types_are_printed_in_the_order_that_is_asked_for() {
    let s = |offset: usize, n: &str, size: u64| Type {
        offset: TypeOffset(offset),
        kind: TypeKind::Struct(StructType {
            namespace: None,
            name: name(n),
            byte_size: Some(size),
            declaration: true,
            members: vec![],
        }),
    };
    let f = file(vec![unit("a.c", vec![s(1, "B", 8), s(2, "C", 2), s(3, "A", 4)])]);
    let order = |sort: Sort| {
        let mut flags = Flags::default();
        flags.sort = sort;
        let mut w = Vec::new();
        print_file(&mut w, &f, &flags).unwrap();
        text(&w)
            .lines()
            .filter(|l| l.starts_with("struct "))
            .map(|l| l[7..].to_string())
            .collect::<Vec<_>>()
    };
    assert_eq!(order(Sort::Unsorted), vec!["B", "C", "A"]);
    assert_eq!(order(Sort::Name), vec!["A", "B", "C"]);
    assert_eq!(order(Sort::Size), vec!["C", "A", "B"]);
}

#[test]
fn the_cursors_of_a_comparison_compare_lines() {
    let f = file(vec![]);
    let hash = FileHash::new(&f);
    let flags = Flags::default();
    let mut state = DiffState::new(&f, &hash, &f, &hash, &flags);
    let mut w = Vec::new();
    state.line(&mut w, b"same", b"same");
    assert!(!state.a.diff && !state.b.diff);
    state.line(&mut w, b"old", b"new");
    assert!(state.a.diff && state.b.diff);
    state.line(&mut w, b"", b"only new");
    let before = state.indent_begin();
    state.line_option_u64(&mut w, "size", Some(8), Some(12));
    state.line_option_u64(&mut w, "size", Some(8), Some(4));
    state.line_option_u64(&mut w, "size", Some(8), Some(8));
    state.line_option_u64(&mut w, "size", None, Some(8));
    state.indent_end(before);
    state.line(&mut w, b"", b"");
    assert_eq!(
        text(&w),
        [
            "  same\n",
            "- old\n",
            "+ new\n",
            "+ only new\n",
            "- \tsize: 8\n",
            "+ \tsize: 12 (+4)\n",
            "- \tsize: 8\n",
            "+ \tsize: 4 (-4)\n",
            "  \tsize: 8\n",
            "+ \tsize: 8 (+8)\n",
        ].concat()
    );
}

#[test]
fn a_scope_is_written_only_where_a_line_differs() {
    let f = file(vec![]);
    let hash = FileHash::new(&f);
    let flags = Flags::default();
    let mut state = DiffState::new(&f, &hash, &f, &hash, &flags);
    let mut w = Vec::new();

    let mut buf = Vec::new();
    let before = state.diff_begin();
    state.line(&mut buf, b"a", b"a");
    state.diff_end(&mut w, &buf, before);
    assert_eq!(text(&w), "");

    let mut buf = Vec::new();
    let before = state.diff_begin();
    state.line(&mut buf, b"a", b"a");
    state.line(&mut buf, b"b", b"c");
    state.diff_end(&mut w, &buf, before);
    assert_eq!(text(&w), "  a\n- b\n+ c\n");

    // A difference that is ignored does not count.
    let mut w = Vec::new();
    let mut buf = Vec::new();
    let before = state.diff_begin();
    let saved = state.ignore_begin();
    state.line(&mut buf, b"b", b"c");
    state.ignore_end(true, saved);
    state.diff_end(&mut w, &buf, before);
    assert_eq!(text(&w), "");
}

#[test]
fn the_cursor_of_a_file_prints_lines() {
    let f = file(vec![]);
    let hash = FileHash::new(&f);
    let flags = Flags::default();
    let mut state = PrintState::new(&f, &hash, &flags);
    let mut w = Vec::new();
    state.line(&mut w, b"top");
    let a = state.indent_begin();
    state.line_option(&mut w, b"");
    state.line_option(&mut w, b"inner");
    let b = state.indent_begin();
    state.line_option_u64(&mut w, "size", Some(42));
    state.line_option_u64(&mut w, "size", None);
    state.indent_end(b);
    state.indent_end(a);
    state.line(&mut w, b"");
    assert!(!state.diff);
    assert_eq!(text(&w), "top\n\tinner\n\t\tsize: 42\n\n");
}

#[test]
fn sorting_keeps_the_order_of_equal_items() {
    let s = |offset: usize, n: &str, size: u64| Type {
        offset: TypeOffset(offset),
        kind: TypeKind::Struct(StructType {
            namespace: None,
            name: name(n),
            byte_size: Some(size),
            declaration: true,
            members: vec![],
        }),
    };
    let f = file(vec![unit(
        "a.c",
        vec![s(1, "E", 2), s(2, "B", 1), s(3, "D", 2), s(4, "A", 0), s(5, "C", 1)],
    )]);
    let mut flags = Flags::default();
    flags.sort = Sort::Size;
    let mut w = Vec::new();
    print_file(&mut w, &f, &flags).unwrap();
    let names: Vec<String> = text(&w)
        .lines()
        .filter(|l| l.starts_with("struct "))
        .map(|l| l[7..].to_string())
        .collect();
    assert_eq!(names, vec!["A", "B", "C", "E", "D"]);
}
