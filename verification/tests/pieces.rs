use ddbug::file::{File, Symbol, SymbolType};
use ddbug::html::HtmlPrinter;
use ddbug::namespace::{cmp_ns_and_name, Namespace, NamespaceKind};
use ddbug::order::{cmp_bytes, cmp_name, cmp_opt_u64};
use ddbug::print::DiffPrefix;
use ddbug::symbols::sorted_by_address;
use ddbug::text::{bytes_eq, format_bit, put_change, put_hex, put_i64, put_u64, starts_with};
use ddbug::{filter_name, filter_option, Error, Flags, Sort};
use std::cmp::Ordering;
use std::rc::Rc;

fn name(s: &str) -> Option<Vec<u8>> {
    Some(s.as_bytes().to_vec())
}

fn text(w: &[u8]) -> String {
    String::from_utf8(w.to_vec()).unwrap()
}

#[test]
fn numbers_are_written_as_numerals() {
    let mut w = Vec::new();
    put_u64(&mut w, 0);
    w.push(b' ');
    put_u64(&mut w, 1234567890);
    w.push(b' ');
    put_u64(&mut w, u64::MAX);
    w.push(b' ');
    put_hex(&mut w, 0);
    w.push(b' ');
    put_hex(&mut w, 0xdead_beef);
    w.push(b' ');
    put_i64(&mut w, -42);
    w.push(b' ');
    put_i64(&mut w, i64::MIN);
    w.push(b' ');
    put_change(&mut w, 8, 3);
    w.push(b' ');
    put_change(&mut w, 3, 8);
    assert_eq!(
        text(&w),
        "0 1234567890 18446744073709551615 0 deadbeef -42 -9223372036854775808 -5 +5"
    );
}

#[test]
fn bits_are_written_as_bytes_and_bits() {
    assert_eq!(text(&format_bit(0)), "0");
    assert_eq!(text(&format_bit(64)), "8");
    assert_eq!(text(&format_bit(67)), "8.3");
    assert_eq!(text(&format_bit(7)), "0.7");
}

#[test]
fn bytes_are_compared_as_slices_are() {
    assert!(bytes_eq(b"abc", b"abc"));
    assert!(!bytes_eq(b"abc", b"abd"));
    assert!(!bytes_eq(b"abc", b"ab"));
    assert!(starts_with(b"RUST$ENCODED$ENUM$0$None", b"RUST$ENCODED$ENUM$"));
    assert!(!starts_with(b"RUST", b"RUST$ENCODED$ENUM$"));
    assert_eq!(cmp_bytes(b"abc", b"abd"), Ordering::Less);
    assert_eq!(cmp_bytes(b"abc", b"ab"), Ordering::Greater);
    assert_eq!(cmp_bytes(b"", b""), Ordering::Equal);
    assert_eq!(cmp_bytes(b"b", b"abc"), Ordering::Greater);
    assert_eq!(cmp_name(&None, &name("a")), Ordering::Less);
    assert_eq!(cmp_name(&name("a"), &None), Ordering::Greater);
    assert_eq!(cmp_name(&name("a"), &name("a")), Ordering::Equal);
    assert_eq!(cmp_opt_u64(None, Some(0)), Ordering::Less);
    assert_eq!(cmp_opt_u64(Some(3), Some(2)), Ordering::Greater);
}

#[test]
fn namespaces_are_ordered_by_their_names_from_the_outermost_on() {
    let ns = |parent: &Option<Rc<Namespace>>, n: &str| {
        Some(Namespace::new(parent, name(n), NamespaceKind::Namespace))
    };
    let std_ = ns(&None, "std");
    let std_fmt = ns(&std_, "fmt");
    let std_io = ns(&std_, "io");
    let core_fmt = ns(&ns(&None, "core"), "fmt");
    let cmp = |a: &Option<Rc<Namespace>>, b: &Option<Rc<Namespace>>| {
        Namespace::cmp(a.as_ref().unwrap(), b.as_ref().unwrap())
    };
    assert_eq!(cmp(&std_fmt, &std_fmt), Ordering::Equal);
    assert_eq!(cmp(&std_fmt, &std_io), Ordering::Less);
    assert_eq!(cmp(&std_io, &std_fmt), Ordering::Greater);
    // An outer namespace comes before the namespaces in it.
    assert_eq!(cmp(&std_, &std_fmt), Ordering::Less);
    assert_eq!(cmp(&std_fmt, &std_), Ordering::Greater);
    // The outermost names decide first.
    assert_eq!(cmp(&core_fmt, &std_fmt), Ordering::Less);
    assert_eq!(cmp(&std_, &core_fmt), Ordering::Greater);
    assert_eq!(Namespace::_cmp(std_fmt.as_ref().unwrap(), core_fmt.as_ref().unwrap()), Ordering::Greater);

    assert_eq!(cmp_ns_and_name(&None, &name("z"), &std_, &name("a")), Ordering::Less);
    assert_eq!(cmp_ns_and_name(&std_, &name("a"), &None, &name("z")), Ordering::Greater);
    assert_eq!(cmp_ns_and_name(&std_, &name("a"), &std_, &name("b")), Ordering::Less);
    assert_eq!(cmp_ns_and_name(&None, &name("a"), &None, &name("a")), Ordering::Equal);

    let deep = std_fmt.as_ref().unwrap();
    assert_eq!(deep.len(), 2);
    assert_eq!(deep.up(1).name, name("std"));
    assert_eq!(deep.up(5).name, name("std"));
    let mut w = Vec::new();
    deep.print(&mut w);
    assert_eq!(text(&w), "std::fmt::");
    assert!(deep.filter(&["std"]));
    assert!(deep.filter(&["std", "fmt"]));
    assert!(!deep.filter(&["std", "io"]));
    assert!(!deep.filter(&["std", "fmt", "x"]));
    assert_eq!(deep._filter(&["std", "fmt", "x"]), (true, 2));
    assert_eq!(deep._filter(&["core"]), (false, 0));
}

#[test]
fn a_type_without_a_name_makes_what_lies_in_it_anonymous() {
    let anon = Some(Namespace::new(&None, None, NamespaceKind::Type));
    let inner = Some(Namespace::new(&anon, name("inner"), NamespaceKind::Type));
    let named = Some(Namespace::new(&None, name("S"), NamespaceKind::Type));
    let space = Some(Namespace::new(&anon, name("n"), NamespaceKind::Namespace));
    assert!(Namespace::is_anon_type(&anon));
    assert!(Namespace::is_anon_type(&inner));
    assert!(!Namespace::is_anon_type(&named));
    assert!(!Namespace::is_anon_type(&space));
    assert!(!Namespace::is_anon_type(&None));
}

#[test]
fn flags_filter_by_name() {
    let mut flags = Flags::default();
    assert!(flags.filter_unit(Some(b"a.c")));
    assert!(flags.filter_name(None));
    flags.unit("a.c").name("main");
    assert_eq!(flags.unit, Some("a.c"));
    assert_eq!(flags.name, Some("main"));
    assert!(flags.filter_unit(Some(b"a.c")));
    assert!(!flags.filter_unit(Some(b"b.c")));
    assert!(!flags.filter_unit(None));
    assert!(flags.filter_name(Some(b"main")));
    assert!(!flags.filter_name(Some(b"mai")));
    assert!(filter_name(Some(b"x"), "x"));
    assert!(!filter_name(None, "x"));
    assert_eq!(filter_option(Some(3), |x| x > 2), Some(3));
    assert_eq!(filter_option(Some(1), |x| x > 2), None);
    assert_eq!(filter_option(None, |x: u8| x > 2), None);
    assert_eq!(Sort::Size.with_diff(true), Sort::Name);
    assert_eq!(Sort::Size.with_diff(false), Sort::Size);
    assert_eq!(Sort::default(), Sort::Unsorted);
    let ns = Some(Namespace::new(&None, name("std"), NamespaceKind::Namespace));
    flags.namespace = vec!["std"];
    assert!(flags.filter_namespace(&ns));
    assert!(!flags.filter_namespace(&None));
    flags.namespace = vec!["core"];
    assert!(!flags.filter_namespace(&ns));
}

#[test]
fn an_error_has_its_message() {
    let e = Error::new("can't print type");
    assert_eq!(e.description(), "can't print type");
    assert_eq!(e.message(), "can't print type");
    let e = Error::from(String::from("x"));
    assert_eq!(e.0, "x");
}

#[test]
fn html_text_is_escaped() {
    let flags = Flags::default();
    let mut p = HtmlPrinter::new(&flags);
    let mut w = Vec::new();
    p.line(&mut w, "", b"a<b");
    assert_eq!(text(&w), "<li><span>a&lt;b</span>");
    assert!(p.line_started);
    let mut w = Vec::new();
    p.prefix(DiffPrefix::Less);
    p.line(&mut w, "size", b"4 & 5");
    assert_eq!(
        text(&w),
        "</li>\n<li><span class=\"field\">size:</span> <span class=\"field\"><span class=\"del\">4 &amp; 5</span></span>"
    );
    let mut w = Vec::new();
    p.line(&mut w, "members", b"");
    assert_eq!(text(&w), "</li>\n<li>members:");
    let mut w = Vec::new();
    p.line_diff(&mut w, "", b"x>y", b"\"z\"");
    assert_eq!(
        text(&w),
        "</li>\n<li><span class=\"del\">x&gt;y</span><br>\n<span class=\"add\">&#34;z&#34;</span>"
    );
}

#[test]
fn an_html_page_is_one_list() {
    let flags = Flags::default();
    let mut p = HtmlPrinter::new(&flags);
    let mut w = Vec::new();
    p.begin(&mut w);
    assert!(text(&w).starts_with("<!DOCTYPE html>\n<html>\n"));
    assert!(text(&w).ends_with("<body>\n<ul class=\"collapsible\">"));
    let mut w = Vec::new();
    p.line(&mut w, "", b"top");
    let before = p.indent_begin(&mut w);
    p.line(&mut w, "", b"inner");
    p.indent_end(&mut w, before);
    p.end(&mut w);
    assert_eq!(
        text(&w),
        "<li><span>top</span><ul>\n<li><span>inner</span></li>\n</ul></li>\n</ul>\n</body>\n</html>"
    );
    assert!(!p.inline_begin());
}

#[test]
fn a_symbol_is_found_by_its_address() {
    let symbol = |n: &str, address: u64| Symbol {
        name: name(n),
        ty: SymbolType::Function,
        address,
        size: 4,
    };
    let symbols = vec![
        symbol("a", 0x10),
        symbol("b", 0x20),
        symbol("b_alias", 0x20),
        symbol("c", 0x30),
    ];
    assert!(sorted_by_address(&symbols));
    assert!(!sorted_by_address(&[symbol("x", 2), symbol("y", 1)]));
    assert!(sorted_by_address(&[]));

    // No symbol at the address: nothing is marked.
    let mut used = vec![false; 4];
    assert!(File::get_symbol(&symbols, &mut used, 0x18, Some(b"b")).is_none());
    assert_eq!(used, vec![false, false, false, false]);

    // A symbol of the name at the address: all symbols there are marked.
    assert!(File::get_symbol(&symbols, &mut used, 0x20, Some(b"b_alias")).is_none());
    assert_eq!(used, vec![false, true, true, false]);

    // No symbol of the name at the address: the first one there is given.
    let mut used = vec![false; 4];
    let found = File::get_symbol(&symbols, &mut used, 0x20, Some(b"other")).unwrap();
    assert_eq!(found.name, name("b"));
    assert_eq!(used, vec![false, true, true, false]);
    let found = File::get_symbol(&symbols, &mut used, 0x30, None).unwrap();
    assert_eq!(found.name, name("c"));
    assert_eq!(used, vec![false, true, true, true]);
}

#[test]
fn symbols_give_names_to_the_entries_at_their_addresses() {
    let symbol = |n: &str, ty: SymbolType, address: u64| Symbol { name: name(n), ty, address, size: 4 };
    let function = |n: &str, low_pc: Option<u64>| ddbug::function::Function {
        offset: ddbug::function::FunctionOffset(1),
        namespace: None,
        name: name(n),
        linkage_name: None,
        symbol_name: None,
        low_pc,
        high_pc: None,
        size: None,
        inline: false,
        declaration: false,
        parameters: vec![],
        return_type: None,
        inlined_functions: vec![],
        variables: vec![],
        calls: vec![],
    };
    let mut file = File {
        path: b"a.out".to_vec(),
        sections: vec![],
        symbols: vec![
            symbol("c", SymbolType::Function, 0x30),
            symbol("a", SymbolType::Function, 0x10),
            symbol("b_alias", SymbolType::Function, 0x20),
            symbol("data", SymbolType::Variable, 0x40),
            symbol("b", SymbolType::Function, 0x20),
        ],
        units: vec![ddbug::Unit {
            dir: None,
            name: name("a.c"),
            language: None,
            address_size: None,
            low_pc: None,
            high_pc: None,
            size: None,
            types: vec![],
            functions: vec![function("a", Some(0x10)), function("bee", Some(0x20)), function("none", None)],
            variables: vec![],
        }],
    };
    file.normalize();

    let names: Vec<_> = file.symbols.iter().map(|s| s.name.clone().unwrap()).collect();
    assert_eq!(names, vec![b"a".to_vec(), b"b_alias".to_vec(), b"b".to_vec(), b"c".to_vec(), b"data".to_vec()]);
    assert!(sorted_by_address(&file.symbols));

    assert_eq!(file.units.len(), 2);
    let unit = &file.units[0];
    assert_eq!(unit.name, name("a.c"));
    // A symbol at the address has the name of the function.
    assert_eq!(unit.functions[0].symbol_name, None);
    // None has: the function gets the name of the first symbol there.
    assert_eq!(unit.functions[1].symbol_name, name("b_alias"));
    assert_eq!(unit.functions[1].name, name("bee"));
    assert_eq!(unit.functions[2].symbol_name, None);

    let symtab = &file.units[1];
    assert_eq!(symtab.name, name("<symtab>"));
    assert_eq!(symtab.functions.len(), 1);
    assert_eq!(symtab.functions[0].name, name("c"));
    assert_eq!(symtab.functions[0].linkage_name, name("c"));
    assert_eq!(symtab.functions[0].low_pc, Some(0x30));
    assert_eq!(symtab.functions[0].high_pc, Some(0x34));
    assert_eq!(symtab.functions[0].size, Some(4));
    assert_eq!(symtab.variables.len(), 1);
    assert_eq!(symtab.variables[0].name, name("data"));
    assert_eq!(symtab.variables[0].address, Some(0x40));
    assert_eq!(symtab.variables[0].size, Some(4));
}
