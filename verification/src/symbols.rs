//! The symbols of a file: finding them by their addresses, and bringing them
//! together with the functions and variables of the file.
use std::cmp::Ordering;
use vstd::prelude::*;
use vstd::string::StringSliceAdditionalSpecFns;
use crate::file::{File, Symbol, SymbolType};
use crate::function::{Function, FunctionOffset};
use crate::unit::Unit;
use crate::variable::{Source, Variable, VariableOffset};
use crate::list::{refs, refs_of};
use crate::order::{cmp_u64, int_order, name_bytes};
use crate::sort::{in_order, lemma_sorted_in_order, lemma_sorted_permutes, orders_all, sort_by, sorted};
use crate::text::{bytes_eq, put_str};
use crate::types::name_slice;

verus! {

/// Whether the symbols stand in the order of their addresses.
pub open spec fn by_address(symbols: Seq<Symbol>) -> bool {
    forall|i: int, j: int|
        0 <= i <= j < symbols.len() ==> (#[trigger] symbols[i]).address <= (
        #[trigger] symbols[j]).address
}

/// Whether there is a symbol at `address`.
pub open spec fn any_at(symbols: Seq<Symbol>, address: u64) -> bool {
    exists|i: int| 0 <= i < symbols.len() && (#[trigger] symbols[i]).address == address
}

/// Whether there is a symbol of this name at `address`.
pub open spec fn named_at(symbols: Seq<Symbol>, address: u64, name: Option<Seq<u8>>) -> bool {
    exists|i: int|
        0 <= i < symbols.len() && (#[trigger] symbols[i]).address == address && name_bytes(
            symbols[i].name,
        ) == name
}

/// Whether the symbol at `i` is the first of the symbols at `address`.
pub open spec fn first_at(symbols: Seq<Symbol>, address: u64, i: int) -> bool {
    &&& 0 <= i < symbols.len()
    &&& symbols[i].address == address
    &&& forall|j: int| 0 <= j < i ==> (#[trigger] symbols[j]).address != address
}

/// The marks `used`, and a mark more on each symbol at `address`.
pub open spec fn marked_at(used: Seq<bool>, symbols: Seq<Symbol>, address: u64) -> Seq<bool> {
    Seq::new(
        used.len(),
        |i: int| used[i] || (0 <= i < symbols.len() && symbols[i].address == address),
    )
}

/// The bytes of a name that is looked for.
pub open spec fn wanted(name: Option<&[u8]>) -> Option<Seq<u8>> {
    match name {
        Some(bytes) => Some(bytes@),
        None => None,
    }
}

/// Whether the symbols stand in the order of their addresses.
pub fn sorted_by_address(symbols: &[Symbol]) -> (sorted: bool)
    ensures
        sorted == by_address(symbols@),
{
    if symbols.len() == 0 {
        return true;
    }
    let mut i: usize = 1;
    while i < symbols.len()
        invariant
            1 <= i <= symbols.len(),
            by_address(symbols@.take(i + 0)),
        decreases symbols.len() - i,
    {
        if symbols[i - 1].address > symbols[i].address {
            return false;
        }
        proof {
            let before = symbols@.take(i + 0);
            let after = symbols@.take(i + 1);
            assert forall|a: int, b: int| 0 <= a <= b < after.len() implies (#[trigger] after[a]).address <= (
            #[trigger] after[b]).address by {
                if b < i {
                    assert(before[a].address <= before[b].address);
                } else if a < i {
                    assert(before[a].address <= before[i - 1].address);
                }
            }
        }
        i += 1;
    }
    proof {
        assert(symbols@.take(i + 0) =~= symbols@);
    }
    true
}

/// The place of the first symbol whose address is not below `address`.
fn lower_bound(symbols: &[Symbol], address: u64) -> (index: usize)
    requires
        by_address(symbols@),
    ensures
        index <= symbols.len(),
        forall|j: int| 0 <= j < index ==> (#[trigger] symbols[j]).address < address,
        forall|j: int| index <= j < symbols.len() ==> (#[trigger] symbols[j]).address >= address,
{
    let mut low: usize = 0;
    let mut high: usize = symbols.len();
    while low < high
        invariant
            low <= high <= symbols.len(),
            by_address(symbols@),
            forall|j: int| 0 <= j < low ==> (#[trigger] symbols[j]).address < address,
            forall|j: int| high <= j < symbols.len() ==> (#[trigger] symbols[j]).address >= address,
        decreases high - low,
    {
        let middle = low + (high - low) / 2;
        if symbols[middle].address < address {
            assert forall|j: int| 0 <= j < middle + 1 implies (#[trigger] symbols[j]).address < address by {
                assert(symbols[j].address <= symbols[middle + 0].address);
            }
            low = middle + 1;
        } else {
            assert forall|j: int| middle <= j < symbols.len() implies (#[trigger] symbols[j]).address >= address by {
                assert(symbols[middle + 0].address <= symbols[j].address);
            }
            high = middle;
        }
    }
    low
}

/// Whether a symbol's name is the name that is looked for.
fn is_named(symbol: &Symbol, name: Option<&[u8]>) -> (same: bool)
    ensures
        same == (name_bytes(symbol.name) == wanted(name)),
{
    match (name_slice(&symbol.name), name) {
        (Some(a), Some(b)) => bytes_eq(a, b),
        (None, None) => true,
        _ => false,
    }
}

impl File {
    /// Marks the symbols at `address` as used, and tells whether one of
    /// them has the given name. Where there are symbols at the address and
    /// none has the name, the first of them is returned.
    pub fn get_symbol<'a>(
        symbols: &'a [Symbol],
        used_symbols: &mut Vec<bool>,
        address: u64,
        name: Option<&[u8]>,
    ) -> (symbol: Option<&'a Symbol>)
        requires
            by_address(symbols@),
            old(used_symbols)@.len() == symbols@.len(),
        ensures
            final(used_symbols)@ == marked_at(old(used_symbols)@, symbols@, address),
            symbol is Some <==> any_at(symbols@, address) && !named_at(
                symbols@,
                address,
                wanted(name),
            ),
            symbol is Some ==> exists|i: int|
                #[trigger] first_at(symbols@, address, i) && symbol == Some(&symbols@[i]),
    {
        let first = lower_bound(symbols, address);
        if first >= symbols.len() || symbols[first].address != address {
            proof {
                assert forall|j: int| 0 <= j < symbols.len() implies (#[trigger] symbols[j]).address
                    != address by {
                    if j >= first && first < symbols.len() {
                        assert(symbols[first + 0].address <= symbols[j].address);
                    }
                }
                assert(used_symbols@ =~= marked_at(used_symbols@, symbols@, address));
            }
            return None;
        }
        let ghost before = used_symbols@;
        let mut i = first;
        let mut found = false;
        while i < symbols.len() && symbols[i].address == address
            invariant
                first <= i <= symbols.len(),
                used_symbols@.len() == symbols@.len(),
                before.len() == symbols@.len(),
                forall|k: int| first <= k < i ==> (#[trigger] symbols[k]).address == address,
                forall|k: int|
                    0 <= k < symbols.len() ==> #[trigger] used_symbols@[k] == (before[k] || first
                        <= k < i),
                found == exists|k: int|
                    first <= k < i && name_bytes((#[trigger] symbols[k]).name) == wanted(name),
            decreases symbols.len() - i,
        {
            used_symbols.set(i, true);
            let same = is_named(&symbols[i], name);
            proof {
                if same {
                    assert(name_bytes(symbols[i + 0].name) == wanted(name));
                } else if found {
                } else {
                    assert forall|k: int| first <= k < i + 1 implies name_bytes(
                        (#[trigger] symbols[k]).name,
                    ) != wanted(name) by {}
                }
            }
            if same {
                found = true;
            }
            i += 1;
        }
        proof {
            assert forall|k: int| 0 <= k < symbols.len() implies ((#[trigger] symbols[k]).address
                == address) == (first <= k < i) by {
                if k >= i {
                    assert(symbols[i + 0].address <= symbols[k].address);
                    assert(symbols[first + 0].address <= symbols[i + 0].address);
                }
            }
            assert(used_symbols@ =~= marked_at(before, symbols@, address));
            assert(first_at(symbols@, address, first + 0));
            assert(symbols[first + 0].address == address);
            if found {
                let k = choose|k: int|
                    first <= k < i && name_bytes((#[trigger] symbols[k]).name) == wanted(name);
                assert(symbols[k].address == address);
            } else {
                assert forall|k: int| 0 <= k < symbols.len() && (#[trigger] symbols[k]).address
                    == address implies name_bytes(symbols[k].name) != wanted(name) by {}
            }
        }
        if found {
            None
        } else {
            Some(&symbols[first])
        }
    }
}

/// What a symbol says: its name, what it names, its address and its size.
pub open spec fn symbol_plain(s: &Symbol) -> (Option<Seq<u8>>, SymbolType, u64, u64) {
    (name_bytes(s.name), s.ty, s.address, s.size)
}

/// The order of two symbols by their addresses.
pub open spec fn address_order<'a>() -> spec_fn(&'a Symbol, &'a Symbol) -> Ordering {
    |a: &'a Symbol, b: &'a Symbol| int_order(a.address + 0, b.address + 0)
}

/// The symbols in the order of their addresses; symbols at one address stay
/// in the order in which they are.
pub open spec fn by_address_sorted<'a>(symbols: Seq<Symbol>) -> Seq<&'a Symbol> {
    sorted(refs_of(symbols), address_order())
}

/// Gives a copy of a name.
pub fn copy_name(name: &Option<Vec<u8>>) -> (copy: Option<Vec<u8>>)
    ensures
        name_bytes(copy) == name_bytes(*name),
{
    match name {
        Some(bytes) => {
            let mut copy: Vec<u8> = Vec::new();
            let mut i: usize = 0;
            while i < bytes.len()
                invariant
                    i <= bytes@.len(),
                    copy@ == bytes@.take(i + 0),
                decreases bytes@.len() - i,
            {
                copy.push(bytes[i]);
                assert(bytes@.take(i + 1) =~= bytes@.take(i + 0).push(bytes@[i + 0]));
                i += 1;
            }
            assert(bytes@.take(i + 0) =~= bytes@);
            Some(copy)
        },
        None => None,
    }
}

/// Gives the symbols in the order of their addresses.
pub fn sort_symbols(symbols: &Vec<Symbol>) -> (out: Vec<Symbol>)
    ensures
        out@.len() == symbols@.len(),
        forall|k: int|
            0 <= k < out@.len() ==> symbol_plain(&#[trigger] out@[k]) == symbol_plain(
                by_address_sorted(symbols@)[k],
            ),
        by_address(out@),
{
    let by = |a: &Symbol, b: &Symbol| -> (o: Ordering)
        ensures
            o == int_order(a.address + 0, b.address + 0),
        { cmp_u64(a.address, b.address) };
    let list = refs(symbols.as_slice());
    let ordered = sort_by(list.as_slice(), &by, Ghost(address_order()));
    proof {
        lemma_sorted_permutes(refs_of(symbols@), address_order());
        lemma_sorted_in_order(refs_of(symbols@), address_order());
    }
    let mut out: Vec<Symbol> = Vec::new();
    let mut i: usize = 0;
    while i < ordered.len()
        invariant
            i <= ordered@.len(),
            out@.len() == i,
            ordered@ == by_address_sorted(symbols@),
            forall|k: int|
                0 <= k < i ==> symbol_plain(&#[trigger] out@[k]) == symbol_plain(ordered@[k]),
        decreases ordered@.len() - i,
    {
        let symbol = ordered[i];
        out.push(
            Symbol {
                name: copy_name(&symbol.name),
                ty: symbol.ty,
                address: symbol.address,
                size: symbol.size,
            },
        );
        i += 1;
    }
    proof {
        assert forall|a: int, b: int| 0 <= a <= b < out@.len() implies (#[trigger] out@[a]).address <= (
        #[trigger] out@[b]).address by {
            assert(symbol_plain(&out@[a]) == symbol_plain(ordered@[a]));
            assert(symbol_plain(&out@[b]) == symbol_plain(ordered@[b]));
            if a < b {
                assert(address_order()(ordered@[a], ordered@[b]) != Ordering::Greater);
            }
        }
    }
    out
}

/// The name by which an entry is looked for among the symbols: its linkage
/// name, and where it has none, its name.
pub open spec fn own_name(linkage_name: Option<Vec<u8>>, name: Option<Vec<u8>>) -> Option<Seq<u8>> {
    match linkage_name {
        Some(linkage_name) => Some(linkage_name@),
        None => name_bytes(name),
    }
}

/// Whether an entry at `address` that goes by `name` gets the name of a
/// symbol: there are symbols at its address, and none of them has its name.
pub open spec fn gets_name(symbols: Seq<Symbol>, address: Option<u64>, name: Option<Seq<u8>>) -> bool {
    match address {
        Some(address) => any_at(symbols, address) && !named_at(symbols, address, name),
        None => false,
    }
}

/// Whether `symbol_name` is the symbol name of an entry at `address` that
/// goes by `name` and had the symbol name `before`: the name of the first
/// symbol at its address, where it gets one, and else the name it had.
pub open spec fn named_by(
    symbols: Seq<Symbol>,
    address: Option<u64>,
    name: Option<Seq<u8>>,
    before: Option<Vec<u8>>,
    symbol_name: Option<Vec<u8>>,
) -> bool {
    if gets_name(symbols, address, name) {
        exists|i: int|
            #[trigger] first_at(symbols, address->Some_0, i) && name_bytes(symbol_name) == name_bytes(
                symbols[i].name,
            )
    } else {
        symbol_name == before
    }
}

/// Whether `after` is the function `before` with the name of its symbol.
pub open spec fn function_named(symbols: Seq<Symbol>, before: Function, after: Function) -> bool {
    &&& after == (Function { symbol_name: after.symbol_name, ..before })
    &&& named_by(
        symbols,
        before.low_pc,
        own_name(before.linkage_name, before.name),
        before.symbol_name,
        after.symbol_name,
    )
}

/// Whether `after` is the variable `before` with the name of its symbol.
pub open spec fn variable_named(symbols: Seq<Symbol>, before: Variable, after: Variable) -> bool {
    &&& after == (Variable { symbol_name: after.symbol_name, ..before })
    &&& named_by(
        symbols,
        before.address,
        own_name(before.linkage_name, before.name),
        before.symbol_name,
        after.symbol_name,
    )
}

/// The marks `used`, and a mark more on each symbol at an address, where
/// there is an address.
pub open spec fn marked_for(used: Seq<bool>, symbols: Seq<Symbol>, address: Option<u64>) -> Seq<bool> {
    match address {
        Some(address) => marked_at(used, symbols, address),
        None => used,
    }
}

/// The marks `used`, and a mark more on each symbol at the address of one
/// of the first `n` functions.
pub open spec fn marked_by_functions(
    used: Seq<bool>,
    symbols: Seq<Symbol>,
    functions: Seq<Function>,
    n: int,
) -> Seq<bool>
    decreases n,
{
    if n <= 0 {
        used
    } else {
        marked_for(marked_by_functions(used, symbols, functions, n - 1), symbols, functions[n - 1].low_pc)
    }
}

/// The marks `used`, and a mark more on each symbol at the address of one
/// of the first `n` variables.
pub open spec fn marked_by_variables(
    used: Seq<bool>,
    symbols: Seq<Symbol>,
    variables: Seq<Variable>,
    n: int,
) -> Seq<bool>
    decreases n,
{
    if n <= 0 {
        used
    } else {
        marked_for(marked_by_variables(used, symbols, variables, n - 1), symbols, variables[n - 1].address)
    }
}

/// Looks for the symbol of an entry, and gives the name of the symbol,
/// where the entry gets one.
fn symbol_name_for(
    symbols: &[Symbol],
    used: &mut Vec<bool>,
    address: Option<u64>,
    linkage_name: &Option<Vec<u8>>,
    name: &Option<Vec<u8>>,
) -> (found: Option<Option<Vec<u8>>>)
    requires
        by_address(symbols@),
        old(used)@.len() == symbols@.len(),
    ensures
        final(used)@ == marked_for(old(used)@, symbols@, address),
        final(used)@.len() == symbols@.len(),
        found is Some <==> gets_name(symbols@, address, own_name(*linkage_name, *name)),
        found is Some ==> exists|i: int|
            #[trigger] first_at(symbols@, address->Some_0, i) && name_bytes(found->Some_0) == name_bytes(
                symbols@[i].name,
            ),
{
    match address {
        Some(address) => {
            let own = match linkage_name {
                Some(linkage_name) => Some(linkage_name.as_slice()),
                None => name_slice(name),
            };
            assert(wanted(own) == own_name(*linkage_name, *name));
            match File::get_symbol(symbols, used, address, own) {
                Some(symbol) => Some(copy_name(&symbol.name)),
                None => None,
            }
        },
        None => None,
    }
}

/// Gives each function the name of the symbol at its address, where that
/// is another name than its own, and marks the symbols at the addresses of
/// the functions.
pub fn name_functions(functions: &mut Vec<Function>, symbols: &[Symbol], used: &mut Vec<bool>)
    requires
        by_address(symbols@),
        old(used)@.len() == symbols@.len(),
    ensures
        final(functions)@.len() == old(functions)@.len(),
        forall|k: int|
            0 <= k < old(functions)@.len() ==> function_named(
                symbols@,
                old(functions)@[k],
                #[trigger] final(functions)@[k],
            ),
        final(used)@ == marked_by_functions(
            old(used)@,
            symbols@,
            old(functions)@,
            old(functions)@.len() + 0int,
        ),
        final(used)@.len() == symbols@.len(),
{
    let mut j: usize = 0;
    while j < functions.len()
        invariant
            j <= functions@.len(),
            functions@.len() == old(functions)@.len(),
            by_address(symbols@),
            used@.len() == symbols@.len(),
            forall|k: int|
                0 <= k < j ==> function_named(symbols@, old(functions)@[k], #[trigger] functions@[k]),
            forall|k: int| j <= k < functions@.len() ==> #[trigger] functions@[k] == old(functions)@[k],
            used@ == marked_by_functions(old(used)@, symbols@, old(functions)@, j + 0),
        decreases functions@.len() - j,
    {
        let ghost before = functions@;
        let found = symbol_name_for(
            symbols,
            used,
            functions[j].low_pc,
            &functions[j].linkage_name,
            &functions[j].name,
        );
        if let Some(symbol_name) = found {
            functions[j].symbol_name = symbol_name;
        }
        proof {
            assert(forall|k: int| 0 <= k < functions@.len() && k != j ==> functions@[k] == before[k]);
            assert(function_named(symbols@, old(functions)@[j + 0], functions@[j + 0]));
        }
        j += 1;
    }
}

/// Gives each variable the name of the symbol at its address, where that
/// is another name than its own, and marks the symbols at the addresses of
/// the variables.
pub fn name_variables(variables: &mut Vec<Variable>, symbols: &[Symbol], used: &mut Vec<bool>)
    requires
        by_address(symbols@),
        old(used)@.len() == symbols@.len(),
    ensures
        final(variables)@.len() == old(variables)@.len(),
        forall|k: int|
            0 <= k < old(variables)@.len() ==> variable_named(
                symbols@,
                old(variables)@[k],
                #[trigger] final(variables)@[k],
            ),
        final(used)@ == marked_by_variables(
            old(used)@,
            symbols@,
            old(variables)@,
            old(variables)@.len() + 0int,
        ),
        final(used)@.len() == symbols@.len(),
{
    let mut j: usize = 0;
    while j < variables.len()
        invariant
            j <= variables@.len(),
            variables@.len() == old(variables)@.len(),
            by_address(symbols@),
            used@.len() == symbols@.len(),
            forall|k: int|
                0 <= k < j ==> variable_named(symbols@, old(variables)@[k], #[trigger] variables@[k]),
            forall|k: int| j <= k < variables@.len() ==> #[trigger] variables@[k] == old(variables)@[k],
            used@ == marked_by_variables(old(used)@, symbols@, old(variables)@, j + 0),
        decreases variables@.len() - j,
    {
        let ghost before = variables@;
        let found = symbol_name_for(
            symbols,
            used,
            variables[j].address,
            &variables[j].linkage_name,
            &variables[j].name,
        );
        if let Some(symbol_name) = found {
            variables[j].symbol_name = symbol_name;
        }
        proof {
            assert(forall|k: int| 0 <= k < variables@.len() && k != j ==> variables@[k] == before[k]);
            assert(variable_named(symbols@, old(variables)@[j + 0], variables@[j + 0]));
        }
        j += 1;
    }
}

/// What the symbols among the first `n` that have no mark and name a `ty`
/// say: their names, their addresses and their sizes.
pub open spec fn unused(symbols: Seq<Symbol>, used: Seq<bool>, ty: SymbolType, n: int) -> Seq<
    (Option<Seq<u8>>, u64, u64),
>
    decreases n,
{
    if n <= 0 {
        Seq::empty()
    } else {
        let before = unused(symbols, used, ty, n - 1);
        if !used[n - 1] && symbols[n - 1].ty == ty {
            before.push((name_bytes(symbols[n - 1].name), symbols[n - 1].address, symbols[n - 1].size))
        } else {
            before
        }
    }
}

/// Whether `end` is where `size` bytes from `address` on end, or nothing
/// where that is no address.
pub open spec fn ends_at(address: u64, size: u64, end: Option<u64>) -> bool {
    match end {
        Some(end) => end == address + size,
        None => address + size > u64::MAX,
    }
}

/// Whether `f` is the function that stands for a symbol: it has the name,
/// the address and the size of the symbol, and nothing else.
pub open spec fn function_of_symbol(f: Function, symbol: (Option<Seq<u8>>, u64, u64)) -> bool {
    &&& f.offset == FunctionOffset(usize::MAX)
    &&& f.namespace is None
    &&& name_bytes(f.name) == symbol.0
    &&& name_bytes(f.linkage_name) == symbol.0
    &&& f.symbol_name is None
    &&& f.low_pc == Some(symbol.1)
    &&& ends_at(symbol.1, symbol.2, f.high_pc)
    &&& f.size == Some(symbol.2)
    &&& !f.inline
    &&& !f.declaration
    &&& f.parameters@.len() == 0
    &&& f.return_type is None
    &&& f.inlined_functions@.len() == 0
    &&& f.variables@.len() == 0
    &&& f.calls@.len() == 0
}

/// Whether `v` is the variable that stands for a symbol: it has the name,
/// the address and the size of the symbol, and nothing else.
pub open spec fn variable_of_symbol(v: Variable, symbol: (Option<Seq<u8>>, u64, u64)) -> bool {
    &&& v.id == 0
    &&& v.offset == VariableOffset(usize::MAX)
    &&& v.namespace is None
    &&& name_bytes(v.name) == symbol.0
    &&& name_bytes(v.linkage_name) == symbol.0
    &&& v.symbol_name is None
    &&& v.ty is None
    &&& v.source.directory is None
    &&& v.source.file is None
    &&& v.source.line == 0
    &&& v.source.column == 0
    &&& v.address == Some(symbol.1)
    &&& v.size == Some(symbol.2)
    &&& !v.declaration
}

/// Whether `unit` is the unit of the symbols without a mark: it is named
/// `<symtab>` and holds a function or a variable for each of them, in
/// their order.
pub open spec fn is_symtab(symbols: Seq<Symbol>, used: Seq<bool>, unit: Unit) -> bool {
    let functions = unused(symbols, used, SymbolType::Function, symbols.len() + 0int);
    let variables = unused(symbols, used, SymbolType::Variable, symbols.len() + 0int);
    &&& unit.dir is None
    &&& name_bytes(unit.name) == Some("<symtab>".spec_bytes())
    &&& unit.language is None
    &&& unit.address_size is None
    &&& unit.low_pc is None
    &&& unit.high_pc is None
    &&& unit.size is None
    &&& unit.types@.len() == 0
    &&& unit.functions@.len() == functions.len()
    &&& forall|k: int|
        0 <= k < functions.len() ==> function_of_symbol(#[trigger] unit.functions@[k], functions[k])
    &&& unit.variables@.len() == variables.len()
    &&& forall|k: int|
        0 <= k < variables.len() ==> variable_of_symbol(#[trigger] unit.variables@[k], variables[k])
}

/// Gives the unit of the symbols without a mark.
pub fn symtab_unit(symbols: &[Symbol], used: &Vec<bool>) -> (unit: Unit)
    requires
        used@.len() == symbols@.len(),
    ensures
        is_symtab(symbols@, used@, unit),
{
    let mut name: Vec<u8> = Vec::new();
    put_str(&mut name, "<symtab>");
    assert(name@ =~= "<symtab>".spec_bytes());
    let mut functions: Vec<Function> = Vec::new();
    let mut variables: Vec<Variable> = Vec::new();
    let mut i: usize = 0;
    while i < symbols.len()
        invariant
            i <= symbols@.len(),
            used@.len() == symbols@.len(),
            functions@.len() == unused(symbols@, used@, SymbolType::Function, i + 0).len(),
            forall|k: int|
                0 <= k < functions@.len() ==> function_of_symbol(
                    #[trigger] functions@[k],
                    unused(symbols@, used@, SymbolType::Function, i + 0)[k],
                ),
            variables@.len() == unused(symbols@, used@, SymbolType::Variable, i + 0).len(),
            forall|k: int|
                0 <= k < variables@.len() ==> variable_of_symbol(
                    #[trigger] variables@[k],
                    unused(symbols@, used@, SymbolType::Variable, i + 0)[k],
                ),
        decreases symbols@.len() - i,
    {
        let symbol = &symbols[i];
        if !used[i] {
            match symbol.ty {
                SymbolType::Function => {
                    functions.push(
                        Function {
                            offset: FunctionOffset(usize::MAX),
                            namespace: None,
                            name: copy_name(&symbol.name),
                            linkage_name: copy_name(&symbol.name),
                            symbol_name: None,
                            low_pc: Some(symbol.address),
                            high_pc: symbol.address.checked_add(symbol.size),
                            size: Some(symbol.size),
                            inline: false,
                            declaration: false,
                            parameters: Vec::new(),
                            return_type: None,
                            inlined_functions: Vec::new(),
                            variables: Vec::new(),
                            calls: Vec::new(),
                        },
                    );
                },
                SymbolType::Variable => {
                    variables.push(
                        Variable {
                            id: 0,
                            offset: VariableOffset(usize::MAX),
                            namespace: None,
                            name: copy_name(&symbol.name),
                            linkage_name: copy_name(&symbol.name),
                            symbol_name: None,
                            ty: None,
                            source: Source { directory: None, file: None, line: 0, column: 0 },
                            address: Some(symbol.address),
                            size: Some(symbol.size),
                            declaration: false,
                        },
                    );
                },
            }
        }
        i += 1;
    }
    Unit {
        dir: None,
        name: Some(name),
        language: None,
        address_size: None,
        low_pc: None,
        high_pc: None,
        size: None,
        types: Vec::new(),
        functions,
        variables,
    }
}

/// The marks `used`, and a mark more on each symbol at the address of a
/// function or a variable of one of the first `n` units.
pub open spec fn marked_by_units(used: Seq<bool>, symbols: Seq<Symbol>, units: Seq<Unit>, n: int) -> Seq<
    bool,
>
    decreases n,
{
    if n <= 0 {
        used
    } else {
        marked_by_variables(
            marked_by_functions(
                marked_by_units(used, symbols, units, n - 1),
                symbols,
                units[n - 1].functions@,
                units[n - 1].functions@.len() + 0int,
            ),
            symbols,
            units[n - 1].variables@,
            units[n - 1].variables@.len() + 0int,
        )
    }
}

/// Whether `after` is the unit `before` with the names of the symbols of
/// its functions and variables.
pub open spec fn unit_named(symbols: Seq<Symbol>, before: Unit, after: Unit) -> bool {
    &&& after == (Unit { functions: after.functions, variables: after.variables, ..before })
    &&& after.functions@.len() == before.functions@.len()
    &&& forall|k: int|
        0 <= k < before.functions@.len() ==> function_named(
            symbols,
            before.functions@[k],
            #[trigger] after.functions@[k],
        )
    &&& after.variables@.len() == before.variables@.len()
    &&& forall|k: int|
        0 <= k < before.variables@.len() ==> variable_named(
            symbols,
            before.variables@[k],
            #[trigger] after.variables@[k],
        )
}

/// No marks on `n` symbols.
pub open spec fn no_marks(n: nat) -> Seq<bool> {
    Seq::new(n, |i: int| false)
}

impl File {
    /// Brings the symbols of the file together with its entries. The
    /// symbols are put in the order of their addresses. Each function and
    /// each variable at an address gets the name of the first symbol at
    /// that address, unless a symbol there has its own name. The symbols at
    /// whose addresses no function and no variable is found are listed as
    /// functions and variables of a last unit, `<symtab>`.
    pub fn normalize(&mut self)
        ensures
            final(self).path == old(self).path,
            final(self).sections == old(self).sections,
            final(self).symbols@.len() == old(self).symbols@.len(),
            forall|k: int|
                0 <= k < final(self).symbols@.len() ==> symbol_plain(&#[trigger] final(self).symbols@[k])
                    == symbol_plain(by_address_sorted(old(self).symbols@)[k]),
            by_address(final(self).symbols@),
            final(self).units@.len() == old(self).units@.len() + 1,
            forall|u: int|
                0 <= u < old(self).units@.len() ==> unit_named(
                    final(self).symbols@,
                    old(self).units@[u],
                    #[trigger] final(self).units@[u],
                ),
            is_symtab(
                final(self).symbols@,
                marked_by_units(
                    no_marks(final(self).symbols@.len()),
                    final(self).symbols@,
                    old(self).units@,
                    old(self).units@.len() + 0int,
                ),
                final(self).units@[old(self).units@.len() + 0int],
            ),
    {
        let symbols = sort_symbols(&self.symbols);
        self.symbols = symbols;
        let mut used: Vec<bool> = Vec::new();
        while used.len() < self.symbols.len()
            invariant
                used@.len() <= self.symbols@.len(),
                used@ == no_marks(used@.len()),
                *self == (File { symbols: self.symbols, ..*old(self) }),
                by_address(self.symbols@),
            decreases self.symbols@.len() - used@.len(),
        {
            used.push(false);
            assert(used@ =~= no_marks(used@.len()));
        }
        let ghost sorted = self.symbols@;
        let mut i: usize = 0;
        while i < self.units.len()
            invariant
                i <= self.units@.len(),
                self.units@.len() == old(self).units@.len(),
                self.symbols@ == sorted,
                self.path == old(self).path,
                self.sections == old(self).sections,
                by_address(sorted),
                used@.len() == sorted.len(),
                used@ == marked_by_units(no_marks(sorted.len()), sorted, old(self).units@, i + 0),
                forall|u: int|
                    0 <= u < i ==> unit_named(sorted, old(self).units@[u], #[trigger] self.units@[u]),
                forall|u: int| i <= u < self.units@.len() ==> #[trigger] self.units@[u] == old(self).units@[u],
            decreases self.units@.len() - i,
        {
            let ghost before = self.units@;
            name_functions(&mut self.units[i].functions, self.symbols.as_slice(), &mut used);
            name_variables(&mut self.units[i].variables, self.symbols.as_slice(), &mut used);
            proof {
                assert(forall|u: int| 0 <= u < self.units@.len() && u != i ==> self.units@[u] == before[u]);
                assert(unit_named(sorted, old(self).units@[i + 0], self.units@[i + 0]));
            }
            i += 1;
        }
        let unit = symtab_unit(self.symbols.as_slice(), &used);
        self.units.push(unit);
    }
}

/// Whether one of the first `n` functions stands at `address`.
pub open spec fn function_at(functions: Seq<Function>, n: int, address: u64) -> bool {
    exists|j: int| 0 <= j < n && (#[trigger] functions[j]).low_pc == Some(address)
}

/// Whether one of the first `n` variables stands at `address`.
pub open spec fn variable_at(variables: Seq<Variable>, n: int, address: u64) -> bool {
    exists|j: int| 0 <= j < n && (#[trigger] variables[j]).address == Some(address)
}

/// Whether a function or a variable of one of the first `n` units stands at
/// `address`.
pub open spec fn entry_at(units: Seq<Unit>, n: int, address: u64) -> bool {
    exists|u: int|
        0 <= u < n && (function_at(
            (#[trigger] units[u]).functions@,
            units[u].functions@.len() + 0int,
            address,
        ) || variable_at(units[u].variables@, units[u].variables@.len() + 0int, address))
}

/// After the functions have been gone through, a symbol has a mark where
/// it had one, or where a function stands at its address.
pub proof fn lemma_marked_by_functions(
    used: Seq<bool>,
    symbols: Seq<Symbol>,
    functions: Seq<Function>,
    n: int,
    k: int,
)
    requires
        used.len() == symbols.len(),
        0 <= n <= functions.len(),
        0 <= k < symbols.len(),
    ensures
        marked_by_functions(used, symbols, functions, n).len() == symbols.len(),
        marked_by_functions(used, symbols, functions, n)[k] == (used[k] || function_at(
            functions,
            n,
            symbols[k].address,
        )),
    decreases n,
{
    if n > 0 {
        lemma_marked_by_functions(used, symbols, functions, n - 1, k);
        let address = symbols[k].address;
        if function_at(functions, n - 1, address) {
            let j = choose|j: int| 0 <= j < n - 1 && (#[trigger] functions[j]).low_pc == Some(address);
            assert(functions[j].low_pc == Some(address));
        }
        if functions[n - 1].low_pc == Some(address) {
            assert(function_at(functions, n, address));
        }
        if function_at(functions, n, address) {
            let j = choose|j: int| 0 <= j < n && (#[trigger] functions[j]).low_pc == Some(address);
            if j < n - 1 {
                assert(function_at(functions, n - 1, address));
            }
        }
    }
}

/// After the variables have been gone through, a symbol has a mark where
/// it had one, or where a variable stands at its address.
pub proof fn lemma_marked_by_variables(
    used: Seq<bool>,
    symbols: Seq<Symbol>,
    variables: Seq<Variable>,
    n: int,
    k: int,
)
    requires
        used.len() == symbols.len(),
        0 <= n <= variables.len(),
        0 <= k < symbols.len(),
    ensures
        marked_by_variables(used, symbols, variables, n).len() == symbols.len(),
        marked_by_variables(used, symbols, variables, n)[k] == (used[k] || variable_at(
            variables,
            n,
            symbols[k].address,
        )),
    decreases n,
{
    if n > 0 {
        lemma_marked_by_variables(used, symbols, variables, n - 1, k);
        let address = symbols[k].address;
        if variable_at(variables, n - 1, address) {
            let j = choose|j: int| 0 <= j < n - 1 && (#[trigger] variables[j]).address == Some(address);
            assert(variables[j].address == Some(address));
        }
        if variables[n - 1].address == Some(address) {
            assert(variable_at(variables, n, address));
        }
        if variable_at(variables, n, address) {
            let j = choose|j: int| 0 <= j < n && (#[trigger] variables[j]).address == Some(address);
            if j < n - 1 {
                assert(variable_at(variables, n - 1, address));
            }
        }
    }
}

/// After the units have been gone through, a symbol has a mark where it
/// had one, or where a function or a variable stands at its address: the
/// symbols that are left for the last unit are those at whose addresses
/// nothing stands.
pub proof fn lemma_marked_by_units(
    used: Seq<bool>,
    symbols: Seq<Symbol>,
    units: Seq<Unit>,
    n: int,
    k: int,
)
    requires
        used.len() == symbols.len(),
        0 <= n <= units.len(),
        0 <= k < symbols.len(),
    ensures
        marked_by_units(used, symbols, units, n).len() == symbols.len(),
        marked_by_units(used, symbols, units, n)[k] == (used[k] || entry_at(
            units,
            n,
            symbols[k].address,
        )),
    decreases n,
{
    if n > 0 {
        lemma_marked_by_units(used, symbols, units, n - 1, k);
        let address = symbols[k].address;
        let unit = units[n - 1];
        let before = marked_by_units(used, symbols, units, n - 1);
        let between = marked_by_functions(before, symbols, unit.functions@, unit.functions@.len() + 0int);
        lemma_marked_by_functions(before, symbols, unit.functions@, unit.functions@.len() + 0int, k);
        lemma_marked_by_variables(between, symbols, unit.variables@, unit.variables@.len() + 0int, k);
        let here = function_at(unit.functions@, unit.functions@.len() + 0int, address) || variable_at(
            unit.variables@,
            unit.variables@.len() + 0int,
            address,
        );
        if entry_at(units, n - 1, address) {
            let u = choose|u: int|
                0 <= u < n - 1 && (function_at(
                    (#[trigger] units[u]).functions@,
                    units[u].functions@.len() + 0int,
                    address,
                ) || variable_at(units[u].variables@, units[u].variables@.len() + 0int, address));
            assert(function_at(units[u].functions@, units[u].functions@.len() + 0int, address)
                || variable_at(units[u].variables@, units[u].variables@.len() + 0int, address));
            assert(entry_at(units, n, address));
        }
        if here {
            assert(function_at(units[n - 1].functions@, units[n - 1].functions@.len() + 0int, address)
                || variable_at(units[n - 1].variables@, units[n - 1].variables@.len() + 0int, address));
            assert(entry_at(units, n, address));
        }
        if entry_at(units, n, address) {
            let u = choose|u: int|
                0 <= u < n && (function_at(
                    (#[trigger] units[u]).functions@,
                    units[u].functions@.len() + 0int,
                    address,
                ) || variable_at(units[u].variables@, units[u].variables@.len() + 0int, address));
            if u < n - 1 {
                assert(entry_at(units, n - 1, address));
            }
        }
    }
}

} // verus!
