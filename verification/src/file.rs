//! Files, and the indexes by which the entries of a file are found.
use std::collections::HashMap;
use vstd::prelude::*;
use vstd::std_specs::hash::group_hash_axioms;
use crate::function::Function;
use crate::types::{Type, TypeOffset};
use crate::unit::Unit;
use crate::list::{chosen, diff_sort_list_out, sort_list_out, Choice};
use crate::order::name_bytes;
use crate::print::{Cursor, Cursor2, DiffPrefix, DiffState, PrintState};
use crate::{Error, Flags};

verus! {

/// A section of a file.
#[derive(Debug)]
pub struct Section {
    pub name: Option<Vec<u8>>,
    pub segment: Option<Vec<u8>>,
    pub address: Option<u64>,
    pub size: u64,
}

/// What a symbol names.
#[derive(Debug, Clone, Copy, PartialEq, Eq, Structural)]
pub enum SymbolType {
    Variable,
    Function,
}

/// A symbol of the symbol table of a file.
#[derive(Debug)]
pub struct Symbol {
    pub name: Option<Vec<u8>>,
    pub ty: SymbolType,
    pub address: u64,
    pub size: u64,
}

/// The debugging information of a file.
#[derive(Debug)]
pub struct File {
    pub path: Vec<u8>,
    pub sections: Vec<Section>,
    pub symbols: Vec<Symbol>,
    pub units: Vec<Unit>,
}

/// The indexes of a file: its functions by address and by offset, and its
/// types by offset.
pub struct FileHash<'a> {
    pub file: &'a File,
    pub functions_by_address: HashMap<u64, &'a Function>,
    pub functions_by_offset: HashMap<usize, &'a Function>,
    pub types: HashMap<usize, &'a Type>,
}


/// The index of the first `n` types of `types`, added to `index`: each type
/// by its offset. Of two types with the same offset the later one is
/// found.
pub open spec fn with_types<'a>(index: Map<usize, &'a Type>, types: Seq<Type>, n: int) -> Map<
    usize,
    &'a Type,
>
    decreases n,
{
    if n <= 0 {
        index
    } else {
        with_types(index, types, n - 1).insert(types[n - 1].offset.0, &types[n - 1])
    }
}

/// The index of the types of the first `n` units of `units`.
pub open spec fn types_index<'a>(units: Seq<Unit>, n: int) -> Map<usize, &'a Type>
    decreases n,
{
    if n <= 0 {
        Map::empty()
    } else {
        with_types(types_index(units, n - 1), units[n - 1].types@, units[n - 1].types@.len() as int)
    }
}

/// The index of the first `n` functions of `functions` by offset, added to
/// `index`.
pub open spec fn with_offsets<'a>(
    index: Map<usize, &'a Function>,
    functions: Seq<Function>,
    n: int,
) -> Map<usize, &'a Function>
    decreases n,
{
    if n <= 0 {
        index
    } else {
        with_offsets(index, functions, n - 1).insert(functions[n - 1].offset.0, &functions[n - 1])
    }
}

/// The index of the functions of the first `n` units of `units` by offset.
pub open spec fn offsets_index<'a>(units: Seq<Unit>, n: int) -> Map<usize, &'a Function>
    decreases n,
{
    if n <= 0 {
        Map::empty()
    } else {
        with_offsets(
            offsets_index(units, n - 1),
            units[n - 1].functions@,
            units[n - 1].functions@.len() as int,
        )
    }
}

/// The index of the first `n` functions of `functions` by address, added to
/// `index`. A function without an address is not in it.
pub open spec fn with_addresses<'a>(
    index: Map<u64, &'a Function>,
    functions: Seq<Function>,
    n: int,
) -> Map<u64, &'a Function>
    decreases n,
{
    if n <= 0 {
        index
    } else {
        match functions[n - 1].low_pc {
            Some(low_pc) => with_addresses(index, functions, n - 1).insert(low_pc, &functions[n - 1]),
            None => with_addresses(index, functions, n - 1),
        }
    }
}

/// The index of the functions of the first `n` units of `units` by address.
pub open spec fn addresses_index<'a>(units: Seq<Unit>, n: int) -> Map<u64, &'a Function>
    decreases n,
{
    if n <= 0 {
        Map::empty()
    } else {
        with_addresses(
            addresses_index(units, n - 1),
            units[n - 1].functions@,
            units[n - 1].functions@.len() as int,
        )
    }
}

impl<'a> FileHash<'a> {
    /// Whether the indexes are those of the file.
    pub open spec fn wf(&self) -> bool {
        &&& self.types@ == types_index(self.file.units@, self.file.units@.len() as int)
        &&& self.functions_by_offset@ == offsets_index(
            self.file.units@,
            self.file.units@.len() as int,
        )
        &&& self.functions_by_address@ == addresses_index(
            self.file.units@,
            self.file.units@.len() as int,
        )
    }

    /// The type at `offset`, where there is one.
    pub open spec fn ty(&self, offset: Option<TypeOffset>) -> Option<&'a Type> {
        match offset {
            Some(offset) => if self.types@.contains_key(offset.0) {
                Some(self.types@[offset.0])
            } else {
                None
            },
            None => None,
        }
    }

    /// The function at `address`, where there is one.
    pub open spec fn function_at(&self, address: u64) -> Option<&'a Function> {
        if self.functions_by_address@.contains_key(address) {
            Some(self.functions_by_address@[address])
        } else {
            None
        }
    }

    /// The function at `offset`, where there is one.
    pub open spec fn function(&self, offset: Option<crate::function::FunctionOffset>) -> Option<
        &'a Function,
    > {
        match offset {
            Some(offset) => if self.functions_by_offset@.contains_key(offset.0) {
                Some(self.functions_by_offset@[offset.0])
            } else {
                None
            },
            None => None,
        }
    }

    /// How many references from type to type are followed at most: as many
    /// as there are types, so that only a circle of references is cut
    /// short.
    pub open spec fn depth(&self) -> usize {
        self.types@.len() as usize
    }

    /// Indexes the types and the functions of a file.
    pub fn new(file: &'a File) -> (hash: Self)
        ensures
            hash.file == file,
            hash.wf(),
    {
        FileHash {
            file,
            functions_by_address: FileHash::functions_by_address(file),
            functions_by_offset: FileHash::functions_by_offset(file),
            types: FileHash::types(file),
        }
    }

    /// Returns a map from address to function for all functions in the file.
    fn functions_by_address(file: &'a File) -> (functions: HashMap<u64, &'a Function>)
        ensures
            functions@ == addresses_index(file.units@, file.units@.len() as int),
    {
        broadcast use group_hash_axioms;

        let mut functions: HashMap<u64, &'a Function> = HashMap::new();
        let mut i: usize = 0;
        while i < file.units.len()
            invariant
                i <= file.units@.len(),
                functions@ == addresses_index(file.units@, i as int),
            decreases file.units@.len() - i,
        {
            let unit = &file.units[i];
            let mut j: usize = 0;
            while j < unit.functions.len()
                invariant
                    j <= unit.functions@.len(),
                    functions@ == with_addresses(
                        addresses_index(file.units@, i as int),
                        unit.functions@,
                        j as int,
                    ),
                decreases unit.functions@.len() - j,
            {
                let function = &unit.functions[j];
                if let Some(low_pc) = function.low_pc {
                    functions.insert(low_pc, function);
                }
                j += 1;
            }
            i += 1;
        }
        functions
    }

    /// Returns a map from offset to function for all functions in the file.
    fn functions_by_offset(file: &'a File) -> (functions: HashMap<usize, &'a Function>)
        ensures
            functions@ == offsets_index(file.units@, file.units@.len() as int),
    {
        broadcast use group_hash_axioms;

        let mut functions: HashMap<usize, &'a Function> = HashMap::new();
        let mut i: usize = 0;
        while i < file.units.len()
            invariant
                i <= file.units@.len(),
                functions@ == offsets_index(file.units@, i as int),
            decreases file.units@.len() - i,
        {
            let unit = &file.units[i];
            let mut j: usize = 0;
            while j < unit.functions.len()
                invariant
                    j <= unit.functions@.len(),
                    functions@ == with_offsets(
                        offsets_index(file.units@, i as int),
                        unit.functions@,
                        j as int,
                    ),
                decreases unit.functions@.len() - j,
            {
                let function = &unit.functions[j];
                functions.insert(function.offset.0, function);
                j += 1;
            }
            i += 1;
        }
        functions
    }

    /// Returns a map from offset to type for all types in the file.
    fn types(file: &'a File) -> (types: HashMap<usize, &'a Type>)
        ensures
            types@ == types_index(file.units@, file.units@.len() as int),
    {
        broadcast use group_hash_axioms;

        let mut types: HashMap<usize, &'a Type> = HashMap::new();
        let mut i: usize = 0;
        while i < file.units.len()
            invariant
                i <= file.units@.len(),
                types@ == types_index(file.units@, i as int),
            decreases file.units@.len() - i,
        {
            let unit = &file.units[i];
            let mut j: usize = 0;
            while j < unit.types.len()
                invariant
                    j <= unit.types@.len(),
                    types@ == with_types(types_index(file.units@, i as int), unit.types@, j as int),
                decreases unit.types@.len() - j,
            {
                let ty = &unit.types[j];
                types.insert(ty.offset.0, ty);
                j += 1;
            }
            i += 1;
        }
        types
    }

    /// How many references from type to type are followed at most.
    pub fn fuel(&self) -> (fuel: usize)
        ensures
            fuel == self.depth(),
    {
        broadcast use group_hash_axioms;

        self.types.len()
    }

    /// The type at `offset`, where there is one.
    pub fn type_from_offset(&self, offset: TypeOffset) -> (ty: Option<&'a Type>)
        ensures
            ty == self.ty(Some(offset)),
    {
        broadcast use group_hash_axioms;

        match self.types.get(&offset.0) {
            Some(ty) => Some(*ty),
            None => None,
        }
    }

    /// The function at `offset`, where there is one.
    pub fn function_from_offset(&self, offset: crate::function::FunctionOffset) -> (function: Option<
        &'a Function,
    >)
        ensures
            function == self.function(Some(offset)),
    {
        broadcast use group_hash_axioms;

        match self.functions_by_offset.get(&offset.0) {
            Some(function) => Some(*function),
            None => None,
        }
    }

    /// The function at `address`, where there is one.
    pub fn function_from_address(&self, address: u64) -> (function: Option<&'a Function>)
        ensures
            function == self.function_at(address),
    {
        broadcast use group_hash_axioms;

        match self.functions_by_address.get(&address) {
            Some(function) => Some(*function),
            None => None,
        }
    }
}


/// Those of the first `n` units that the options ask for.
pub open spec fn kept_units<'a>(flags: &Flags, units: Seq<Unit>, n: int) -> Seq<&'a Unit>
    decreases n,
{
    if n <= 0 {
        Seq::empty()
    } else if flags.unit_matches(name_bytes(units[n - 1].name)) {
        kept_units(flags, units, n - 1).push(&units[n - 1])
    } else {
        kept_units(flags, units, n - 1)
    }
}

/// The cursor that a file is printed from.
pub open spec fn first_cursor(options: &Flags) -> Cursor {
    Cursor { indent: 0, prefix: DiffPrefix::Plain, inline_depth: options.inline_depth }
}

impl File {
    /// The units of the file that the options ask for.
    pub open spec fn listed_units<'a>(&self, flags: &Flags) -> Seq<&'a Unit> {
        kept_units(flags, self.units@, self.units@.len() as int)
    }

    /// Filter the list of units using the options in the flags.
    pub fn filter_units<'a>(&'a self, flags: &Flags) -> (units: Vec<&'a Unit>)
        ensures
            units@ == self.listed_units(flags),
    {
        let mut units: Vec<&'a Unit> = Vec::new();
        let mut i: usize = 0;
        while i < self.units.len()
            invariant
                i <= self.units@.len(),
                units@ == kept_units(flags, self.units@, i as int),
            decreases self.units@.len() - i,
        {
            if self.units[i].filter(flags) {
                units.push(&self.units[i]);
            }
            i += 1;
        }
        units
    }

    /// Prints the units of the file that the options ask for, in the order
    /// that the options ask for. Writes what `sort_list_out` gives for the
    /// units, unless printing fails.
    pub fn print(&self, w: &mut Vec<u8>, options: &Flags) -> (r: Result<(), Error>)
        ensures
            exists|hash: FileHash|
                {
                    let out = #[trigger] sort_list_out::<Unit>(
                        first_cursor(options),
                        &hash,
                        options,
                        &(),
                        self.listed_units(options),
                    );
                    &&& hash.file == self
                    &&& hash.wf()
                    &&& r is Ok == !out.failed
                    &&& r is Ok ==> final(w)@ == old(w)@ + out.bytes
                },
    {
        let hash = FileHash::new(self);
        let mut state = PrintState::new(self, &hash, options);
        let units = self.filter_units(options);
        let r = state.sort_list::<Unit>(w, &(), units.as_slice());
        proof {
            let out = sort_list_out::<Unit>(
                first_cursor(options),
                &hash,
                options,
                &(),
                self.listed_units(options),
            );
            assert(r is Ok == !out.failed);
        }
        r
    }

    /// Compares the units of two files that the options ask for. The units
    /// are merged by name; two units of the same name are compared, and
    /// printed where they differ; a unit that is in one file only is
    /// printed as removed or as added, unless such entries are to be left
    /// out.
    pub fn diff(w: &mut Vec<u8>, file_a: &File, file_b: &File, options: &Flags) -> (r: Result<
        (),
        Error,
    >)
        ensures
            exists|hash_a: FileHash, hash_b: FileHash, choice: Choice|
                {
                    let out = #[trigger] diff_sort_list_out::<Unit>(
                        Cursor2 { a: first_cursor(options), b: first_cursor(options) },
                        &hash_a,
                        &hash_b,
                        options,
                        &(),
                        file_a.listed_units(options),
                        &(),
                        file_b.listed_units(options),
                        choice,
                    );
                    &&& hash_a.file == file_a
                    &&& hash_a.wf()
                    &&& hash_b.file == file_b
                    &&& hash_b.wf()
                    &&& out.valid
                    &&& r is Ok == !out.failed
                    &&& r is Ok ==> final(w)@ == old(w)@ + out.bytes
                },
    {
        let hash_a = FileHash::new(file_a);
        let hash_b = FileHash::new(file_b);
        let mut state = DiffState::new(file_a, &hash_a, file_b, &hash_b, options);
        let ghost s0 = state;
        let units_a = file_a.filter_units(options);
        let units_b = file_b.filter_units(options);
        let r = state.sort_list::<Unit>(w, &(), units_a.as_slice(), &(), units_b.as_slice());
        proof {
            let cx = Cursor2 { a: first_cursor(options), b: first_cursor(options) };
            let choice = choose|choice: Choice|
                chosen(
                    #[trigger] diff_sort_list_out::<Unit>(
                        cx,
                        &hash_a,
                        &hash_b,
                        options,
                        &(),
                        file_a.listed_units(options),
                        &(),
                        file_b.listed_units(options),
                        choice,
                    ),
                    s0,
                    old(w)@,
                    state,
                    w@,
                    r is Ok,
                );
            let out = diff_sort_list_out::<Unit>(
                cx,
                &hash_a,
                &hash_b,
                options,
                &(),
                file_a.listed_units(options),
                &(),
                file_b.listed_units(options),
                choice,
            );
            assert(out.valid && (r is Ok == !out.failed));
        }
        r
    }
}

/// Prints a file. See `File::print`.
pub fn print_file(w: &mut Vec<u8>, file: &File, flags: &Flags) -> (r: Result<(), Error>)
    ensures
        exists|hash: FileHash|
            {
                let out = #[trigger] sort_list_out::<Unit>(
                    first_cursor(flags),
                    &hash,
                    flags,
                    &(),
                    file.listed_units(flags),
                );
                &&& hash.file == file
                &&& hash.wf()
                &&& r is Ok == !out.failed
                &&& r is Ok ==> final(w)@ == old(w)@ + out.bytes
            },
{
    file.print(w, flags)
}

/// Compares two files. See `File::diff`.
pub fn diff_file(w: &mut Vec<u8>, file_a: &File, file_b: &File, flags: &Flags) -> (r: Result<
    (),
    Error,
>)
    ensures
        exists|hash_a: FileHash, hash_b: FileHash, choice: Choice|
            {
                let out = #[trigger] diff_sort_list_out::<Unit>(
                    Cursor2 { a: first_cursor(flags), b: first_cursor(flags) },
                    &hash_a,
                    &hash_b,
                    flags,
                    &(),
                    file_a.listed_units(flags),
                    &(),
                    file_b.listed_units(flags),
                    choice,
                );
                &&& hash_a.file == file_a
                &&& hash_a.wf()
                &&& hash_b.file == file_b
                &&& hash_b.wf()
                &&& out.valid
                &&& r is Ok == !out.failed
                &&& r is Ok ==> final(w)@ == old(w)@ + out.bytes
            },
{
    File::diff(w, file_a, file_b, flags)
}

} // verus!
