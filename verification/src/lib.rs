//! Structural printing and diffing of debugging information.
//!
//! The crate renders trees of units, types, functions and variables as
//! indented text, and compares two such trees entry by entry. Entries that
//! are found by identity are correlated with a sorted merge, entries whose
//! order matters are correlated with a least-cost alignment, and a compared
//! entry is written only where one of its lines differs.
use vstd::prelude::*;
use vstd::string::StringSliceAdditionalSpecFns;

pub mod seqs;
pub mod text;
pub mod order;
pub mod heap;
pub mod path;
pub mod grid;
pub mod merge;
pub mod sort;
pub mod namespace;
pub mod types;
pub mod function;
pub mod variable;
pub mod unit;
pub mod file;
pub mod print;
pub mod list;
pub mod identity;
pub mod members;
pub mod type_print;
pub mod type_diff;
pub mod entries;
pub mod section;
pub mod symbols;
pub mod html;
pub mod laws;

pub use file::{diff_file, print_file, File, FileHash};
pub use html::HtmlPrinter;
pub use path::{shortest_path, Direction};
pub use print::{DiffState, PrintState};
pub use unit::Unit;
pub use variable::{LocalVariable, Variable, VariableOffset};

verus! {

/// Why an entry could not be printed or compared.
#[derive(Debug)]
pub struct Error(pub String);

impl Error {
    /// An error with the message `message`.
    pub fn new(message: &str) -> (error: Error)
        ensures
            error.0@ == message@,
    {
        Error(message.to_string())
    }

    /// The message of the error.
    pub fn description(&self) -> (message: &str)
        ensures
            message@ == self.0@,
    {
        self.0.as_str()
    }

    /// The message of the error, as an error is shown.
    pub fn message(&self) -> (message: String)
        ensures
            message@ == self.0@,
    {
        self.0.clone()
    }
}

impl From<String> for Error {
    fn from(s: String) -> (error: Error) {
        Error(s)
    }
}

impl vstd::std_specs::convert::FromSpecImpl<String> for Error {
    open spec fn obeys_from_spec() -> bool {
        true
    }

    open spec fn from_spec(s: String) -> Error {
        Error(s)
    }
}

/// The order in which entries are printed.
#[derive(Debug, Clone, Copy, PartialEq, Eq, Structural)]
pub enum Sort {
    /// The order in which the entries are found.
    Unsorted,
    /// By namespace and name.
    Name,
    /// By size.
    Size,
}

impl Sort {
    /// The order to use: when two files are compared, entries are always in
    /// the order of their names.
    pub fn with_diff(self, diff: bool) -> (sort: Sort)
        ensures
            sort == (if diff {
                Sort::Name
            } else {
                self
            }),
    {
        if diff {
            Sort::Name
        } else {
            self
        }
    }
}

impl Default for Sort {
    fn default() -> (sort: Sort)
        ensures
            sort == Sort::Unsorted,
    {
        Sort::Unsorted
    }
}

/// What to print, and what to leave out.
#[derive(Debug, Clone)]
pub struct Flags<'a> {
    /// Print the calls that a function makes.
    pub calls: bool,
    /// Print the local variables of a function.
    pub function_variables: bool,
    pub sort: Sort,
    /// Leave out the entries that only the second file has.
    pub ignore_added: bool,
    /// Leave out the entries that only the first file has.
    pub ignore_deleted: bool,
    pub ignore_function_address: bool,
    pub ignore_function_size: bool,
    pub ignore_function_inline: bool,
    pub ignore_variable_address: bool,
    /// How many levels of inlined calls to print.
    pub inline_depth: usize,
    /// Print only the unit of this name.
    pub unit: Option<&'a str>,
    /// Print only the entries of this name.
    pub name: Option<&'a str>,
    /// Print only the entries within this namespace.
    pub namespace: Vec<&'a str>,
}

impl<'a> Default for Flags<'a> {
    fn default() -> (flags: Flags<'a>)
        ensures
            flags.is_plain(),
    {
        Flags {
            calls: false,
            function_variables: false,
            sort: Sort::Unsorted,
            ignore_added: false,
            ignore_deleted: false,
            ignore_function_address: false,
            ignore_function_size: false,
            ignore_function_inline: false,
            ignore_variable_address: false,
            inline_depth: 0,
            unit: None,
            name: None,
            namespace: Vec::new(),
        }
    }
}

/// Whether `name` is the name `filter`.
pub open spec fn name_matches(name: Option<Seq<u8>>, filter: &str) -> bool {
    name == Some(filter.spec_bytes())
}

/// Whether `name` is the name `filter`.
pub fn filter_name(name: Option<&[u8]>, filter: &str) -> (found: bool)
    ensures
        found == match name {
            Some(name) => name@ == filter.spec_bytes(),
            None => false,
        },
{
    match name {
        Some(name) => crate::text::bytes_eq(name, filter.as_bytes()),
        None => false,
    }
}

/// Keeps the value of `o` where `f` holds of it.
pub fn filter_option<T, F>(o: Option<T>, f: F) -> (kept: Option<T>) where T: Copy, F: FnOnce(T) -> bool
    requires
        o is Some ==> call_requires(f, (o->Some_0,)),
    ensures
        o is None ==> kept is None,
        o is Some ==> exists|keep: bool|
            #[trigger] call_ensures(f, (o->Some_0,), keep) && kept == (if keep {
                o
            } else {
                None
            }),
{
    match o {
        Some(v) => if f(v) {
            Some(v)
        } else {
            None
        },
        None => None,
    }
}

impl<'a> Flags<'a> {
    /// Whether these are the flags that print everything in the order in
    /// which it is found, without inlined calls.
    pub open spec fn is_plain(&self) -> bool {
        &&& !self.calls
        &&& !self.function_variables
        &&& self.sort == Sort::Unsorted
        &&& !self.ignore_added
        &&& !self.ignore_deleted
        &&& !self.ignore_function_address
        &&& !self.ignore_function_size
        &&& !self.ignore_function_inline
        &&& !self.ignore_variable_address
        &&& self.inline_depth == 0
        &&& self.unit is None
        &&& self.name is None
        &&& self.namespace@.len() == 0
    }

    /// Sets the unit to print.
    pub fn unit(&mut self, unit: &'a str) -> (flags: &mut Self)
        ensures
            *flags == (Flags { unit: Some(unit), ..*old(self) }),
            *final(self) == *final(flags),
    {
        self.unit = Some(unit);
        self
    }

    /// Sets the name of the entries to print.
    pub fn name(&mut self, name: &'a str) -> (flags: &mut Self)
        ensures
            *flags == (Flags { name: Some(name), ..*old(self) }),
            *final(self) == *final(flags),
    {
        self.name = Some(name);
        self
    }

    /// Whether a unit of the name `unit` is to be printed.
    pub open spec fn unit_matches(&self, unit: Option<Seq<u8>>) -> bool {
        match self.unit {
            Some(filter) => name_matches(unit, filter),
            None => true,
        }
    }

    /// Whether an entry of the name `name` is to be printed, as far as its
    /// name goes.
    pub open spec fn entry_matches(&self, name: Option<Seq<u8>>) -> bool {
        match self.name {
            Some(filter) => name_matches(name, filter),
            None => true,
        }
    }

    /// Whether a unit of the name `unit` is to be printed.
    pub fn filter_unit(&self, unit: Option<&[u8]>) -> (found: bool)
        ensures
            found == self.unit_matches(
                match unit {
                    Some(unit) => Some(unit@),
                    None => None,
                },
            ),
    {
        if let Some(filter) = self.unit {
            filter_name(unit, filter)
        } else {
            true
        }
    }

    /// Whether an entry of the name `name` is to be printed, as far as its
    /// name goes.
    pub fn filter_name(&self, name: Option<&[u8]>) -> (found: bool)
        ensures
            found == self.entry_matches(
                match name {
                    Some(name) => Some(name@),
                    None => None,
                },
            ),
    {
        if let Some(filter) = self.name {
            filter_name(name, filter)
        } else {
            true
        }
    }
}

} // verus!
