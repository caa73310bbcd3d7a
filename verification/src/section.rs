//! The sections and the symbols of a file.
use vstd::prelude::*;
use vstd::string::StringSliceAdditionalSpecFns;
use crate::file::{FileHash, Section, Symbol, SymbolType};
use crate::function::{address_line, address_text};
use crate::identity::{section_pair, symbol_pair};
use crate::list::{chosen, Choice, DiffList, Print};
use crate::namespace::{name_text, print_name};
use crate::print::{
    diffed, labelled, lemma_diffed_and, lemma_printed_and, line_option_out, line_out, pair_out,
    printed, Cursor, Cursor2, DiffState, Out, Out2, PrintState,
};
use crate::seqs::group_bytes;
use crate::text::{put, put_str, put_u64};
use crate::variable::{name_of, range_of, Range};
use crate::{Error, Flags};

verus! {

/// The line of a section: its segment, where it has one, and its name.
pub open spec fn section_text(s: &Section) -> Seq<u8> {
    (match s.segment {
        Some(segment) => segment@ + ",".spec_bytes(),
        None => Seq::empty(),
    }) + name_text(s.name, "<anon-section>")
}

/// The line of a symbol: what it names, and its name.
pub open spec fn symbol_text(s: &Symbol) -> Seq<u8> {
    (match s.ty {
        SymbolType::Variable => "var ".spec_bytes(),
        SymbolType::Function => "fn ".spec_bytes(),
    }) + name_text(s.name, "<anon>")
}

/// The line of the addresses of a range.
pub open spec fn range_text(range: Option<Range>) -> Seq<u8> {
    match range {
        Some(range) => address_text(Some(range.begin), Some(range.end)),
        None => Seq::empty(),
    }
}

/// Gives the line of the addresses of a range.
pub fn range_line(range: Option<Range>) -> (text: Vec<u8>)
    ensures
        text@ == range_text(range),
{
    match range {
        Some(range) => address_line(Some(range.begin), Some(range.end)),
        None => Vec::new(),
    }
}

/// Gives the line of a size.
pub fn labelled_line(label: &str, value: u64) -> (text: Vec<u8>)
    ensures
        text@ == labelled(label, value),
{
    broadcast use group_bytes;

    let mut text: Vec<u8> = Vec::new();
    put_str(&mut text, label);
    put_str(&mut text, ": ");
    put_u64(&mut text, value);
    text
}

impl Section {
    /// The name of the section.
    pub fn name(&self) -> (name: Option<&[u8]>)
        ensures
            match name {
                Some(name) => self.name is Some && name@ == self.name->Some_0@,
                None => self.name is None,
            },
    {
        name_of(&self.name)
    }

    /// The name of the segment that the section lies in.
    pub fn segment(&self) -> (name: Option<&[u8]>)
        ensures
            match name {
                Some(name) => self.segment is Some && name@ == self.segment->Some_0@,
                None => self.segment is None,
            },
    {
        name_of(&self.segment)
    }

    /// The addresses of the section, where it has an address.
    pub fn address(&self) -> (range: Option<Range>)
        ensures
            range == range_of(self.address, Some(self.size)),
    {
        match self.address {
            Some(address) => match address.checked_add(self.size) {
                Some(end) => Some(Range { begin: address, end }),
                None => None,
            },
            None => None,
        }
    }

    /// Writes the name of the section, behind that of its segment.
    pub fn print_name(&self, w: &mut Vec<u8>)
        ensures
            final(w)@ == old(w)@ + section_text(self),
    {
        broadcast use group_bytes;

        if let Some(segment) = self.segment() {
            put(w, segment);
            put_str(w, ",");
        }
        print_name(w, &self.name, "<anon-section>");
    }

    /// Writes the line of the addresses of the section.
    pub fn print_address(&self, w: &mut Vec<u8>)
        ensures
            final(w)@ == old(w)@ + range_text(range_of(self.address, Some(self.size))),
    {
        let text = range_line(self.address());
        put(w, text.as_slice());
    }

    /// Gives the line of the section.
    pub fn line(&self) -> (text: Vec<u8>)
        ensures
            text@ == section_text(self),
    {
        let mut text: Vec<u8> = Vec::new();
        proof {
            assert(text@ + section_text(self) =~= section_text(self));
        }
        self.print_name(&mut text);
        text
    }
}

impl Symbol {
    /// The name of the symbol.
    pub fn name(&self) -> (name: Option<&[u8]>)
        ensures
            match name {
                Some(name) => self.name is Some && name@ == self.name->Some_0@,
                None => self.name is None,
            },
    {
        name_of(&self.name)
    }

    /// The addresses of what the symbol names.
    pub fn address(&self) -> (range: Option<Range>)
        ensures
            range == range_of(Some(self.address), Some(self.size)),
    {
        match self.address.checked_add(self.size) {
            Some(end) => Some(Range { begin: self.address, end }),
            None => None,
        }
    }

    /// Writes what the symbol names, and its name.
    pub fn print_name(&self, w: &mut Vec<u8>)
        ensures
            final(w)@ == old(w)@ + symbol_text(self),
    {
        broadcast use group_bytes;

        match self.ty {
            SymbolType::Variable => put_str(w, "var "),
            SymbolType::Function => put_str(w, "fn "),
        }
        print_name(w, &self.name, "<anon>");
    }

    /// Writes the line of the addresses of the symbol.
    pub fn print_address(&self, w: &mut Vec<u8>)
        ensures
            final(w)@ == old(w)@ + range_text(range_of(Some(self.address), Some(self.size))),
    {
        let text = range_line(self.address());
        put(w, text.as_slice());
    }

    /// Gives the line of the symbol.
    pub fn line(&self) -> (text: Vec<u8>)
        ensures
            text@ == symbol_text(self),
    {
        let mut text: Vec<u8> = Vec::new();
        proof {
            assert(text@ + symbol_text(self) =~= symbol_text(self));
        }
        self.print_name(&mut text);
        text
    }
}

/// Printing an entry of a file: its line, and one level further in its
/// addresses and its size.
pub open spec fn placed_out(cx: Cursor, text: Seq<u8>, range: Option<Range>, size: u64) -> Out {
    line_out(cx, text).and(line_option_out(cx.deeper(), range_text(range))).and(
        line_out(cx.deeper(), labelled("size", size)),
    )
}

/// Comparing two entries of two files: their lines, and one level further
/// in their addresses and their sizes.
pub open spec fn placed_diff_out(
    cx: Cursor2,
    text_a: Seq<u8>,
    range_a: Option<Range>,
    size_a: u64,
    text_b: Seq<u8>,
    range_b: Option<Range>,
    size_b: u64,
) -> Out2 {
    pair_out(cx, text_a, text_b).and(pair_out(cx.deeper(), range_text(range_a), range_text(range_b))).and(
        pair_out(cx.deeper(), labelled("size", size_a), labelled("size", size_b)),
    )
}

/// Prints an entry of a file.
fn print_placed(w: &mut Vec<u8>, state: &mut PrintState, text: &[u8], range: Option<Range>, size: u64)
    ensures
        printed(
            *old(state),
            old(w)@,
            *final(state),
            final(w)@,
            true,
            placed_out(old(state).cursor(), text@, range, size),
        ),
{
    let ghost cx = state.cursor();
    let ghost w0 = w@;
    state.line(w, text);
    let ghost start = PrintState { indent: cx.deeper().indent, ..*old(state) };
    let ghost o1 = line_out(cx, text@);
    let before = state.indent_begin();
    let address = range_line(range);
    state.line_option_then(w, address.as_slice(), Ghost(start), Ghost(w0), Ghost(o1));
    let ghost o2 = o1.and(line_option_out(cx.deeper(), range_text(range)));
    let line = labelled_line("size", size);
    state.line_then(w, line.as_slice(), Ghost(start), Ghost(w0), Ghost(o2));
    state.indent_end(before);
}

/// Compares two entries of two files.
fn diff_placed(
    w: &mut Vec<u8>,
    state: &mut DiffState,
    text_a: &[u8],
    range_a: Option<Range>,
    size_a: u64,
    text_b: &[u8],
    range_b: Option<Range>,
    size_b: u64,
)
    ensures
        diffed(
            *old(state),
            old(w)@,
            *final(state),
            final(w)@,
            true,
            placed_diff_out(old(state).cursor(), text_a@, range_a, size_a, text_b@, range_b, size_b),
        ),
{
    let ghost cx = state.cursor();
    state.line(w, text_a, text_b);
    let ghost s1 = *state;
    let ghost w1 = w@;
    let before = state.indent_begin();
    let ghost s1d = *state;
    let address_a = range_line(range_a);
    let address_b = range_line(range_b);
    state.line_option(w, address_a.as_slice(), address_b.as_slice());
    let ghost s2 = *state;
    let ghost w2 = w@;
    let line_a = labelled_line("size", size_a);
    let line_b = labelled_line("size", size_b);
    state.line(w, line_a.as_slice(), line_b.as_slice());
    let ghost s3 = *state;
    state.indent_end(before);
    proof {
        let o1 = pair_out(cx, text_a@, text_b@);
        let o2 = pair_out(cx.deeper(), range_text(range_a), range_text(range_b));
        let o3 = pair_out(cx.deeper(), labelled("size", size_a), labelled("size", size_b));
        let start = DiffState {
            a: PrintState { indent: cx.a.deeper().indent, ..old(state).a },
            b: PrintState { indent: cx.b.deeper().indent, ..old(state).b },
            ..*old(state)
        };
        assert(diffed(start, old(w)@, s1d, w1, true, o1));
        lemma_diffed_and(start, old(w)@, s1d, w1, s2, w2, true, o1, o2);
        lemma_diffed_and(start, old(w)@, s2, w2, s3, w@, true, o1.and(o2), o3);
    }
}

impl Print for Section {
    type Arg = ();

    open spec fn print_out(&self, cx: Cursor, hash: &FileHash, options: &Flags, arg: &()) -> Out {
        placed_out(cx, section_text(self), range_of(self.address, Some(self.size)), self.size)
    }

    fn print(&self, w: &mut Vec<u8>, state: &mut PrintState, arg: &()) -> (r: Result<(), Error>) {
        let text = self.line();
        print_placed(w, state, text.as_slice(), self.address(), self.size);
        Ok(())
    }

    open spec fn diff_out(
        cx: Cursor2,
        hash_a: &FileHash,
        hash_b: &FileHash,
        options: &Flags,
        arg_a: &(),
        a: &Section,
        arg_b: &(),
        b: &Section,
        choice: Choice,
    ) -> Out2 {
        placed_diff_out(
            cx,
            section_text(a),
            range_of(a.address, Some(a.size)),
            a.size,
            section_text(b),
            range_of(b.address, Some(b.size)),
            b.size,
        )
    }

    fn diff(
        w: &mut Vec<u8>,
        state: &mut DiffState,
        arg_a: &(),
        a: &Section,
        arg_b: &(),
        b: &Section,
    ) -> (r: Result<(), Error>) {
        let text_a = a.line();
        let text_b = b.line();
        diff_placed(
            w,
            state,
            text_a.as_slice(),
            a.address(),
            a.size,
            text_b.as_slice(),
            b.address(),
            b.size,
        );
        proof {
            let choice = Choice { script: Seq::empty(), subs: Seq::empty() };
            assert(chosen(
                Self::diff_out(
                    old(state).cursor(),
                    old(state).a.hash,
                    old(state).b.hash,
                    old(state).options,
                    arg_a,
                    a,
                    arg_b,
                    b,
                    choice,
                ),
                *old(state),
                old(w)@,
                *state,
                w@,
                true,
            ));
        }
        Ok(())
    }
}

impl DiffList for Section {
    open spec fn step(&self, hash: &FileHash, arg: &()) -> nat {
        1
    }

    fn step_cost(&self, hash: &FileHash, arg: &()) -> (cost: usize) {
        1
    }

    open spec fn pair(
        hash_a: &FileHash,
        arg_a: &(),
        a: &Section,
        hash_b: &FileHash,
        arg_b: &(),
        b: &Section,
    ) -> nat {
        section_pair(a, b)
    }

    fn diff_cost(
        hash_a: &FileHash,
        arg_a: &(),
        a: &Section,
        hash_b: &FileHash,
        arg_b: &(),
        b: &Section,
    ) -> (cost: usize) {
        Section::diff_cost(a, b)
    }
}

impl Print for Symbol {
    type Arg = ();

    open spec fn print_out(&self, cx: Cursor, hash: &FileHash, options: &Flags, arg: &()) -> Out {
        placed_out(cx, symbol_text(self), range_of(Some(self.address), Some(self.size)), self.size)
    }

    fn print(&self, w: &mut Vec<u8>, state: &mut PrintState, arg: &()) -> (r: Result<(), Error>) {
        let text = self.line();
        print_placed(w, state, text.as_slice(), self.address(), self.size);
        Ok(())
    }

    open spec fn diff_out(
        cx: Cursor2,
        hash_a: &FileHash,
        hash_b: &FileHash,
        options: &Flags,
        arg_a: &(),
        a: &Symbol,
        arg_b: &(),
        b: &Symbol,
        choice: Choice,
    ) -> Out2 {
        placed_diff_out(
            cx,
            symbol_text(a),
            range_of(Some(a.address), Some(a.size)),
            a.size,
            symbol_text(b),
            range_of(Some(b.address), Some(b.size)),
            b.size,
        )
    }

    fn diff(w: &mut Vec<u8>, state: &mut DiffState, arg_a: &(), a: &Symbol, arg_b: &(), b: &Symbol) -> (r:
        Result<(), Error>) {
        let text_a = a.line();
        let text_b = b.line();
        diff_placed(
            w,
            state,
            text_a.as_slice(),
            a.address(),
            a.size,
            text_b.as_slice(),
            b.address(),
            b.size,
        );
        proof {
            let choice = Choice { script: Seq::empty(), subs: Seq::empty() };
            assert(chosen(
                Self::diff_out(
                    old(state).cursor(),
                    old(state).a.hash,
                    old(state).b.hash,
                    old(state).options,
                    arg_a,
                    a,
                    arg_b,
                    b,
                    choice,
                ),
                *old(state),
                old(w)@,
                *state,
                w@,
                true,
            ));
        }
        Ok(())
    }
}

impl DiffList for Symbol {
    open spec fn step(&self, hash: &FileHash, arg: &()) -> nat {
        1
    }

    fn step_cost(&self, hash: &FileHash, arg: &()) -> (cost: usize) {
        1
    }

    open spec fn pair(
        hash_a: &FileHash,
        arg_a: &(),
        a: &Symbol,
        hash_b: &FileHash,
        arg_b: &(),
        b: &Symbol,
    ) -> nat {
        symbol_pair(a, b)
    }

    fn diff_cost(
        hash_a: &FileHash,
        arg_a: &(),
        a: &Symbol,
        hash_b: &FileHash,
        arg_b: &(),
        b: &Symbol,
    ) -> (cost: usize) {
        Symbol::diff_cost(a, b)
    }
}

} // verus!
