//! The cursors that entries are printed through.
//!
//! A `PrintState` prints the entries of one file: it holds the indentation
//! and the mark that each line begins with, and remembers whether a line
//! was printed as removed or added. A `DiffState` is a pair of them, one
//! for each of two files that are compared.
use vstd::prelude::*;
use vstd::string::StringSliceAdditionalSpecFns;
use crate::file::{File, FileHash};
use crate::seqs::group_bytes;
use crate::text::{decimal, explicit_decimal, put, put_change, put_str, put_u64};
use crate::Flags;

verus! {

/// The mark that a line begins with.
#[derive(Debug, Clone, Copy, PartialEq, Eq, Structural)]
pub enum DiffPrefix {
    /// No mark: the line is not part of a comparison.
    Plain,
    /// The line is the same in both files.
    Equal,
    /// The line is in the first file only.
    Less,
    /// The line is in the second file only.
    Greater,
}

/// Where a printer stands: how far lines are indented, the mark that they
/// begin with, and how many levels of inlined calls may still be entered.
pub struct Cursor {
    pub indent: usize,
    pub prefix: DiffPrefix,
    pub inline_depth: usize,
}

impl Cursor {
    /// The cursor one level further in.
    pub open spec fn deeper(self) -> Cursor {
        Cursor {
            indent: if self.indent < usize::MAX {
                (self.indent + 1) as usize
            } else {
                self.indent
            },
            ..self
        }
    }

    /// The cursor with another mark.
    pub open spec fn marked(self, prefix: DiffPrefix) -> Cursor {
        Cursor { prefix, ..self }
    }

    /// The cursor within one more level of inlined calls.
    pub open spec fn inlined(self) -> Cursor {
        Cursor { inline_depth: (self.inline_depth - 1) as usize, ..self }
    }
}

/// What printing does: the bytes it writes, whether any line of them is
/// marked as removed or added, and whether it fails.
pub struct Out {
    pub bytes: Seq<u8>,
    pub changed: bool,
    pub failed: bool,
}

impl Out {
    /// No output.
    pub open spec fn nothing() -> Out {
        Out { bytes: Seq::empty(), changed: false, failed: false }
    }

    /// The output of a step that failed.
    pub open spec fn failure() -> Out {
        Out { bytes: Seq::empty(), changed: false, failed: true }
    }

    /// Printing `self`, then `after`.
    pub open spec fn and(self, after: Out) -> Out {
        Out {
            bytes: self.bytes + after.bytes,
            changed: self.changed || after.changed,
            failed: self.failed || after.failed,
        }
    }
}

/// The bytes of the mark `prefix`.
pub open spec fn marker(prefix: DiffPrefix) -> Seq<u8> {
    match prefix {
        DiffPrefix::Plain => Seq::empty(),
        DiffPrefix::Equal => "  ".spec_bytes(),
        DiffPrefix::Less => "- ".spec_bytes(),
        DiffPrefix::Greater => "+ ".spec_bytes(),
    }
}

/// `n` tab stops.
pub open spec fn tabs(n: nat) -> Seq<u8> {
    Seq::new(n, |i: int| 9u8)
}

/// A line: the mark, the indentation, the body and a line feed.
pub open spec fn line_bytes(prefix: DiffPrefix, indent: nat, body: Seq<u8>) -> Seq<u8> {
    marker(prefix) + tabs(indent) + body + seq![10u8]
}

/// Printing one line at a cursor.
pub open spec fn line_out(cx: Cursor, body: Seq<u8>) -> Out {
    Out {
        bytes: line_bytes(cx.prefix, cx.indent as nat, body),
        changed: cx.prefix == DiffPrefix::Less || cx.prefix == DiffPrefix::Greater,
        failed: false,
    }
}

/// Printing one line at a cursor, where there is anything to print.
pub open spec fn line_option_out(cx: Cursor, body: Seq<u8>) -> Out {
    if body.len() == 0 {
        Out::nothing()
    } else {
        line_out(cx, body)
    }
}

/// The text of a labelled number.
pub open spec fn labelled(label: &str, value: u64) -> Seq<u8> {
    label.spec_bytes() + ": ".spec_bytes() + decimal(value as nat)
}

/// The cursor of one file.
pub struct PrintState<'a> {
    pub indent: usize,
    pub prefix: DiffPrefix,
    /// Whether a line was printed with the mark `Less` or `Greater`.
    pub diff: bool,
    pub inline_depth: usize,
    pub file: &'a File,
    pub hash: &'a FileHash<'a>,
    pub options: &'a Flags<'a>,
}

/// Whether printing took the state `s0` and the output `w0` to `s1` and
/// `w1` as `out` says: where it does not fail, the bytes of `out` are added
/// to the output, and it is remembered whether a line was marked as removed
/// or added. The cursor is where it was, however printing ends.
pub open spec fn printed(
    s0: PrintState,
    w0: Seq<u8>,
    s1: PrintState,
    w1: Seq<u8>,
    ok: bool,
    out: Out,
) -> bool {
    &&& s1.cursor() == s0.cursor()
    &&& s1.file == s0.file
    &&& s1.hash == s0.hash
    &&& s1.options == s0.options
    &&& ok == !out.failed
    &&& ok ==> w1 == w0 + out.bytes && s1.diff == (s0.diff || out.changed)
}

impl<'a> PrintState<'a> {
    /// Where the cursor stands.
    pub open spec fn cursor(&self) -> Cursor {
        Cursor { indent: self.indent, prefix: self.prefix, inline_depth: self.inline_depth }
    }

    /// A cursor at the start of a line, for printing the entries of `file`.
    pub fn new(file: &'a File, hash: &'a FileHash<'a>, options: &'a Flags<'a>) -> (state: Self)
        ensures
            state.cursor() == (Cursor {
                indent: 0,
                prefix: DiffPrefix::Plain,
                inline_depth: options.inline_depth,
            }),
            !state.diff,
            state.file == file,
            state.hash == hash,
            state.options == options,
    {
        PrintState {
            indent: 0,
            prefix: DiffPrefix::Plain,
            diff: false,
            inline_depth: options.inline_depth,
            file: file,
            hash: hash,
            options: options,
        }
    }

    /// Goes one level further in, and says how far lines were indented
    /// before.
    pub fn indent_begin(&mut self) -> (before: usize)
        ensures
            before == old(self).indent,
            *final(self) == (PrintState { indent: old(self).cursor().deeper().indent, ..*old(self) }),
            final(self).cursor() == old(self).cursor().deeper(),
    {
        let before = self.indent;
        if self.indent < usize::MAX {
            self.indent += 1;
        }
        before
    }

    /// Goes back to the indentation `before`.
    pub fn indent_end(&mut self, before: usize)
        ensures
            *final(self) == (PrintState { indent: before, ..*old(self) }),
    {
        self.indent = before;
    }

    /// Enters one more level of inlined calls, if any may still be entered,
    /// and says how many could be entered before, if it did.
    pub fn inline_begin(&mut self) -> (before: Option<usize>)
        ensures
            before is Some <==> old(self).inline_depth > 0,
            before is Some ==> before == Some(old(self).inline_depth),
            before is Some ==> *final(self) == (PrintState {
                inline_depth: old(self).cursor().inlined().inline_depth,
                ..*old(self)
            }),
            before is Some ==> final(self).cursor() == old(self).cursor().inlined(),
            before is None ==> *final(self) == *old(self),
    {
        if self.inline_depth == 0 {
            return None;
        }
        let before = self.inline_depth;
        self.inline_depth -= 1;
        Some(before)
    }

    /// Leaves a level of inlined calls: as many can be entered again as
    /// `before`.
    pub fn inline_end(&mut self, before: usize)
        ensures
            *final(self) == (PrintState { inline_depth: before, ..*old(self) }),
    {
        self.inline_depth = before;
    }

    /// Sets the mark that lines begin with, and says what it was before.
    pub fn prefix_begin(&mut self, prefix: DiffPrefix) -> (before: DiffPrefix)
        ensures
            before == old(self).prefix,
            *final(self) == (PrintState { prefix, ..*old(self) }),
            final(self).cursor() == old(self).cursor().marked(prefix),
    {
        let before = self.prefix;
        self.prefix = prefix;
        before
    }

    /// Goes back to the mark `before`.
    pub fn prefix_end(&mut self, before: DiffPrefix)
        ensures
            *final(self) == (PrintState { prefix: before, ..*old(self) }),
    {
        self.prefix = before;
    }

    /// Prints a line: the mark, the indentation, `body` and a line feed.
    /// Remembers it if the mark is `Less` or `Greater`.
    pub fn line(&mut self, w: &mut Vec<u8>, body: &[u8])
        ensures
            printed(*old(self), old(w)@, *final(self), final(w)@, true, line_out(old(self).cursor(), body@)),
    {
        broadcast use group_bytes;

        match self.prefix {
            DiffPrefix::Plain => {},
            DiffPrefix::Equal => {
                put_str(w, "  ");
            },
            DiffPrefix::Less => {
                put_str(w, "- ");
                self.diff = true;
            },
            DiffPrefix::Greater => {
                put_str(w, "+ ");
                self.diff = true;
            },
        }
        let ghost marked = w@;
        let mut i: usize = 0;
        while i < self.indent
            invariant
                i <= self.indent,
                w@ == marked + tabs(i as nat),
            decreases self.indent - i,
        {
            w.push(9u8);
            assert(tabs((i + 1) as nat) =~= tabs(i as nat).push(9u8));
            assert(w@ =~= marked + tabs((i + 1) as nat));
            i += 1;
        }
        put(w, body);
        w.push(10u8);
        assert(w@ =~= old(w)@ + line_bytes(old(self).prefix, old(self).indent as nat, body@));
    }

    /// Prints a line, where there is anything to print.
    pub fn line_option(&mut self, w: &mut Vec<u8>, body: &[u8])
        ensures
            printed(
                *old(self),
                old(w)@,
                *final(self),
                final(w)@,
                true,
                line_option_out(old(self).cursor(), body@),
            ),
    {
        broadcast use group_bytes;

        if body.len() != 0 {
            self.line(w, body);
        }
    }

    /// Prints a line with a label and a number, where there is a number.
    pub fn line_option_u64(&mut self, w: &mut Vec<u8>, label: &str, arg: Option<u64>)
        ensures
            printed(
                *old(self),
                old(w)@,
                *final(self),
                final(w)@,
                true,
                match arg {
                    Some(value) => line_out(old(self).cursor(), labelled(label, value)),
                    None => Out::nothing(),
                },
            ),
    {
        broadcast use group_bytes;

        if let Some(arg) = arg {
            let mut buf: Vec<u8> = Vec::new();
            put_str(&mut buf, label);
            put_str(&mut buf, ": ");
            put_u64(&mut buf, arg);
            self.line(w, buf.as_slice());
        }
    }
}

/// Where the printers of a comparison stand.
pub struct Cursor2 {
    pub a: Cursor,
    pub b: Cursor,
}

impl Cursor2 {
    /// The cursors one level further in.
    pub open spec fn deeper(self) -> Cursor2 {
        Cursor2 { a: self.a.deeper(), b: self.b.deeper() }
    }

    /// The cursors with the marks `a` and `b`.
    pub open spec fn marked(self, a: DiffPrefix, b: DiffPrefix) -> Cursor2 {
        Cursor2 { a: self.a.marked(a), b: self.b.marked(b) }
    }

    /// The cursors one inlined call further in.
    pub open spec fn inlined(self) -> Cursor2 {
        Cursor2 { a: self.a.inlined(), b: self.b.inlined() }
    }
}

/// What comparing does: the bytes it writes, whether any line that is
/// marked as removed (`a`) or as added (`b`) was printed, kept or not, and
/// whether it fails. `valid` says whether the choices that the bytes depend
/// on are ones that could be made.
pub struct Out2 {
    pub bytes: Seq<u8>,
    pub a: bool,
    pub b: bool,
    pub failed: bool,
    pub valid: bool,
}

impl Out2 {
    /// No output.
    pub open spec fn nothing() -> Out2 {
        Out2 { bytes: Seq::empty(), a: false, b: false, failed: false, valid: true }
    }

    /// The output of a step that failed.
    pub open spec fn failure() -> Out2 {
        Out2 { bytes: Seq::empty(), a: false, b: false, failed: true, valid: true }
    }

    /// Comparing `self`, then `after`.
    pub open spec fn and(self, after: Out2) -> Out2 {
        Out2 {
            bytes: self.bytes + after.bytes,
            a: self.a || after.a,
            b: self.b || after.b,
            failed: self.failed || after.failed,
            valid: self.valid && (self.failed || after.valid),
        }
    }

    /// Printing on the side of the first file.
    pub open spec fn on_a(out: Out) -> Out2 {
        Out2 {
            bytes: out.bytes,
            a: out.changed,
            b: false,
            failed: out.failed,
            valid: true,
        }
    }

    /// Printing on the side of the second file.
    pub open spec fn on_b(out: Out) -> Out2 {
        Out2 {
            bytes: out.bytes,
            a: false,
            b: out.changed,
            failed: out.failed,
            valid: true,
        }
    }

    /// Comparing in a scope of its own: what is written is kept only where
    /// a line of it is marked as removed or added.
    pub open spec fn scope(self) -> Out2 {
        Out2 {
            bytes: if self.a || self.b {
                self.bytes
            } else {
                Seq::empty()
            },
            ..self
        }
    }

    /// Comparing without remembering the marked lines, where `flag` is set.
    pub open spec fn ignored(self, flag: bool) -> Out2 {
        if flag && !self.failed {
            Out2 { a: false, b: false, ..self }
        } else {
            self
        }
    }
}

/// Comparing one line of each file: where the two bodies are the same, the
/// line is printed once as equal; otherwise the first is printed as removed
/// and the second as added. An empty body is not printed.
pub open spec fn pair_out(cx: Cursor2, a: Seq<u8>, b: Seq<u8>) -> Out2 {
    if a == b {
        Out2::on_a(line_option_out(cx.a.marked(DiffPrefix::Equal), a))
    } else {
        Out2::on_a(line_option_out(cx.a.marked(DiffPrefix::Less), a)).and(
            Out2::on_b(line_option_out(cx.b.marked(DiffPrefix::Greater), b)),
        )
    }
}

/// The text of a labelled number that is compared with the number `base`.
pub open spec fn labelled_change(label: &str, base: u64, arg: Option<u64>) -> Seq<u8> {
    match arg {
        Some(value) => if value != base {
            labelled(label, value) + " (".spec_bytes() + explicit_decimal(value - base)
                + ")".spec_bytes()
        } else {
            labelled(label, value)
        },
        None => Seq::empty(),
    }
}

/// The cursors of two files that are compared.
pub struct DiffState<'a> {
    pub a: PrintState<'a>,
    pub b: PrintState<'a>,
    pub options: &'a Flags<'a>,
}

/// Whether comparing took the state `s0` and the output `w0` to `s1` and
/// `w1` as `out` says. The cursors are where they were, however comparing
/// ends.
pub open spec fn diffed(
    s0: DiffState,
    w0: Seq<u8>,
    s1: DiffState,
    w1: Seq<u8>,
    ok: bool,
    out: Out2,
) -> bool {
    &&& s1.cursor() == s0.cursor()
    &&& s1.a.file == s0.a.file
    &&& s1.a.hash == s0.a.hash
    &&& s1.a.options == s0.a.options
    &&& s1.b.file == s0.b.file
    &&& s1.b.hash == s0.b.hash
    &&& s1.b.options == s0.b.options
    &&& s1.options == s0.options
    &&& ok == !out.failed
    &&& ok ==> {
        &&& w1 == w0 + out.bytes
        &&& s1.a.diff == (s0.a.diff || out.a)
        &&& s1.b.diff == (s0.b.diff || out.b)
    }
}

impl<'a> DiffState<'a> {
    /// Where the two cursors stand.
    pub open spec fn cursor(&self) -> Cursor2 {
        Cursor2 { a: self.a.cursor(), b: self.b.cursor() }
    }

    /// Both sides go by the options of the comparison, and indent their
    /// lines equally far.
    pub open spec fn wf(&self) -> bool {
        &&& self.a.options == self.options
        &&& self.b.options == self.options
        &&& self.a.indent == self.b.indent
    }

    /// Two cursors at the start of a line, for comparing the entries of two files.
    pub fn new(
        file_a: &'a File,
        hash_a: &'a FileHash<'a>,
        file_b: &'a File,
        hash_b: &'a FileHash<'a>,
        options: &'a Flags<'a>,
    ) -> (state: Self)
        ensures
            state.a.cursor() == (Cursor {
                indent: 0,
                prefix: DiffPrefix::Plain,
                inline_depth: options.inline_depth,
            }),
            state.b.cursor() == state.a.cursor(),
            !state.a.diff,
            !state.b.diff,
            state.a.file == file_a,
            state.a.hash == hash_a,
            state.b.file == file_b,
            state.b.hash == hash_b,
            state.a.options == options,
            state.b.options == options,
            state.options == options,
            state.wf(),
    {
        DiffState {
            a: PrintState::new(file_a, hash_a, options),
            b: PrintState::new(file_b, hash_b, options),
            options: options,
        }
    }

    /// Begins a scope of its own: forgets for the time of the scope which
    /// lines were marked before it, and says which were. What is compared
    /// in the scope is written to a buffer, which `diff_end` writes out.
    pub fn diff_begin(&mut self) -> (before: (bool, bool))
        ensures
            before == (old(self).a.diff, old(self).b.diff),
            *final(self) == (DiffState {
                a: PrintState { diff: false, ..old(self).a },
                b: PrintState { diff: false, ..old(self).b },
                ..*old(self)
            }),
    {
        let before = (self.a.diff, self.b.diff);
        self.a.diff = false;
        self.b.diff = false;
        before
    }

    /// Ends a scope: writes out what was written to the buffer `buf` in it,
    /// where a line of it is marked as removed or added, and remembers the
    /// lines that were marked before the scope again.
    pub fn diff_end(&mut self, w: &mut Vec<u8>, buf: &[u8], before: (bool, bool))
        ensures
            final(w)@ == old(w)@ + (if old(self).a.diff || old(self).b.diff {
                buf@
            } else {
                Seq::empty()
            }),
            *final(self) == (DiffState {
                a: PrintState { diff: before.0 || old(self).a.diff, ..old(self).a },
                b: PrintState { diff: before.1 || old(self).b.diff, ..old(self).b },
                ..*old(self)
            }),
    {
        broadcast use group_bytes;

        if self.a.diff || self.b.diff {
            put(w, buf);
        }
        self.a.diff = before.0 || self.a.diff;
        self.b.diff = before.1 || self.b.diff;
    }

    /// Says which lines are remembered as marked, for `ignore_end`.
    pub fn ignore_begin(&self) -> (before: (bool, bool))
        ensures
            before == (self.a.diff, self.b.diff),
    {
        (self.a.diff, self.b.diff)
    }

    /// Forgets the lines that were marked since `ignore_begin`, where
    /// `flag` is set.
    pub fn ignore_end(&mut self, flag: bool, before: (bool, bool))
        ensures
            *final(self) == (if flag {
                DiffState {
                    a: PrintState { diff: before.0, ..old(self).a },
                    b: PrintState { diff: before.1, ..old(self).b },
                    ..*old(self)
                }
            } else {
                *old(self)
            }),
    {
        if flag {
            self.a.diff = before.0;
            self.b.diff = before.1;
        }
    }

    /// Goes one level further in on both sides, and says how far lines were
    /// indented before.
    pub fn indent_begin(&mut self) -> (before: (usize, usize))
        ensures
            before == (old(self).a.indent, old(self).b.indent),
            final(self).cursor() == old(self).cursor().deeper(),
            *final(self) == (DiffState {
                a: PrintState { indent: old(self).a.cursor().deeper().indent, ..old(self).a },
                b: PrintState { indent: old(self).b.cursor().deeper().indent, ..old(self).b },
                ..*old(self)
            }),
    {
        let a = self.a.indent_begin();
        let b = self.b.indent_begin();
        (a, b)
    }

    /// Goes back to the indentation `before`.
    pub fn indent_end(&mut self, before: (usize, usize))
        ensures
            *final(self) == (DiffState {
                a: PrintState { indent: before.0, ..old(self).a },
                b: PrintState { indent: before.1, ..old(self).b },
                ..*old(self)
            }),
    {
        self.a.indent_end(before.0);
        self.b.indent_end(before.1);
    }

    /// Enters one more level of inlined calls on both sides, if any may
    /// still be entered on both, and says how many could be entered before,
    /// if it did.
    pub fn inline_begin(&mut self) -> (before: Option<(usize, usize)>)
        ensures
            before is Some <==> old(self).a.inline_depth > 0 && old(self).b.inline_depth > 0,
            before is Some ==> before == Some((old(self).a.inline_depth, old(self).b.inline_depth)),
            before is Some ==> final(self).cursor() == old(self).cursor().inlined(),
            before is Some ==> *final(self) == (DiffState {
                a: PrintState {
                    inline_depth: old(self).a.cursor().inlined().inline_depth,
                    ..old(self).a
                },
                b: PrintState {
                    inline_depth: old(self).b.cursor().inlined().inline_depth,
                    ..old(self).b
                },
                ..*old(self)
            }),
            before is None ==> *final(self) == *old(self),
    {
        if self.a.inline_depth == 0 || self.b.inline_depth == 0 {
            return None;
        }
        let before = (self.a.inline_depth, self.b.inline_depth);
        self.a.inline_depth -= 1;
        self.b.inline_depth -= 1;
        Some(before)
    }

    /// Leaves a level of inlined calls: as many can be entered again as
    /// `before`.
    pub fn inline_end(&mut self, before: (usize, usize))
        ensures
            *final(self) == (DiffState {
                a: PrintState { inline_depth: before.0, ..old(self).a },
                b: PrintState { inline_depth: before.1, ..old(self).b },
                ..*old(self)
            }),
    {
        self.a.inline_depth = before.0;
        self.b.inline_depth = before.1;
    }

    /// Sets the marks that the lines of the two sides begin with, and says
    /// what they were before.
    pub fn prefix_begin(&mut self, a: DiffPrefix, b: DiffPrefix) -> (before: (DiffPrefix, DiffPrefix))
        ensures
            before == (old(self).a.prefix, old(self).b.prefix),
            final(self).cursor() == old(self).cursor().marked(a, b),
            *final(self) == (DiffState {
                a: PrintState { prefix: a, ..old(self).a },
                b: PrintState { prefix: b, ..old(self).b },
                ..*old(self)
            }),
    {
        let before = (self.a.prefix, self.b.prefix);
        self.a.prefix = a;
        self.b.prefix = b;
        before
    }

    /// Marks the lines of both sides as equal.
    pub fn prefix_equal(&mut self) -> (before: (DiffPrefix, DiffPrefix))
        ensures
            before == (old(self).a.prefix, old(self).b.prefix),
            final(self).cursor() == old(self).cursor().marked(DiffPrefix::Equal, DiffPrefix::Equal),
            *final(self) == (DiffState {
                a: PrintState { prefix: DiffPrefix::Equal, ..old(self).a },
                b: PrintState { prefix: DiffPrefix::Equal, ..old(self).b },
                ..*old(self)
            }),
    {
        self.prefix_begin(DiffPrefix::Equal, DiffPrefix::Equal)
    }

    /// Marks the lines of the first side as removed and those of the second
    /// as added.
    pub fn prefix_diff(&mut self) -> (before: (DiffPrefix, DiffPrefix))
        ensures
            before == (old(self).a.prefix, old(self).b.prefix),
            final(self).cursor() == old(self).cursor().marked(DiffPrefix::Less, DiffPrefix::Greater),
            *final(self) == (DiffState {
                a: PrintState { prefix: DiffPrefix::Less, ..old(self).a },
                b: PrintState { prefix: DiffPrefix::Greater, ..old(self).b },
                ..*old(self)
            }),
    {
        self.prefix_begin(DiffPrefix::Less, DiffPrefix::Greater)
    }

    /// Goes back to the marks `before`.
    pub fn prefix_end(&mut self, before: (DiffPrefix, DiffPrefix))
        ensures
            *final(self) == (DiffState {
                a: PrintState { prefix: before.0, ..old(self).a },
                b: PrintState { prefix: before.1, ..old(self).b },
                ..*old(self)
            }),
    {
        self.a.prefix = before.0;
        self.b.prefix = before.1;
    }

    /// Compares a line of the first file with a line of the second. Where
    /// the two are the same, the line is printed once, as equal; otherwise
    /// the first is printed as removed and the second as added. An empty
    /// line is not printed.
    pub fn line(&mut self, w: &mut Vec<u8>, a: &[u8], b: &[u8])
        ensures
            diffed(*old(self), old(w)@, *final(self), final(w)@, true, pair_out(old(self).cursor(), a@, b@)),
    {
        broadcast use group_bytes;

        if crate::text::bytes_eq(a, b) {
            let before = self.prefix_equal();
            if a.len() != 0 {
                self.a.line(w, a);
            }
            self.prefix_end(before);
        } else {
            let before = self.prefix_diff();
            if a.len() != 0 {
                self.a.line(w, a);
            }
            if b.len() != 0 {
                self.b.line(w, b);
            }
            self.prefix_end(before);
        }
    }

    /// This is the same as `line`. It is there for symmetry with
    /// `PrintState::line_option`.
    pub fn line_option(&mut self, w: &mut Vec<u8>, a: &[u8], b: &[u8])
        ensures
            diffed(*old(self), old(w)@, *final(self), final(w)@, true, pair_out(old(self).cursor(), a@, b@)),
    {
        self.line(w, a, b)
    }

    /// Compares two labelled numbers. Where the second differs from the
    /// first, what it differs by is printed behind it.
    pub fn line_option_u64(
        &mut self,
        w: &mut Vec<u8>,
        label: &str,
        arg_a: Option<u64>,
        arg_b: Option<u64>,
    )
        ensures
            diffed(
                *old(self),
                old(w)@,
                *final(self),
                final(w)@,
                true,
                pair_out(
                    old(self).cursor(),
                    labelled_change(label, arg_a.unwrap_or(0), arg_a),
                    labelled_change(label, arg_a.unwrap_or(0), arg_b),
                ),
            ),
    {
        let base = match arg_a {
            Some(base) => base,
            None => 0,
        };
        let a = labelled_change_text(label, base, arg_a);
        let b = labelled_change_text(label, base, arg_b);
        self.line_option(w, a.as_slice(), b.as_slice());
    }
}

/// Gives the text of a labelled number that is compared with the number
/// `base`.
pub fn labelled_change_text(label: &str, base: u64, arg: Option<u64>) -> (text: Vec<u8>)
    ensures
        text@ == labelled_change(label, base, arg),
{
    broadcast use group_bytes;

    let mut buf: Vec<u8> = Vec::new();
    if let Some(arg) = arg {
        put_str(&mut buf, label);
        put_str(&mut buf, ": ");
        put_u64(&mut buf, arg);
        if arg != base {
            put_str(&mut buf, " (");
            put_change(&mut buf, base, arg);
            put_str(&mut buf, ")");
        }
    }
    buf
}


/// Printing nothing leaves the state and the output as they are.
pub proof fn lemma_printed_nothing(s: PrintState, w: Seq<u8>)
    ensures
        printed(s, w, s, w, true, Out::nothing()),
{
    broadcast use group_bytes;

}

/// Comparing nothing leaves the state and the output as they are.
pub proof fn lemma_diffed_nothing(s: DiffState, w: Seq<u8>)
    ensures
        diffed(s, w, s, w, true, Out2::nothing()),
{
    broadcast use group_bytes;

}

/// Two prints, one after the other, are one print.
pub proof fn lemma_printed_and(
    s0: PrintState,
    w0: Seq<u8>,
    s1: PrintState,
    w1: Seq<u8>,
    s2: PrintState,
    w2: Seq<u8>,
    ok: bool,
    o1: Out,
    o2: Out,
)
    requires
        printed(s0, w0, s1, w1, true, o1),
        printed(s1, w1, s2, w2, ok, o2),
    ensures
        printed(s0, w0, s2, w2, ok, o1.and(o2)),
{
    broadcast use group_bytes;

}

/// Two comparisons, one after the other, are one comparison.
pub proof fn lemma_diffed_and(
    s0: DiffState,
    w0: Seq<u8>,
    s1: DiffState,
    w1: Seq<u8>,
    s2: DiffState,
    w2: Seq<u8>,
    ok: bool,
    o1: Out2,
    o2: Out2,
)
    requires
        diffed(s0, w0, s1, w1, true, o1),
        diffed(s1, w1, s2, w2, ok, o2),
    ensures
        diffed(s0, w0, s2, w2, ok, o1.and(o2)),
{
    broadcast use group_bytes;

}


impl<'a> PrintState<'a> {
    /// Prints a line after what was printed from the state `start` and the
    /// output `w0` on.
    pub(crate) fn line_then(
        &mut self,
        w: &mut Vec<u8>,
        body: &[u8],
        Ghost(start): Ghost<PrintState>,
        Ghost(w0): Ghost<Seq<u8>>,
        Ghost(done): Ghost<Out>,
    )
        requires
            printed(start, w0, *old(self), old(w)@, true, done),
        ensures
            printed(
                start,
                w0,
                *final(self),
                final(w)@,
                true,
                done.and(line_out(old(self).cursor(), body@)),
            ),
            final(self).cursor() == old(self).cursor(),
    {
        let ghost s1 = *self;
        let ghost w1 = w@;
        self.line(w, body);
        proof {
            lemma_printed_and(
                start,
                w0,
                s1,
                w1,
                *self,
                w@,
                true,
                done,
                line_out(old(self).cursor(), body@),
            );
        }
    }

    /// Prints a line, where there is anything to print, after what was
    /// printed from the state `start` and the output `w0` on.
    pub(crate) fn line_option_then(
        &mut self,
        w: &mut Vec<u8>,
        body: &[u8],
        Ghost(start): Ghost<PrintState>,
        Ghost(w0): Ghost<Seq<u8>>,
        Ghost(done): Ghost<Out>,
    )
        requires
            printed(start, w0, *old(self), old(w)@, true, done),
        ensures
            printed(
                start,
                w0,
                *final(self),
                final(w)@,
                true,
                done.and(line_option_out(old(self).cursor(), body@)),
            ),
            final(self).cursor() == old(self).cursor(),
    {
        let ghost s1 = *self;
        let ghost w1 = w@;
        self.line_option(w, body);
        proof {
            lemma_printed_and(
                start,
                w0,
                s1,
                w1,
                *self,
                w@,
                true,
                done,
                line_option_out(old(self).cursor(), body@),
            );
        }
    }
}

impl<'a> DiffState<'a> {
    /// Compares two lines after what was compared from the state `start`
    /// and the output `w0` on. Where `ignore` is set, it is not remembered
    /// whether the lines differ.
    pub(crate) fn line_then(
        &mut self,
        w: &mut Vec<u8>,
        a: &[u8],
        b: &[u8],
        ignore: bool,
        Ghost(start): Ghost<DiffState>,
        Ghost(w0): Ghost<Seq<u8>>,
        Ghost(done): Ghost<Out2>,
    )
        requires
            diffed(start, w0, *old(self), old(w)@, true, done),
        ensures
            diffed(
                start,
                w0,
                *final(self),
                final(w)@,
                true,
                done.and(pair_out(old(self).cursor(), a@, b@).ignored(ignore)),
            ),
            final(self).cursor() == old(self).cursor(),
            final(self).wf() == old(self).wf(),
    {
        let ghost s1 = *self;
        let ghost w1 = w@;
        let before = self.ignore_begin();
        self.line(w, a, b);
        self.ignore_end(ignore, before);
        proof {
            lemma_diffed_and(
                start,
                w0,
                s1,
                w1,
                *self,
                w@,
                true,
                done,
                pair_out(old(self).cursor(), a@, b@).ignored(ignore),
            );
        }
    }
}

} // verus!
