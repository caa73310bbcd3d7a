//! Printing as a collapsible list in HTML.
use marksman_escape::Escape;
use vstd::prelude::*;
use vstd::string::StringSliceAdditionalSpecFns;
use crate::print::DiffPrefix;
use crate::seqs::group_bytes;
use crate::text::{put, put_str};
use crate::Flags;

verus! {

/// What begins the page: the style of the list, the script that opens and
/// closes its items, and the list itself.
pub const HEADER: &'static str = "<!DOCTYPE html>\n<html>\n<head>\n<meta charset=\"utf-8\"/>\n<style>\nul.collapsible {\n    list-style: none;\n}\nul.collapsible ul {\n    display: none;\n    list-style: none;\n}\nul.collapsible li {\n    white-space: nowrap;\n    cursor: default;\n}\nul.collapsible li.collapsible {\n    cursor: pointer;\n    border: 1px solid black;\n}\nul.collapsible span {\n    white-space: normal;\n}\nul.collapsible .del {\n    background-color: #ffdce0;\n}\nul.collapsible .add {\n    background-color: #cdffd8;\n}\nspan.field {\n    display: inline-block;\n    vertical-align: top;\n}\n</style>\n<script language=\"javascript\">\nwindow.onload = function () {\n    var uls = document.querySelectorAll(\".collapsible li > ul\");\n    [].forEach.call(uls, function(ul) {\n        var li = ul.parentNode;\n        li.classList.add(\"collapsible\");\n        li.addEventListener(\"click\", toggle);\n    });\n\n    function toggle (e) {\n        var node = e.target;\n        while (node.nodeName !== \"LI\") {\n            node = node.parentNode;\n        }\n        if (node === e.currentTarget) {\n            var uls = node.getElementsByTagName(\"ul\");\n            [].forEach.call(uls, function(ul) {\n                var li = ul;\n                while (li !== null && li.nodeName !== \"LI\") {\n                    li = li.parentNode;\n                }\n                if (li === node) {\n                    if (ul.style.display == \"block\") {\n                        ul.style.display = \"none\";\n                    } else {\n                        ul.style.display = \"block\";\n                    }\n                }\n            });\n        }\n    }\n}\n</script>\n</head>\n<body>\n<ul class=\"collapsible\">";

/// What ends the page.
pub const FOOTER: &'static str = "</ul>\n</body>\n</html>";

/// What `marksman_escape::Escape` makes of a sequence of bytes.
pub uninterp spec fn html_escaped(bytes: Seq<u8>) -> Seq<u8>;

/// `marksman_escape::Escape`: the bytes with those that mean something in
/// HTML replaced by what stands for them there. What comes out depends on
/// the bytes alone.
#[verifier::external_body]
fn escaped(bytes: &[u8]) -> (text: Vec<u8>)
    ensures
        text@ == html_escaped(bytes@),
{
    Escape::new(bytes.iter().map(|x| *x)).collect()
}

/// A printer of a collapsible list in HTML.
pub struct HtmlPrinter {
    pub indent: usize,
    pub prefix: DiffPrefix,
    pub inline_depth: usize,
    /// Whether an item of the list was begun and not yet ended, so that a
    /// list that is one level further in can stand within it.
    pub line_started: bool,
}

/// What ends the item that was begun, where one was.
pub open spec fn item_end(started: bool) -> Seq<u8> {
    if started {
        "</li>\n".spec_bytes()
    } else {
        Seq::empty()
    }
}

/// What a label and what follows it are put between, where there is a
/// label.
pub open spec fn field_begin(label: &str) -> Seq<u8> {
    if label.spec_bytes().len() > 0 {
        "<span class=\"field\">".spec_bytes() + label.spec_bytes()
            + ":</span> <span class=\"field\">".spec_bytes()
    } else {
        Seq::empty()
    }
}

/// What ends the field of a label.
pub open spec fn field_end(label: &str) -> Seq<u8> {
    if label.spec_bytes().len() > 0 {
        "</span>".spec_bytes()
    } else {
        Seq::empty()
    }
}

/// What the text of a line with the mark `prefix` begins with.
pub open spec fn span_begin(prefix: DiffPrefix) -> Seq<u8> {
    match prefix {
        DiffPrefix::Plain | DiffPrefix::Equal => "<span>".spec_bytes(),
        DiffPrefix::Less => "<span class=\"del\">".spec_bytes(),
        DiffPrefix::Greater => "</span>\n<span class=\"add\">".spec_bytes(),
    }
}

/// An item of the list: a label alone where there is no text, and
/// otherwise the label, where there is one, and the text.
pub open spec fn item_text(started: bool, prefix: DiffPrefix, label: &str, buf: Seq<u8>) -> Seq<u8> {
    item_end(started) + "<li>".spec_bytes() + (if buf.len() == 0 {
        label.spec_bytes() + ":".spec_bytes()
    } else {
        field_begin(label) + span_begin(prefix) + html_escaped(buf) + "</span>".spec_bytes()
            + field_end(label)
    })
}

/// An item of the list with a text that was removed and a text that was
/// added.
pub open spec fn item_diff_text(started: bool, label: &str, a: Seq<u8>, b: Seq<u8>) -> Seq<u8> {
    item_end(started) + "<li>".spec_bytes() + field_begin(label) + "<span class=\"del\">".spec_bytes()
        + html_escaped(a) + "</span><br>\n<span class=\"add\">".spec_bytes() + html_escaped(b)
        + "</span>".spec_bytes() + field_end(label)
}

/// What begins a list one level further in.
pub open spec fn list_begin(started: bool) -> Seq<u8> {
    (if started {
        Seq::empty()
    } else {
        "<li>".spec_bytes()
    }) + "<ul>\n".spec_bytes()
}

/// What ends a list one level further in.
pub open spec fn list_end(started: bool) -> Seq<u8> {
    item_end(started) + "</ul>".spec_bytes()
}

impl HtmlPrinter {
    /// A printer at the start of a page.
    pub fn new(options: &Flags) -> (printer: Self)
        ensures
            printer == (HtmlPrinter {
                indent: 0,
                prefix: DiffPrefix::Plain,
                inline_depth: options.inline_depth,
                line_started: false,
            }),
    {
        HtmlPrinter {
            indent: 0,
            prefix: DiffPrefix::Plain,
            inline_depth: options.inline_depth,
            line_started: false,
        }
    }

    /// Writes what begins the page.
    pub fn begin(&mut self, w: &mut Vec<u8>)
        ensures
            final(w)@ == old(w)@ + HEADER.spec_bytes(),
            *final(self) == *old(self),
    {
        put_str(w, HEADER);
    }

    /// Ends the item that was begun, where one was, and writes what ends
    /// the page.
    pub fn end(&mut self, w: &mut Vec<u8>)
        ensures
            final(w)@ == old(w)@ + (item_end(old(self).line_started) + FOOTER.spec_bytes()),
            *final(self) == *old(self),
    {
        broadcast use group_bytes;

        if self.line_started {
            put_str(w, "</li>\n");
        }
        put_str(w, FOOTER);
    }

    /// A printer in the state of this one, for what is written to a buffer
    /// first.
    pub fn buffer(&self) -> (printer: HtmlPrinter)
        ensures
            printer == *self,
    {
        HtmlPrinter {
            indent: self.indent,
            prefix: self.prefix,
            inline_depth: self.inline_depth,
            line_started: self.line_started,
        }
    }

    /// Ends what `printer` wrote to the buffer `buf`, so that the buffer
    /// can be written out by this printer: an item that `printer` has begun
    /// is ended, and an item that it has ended is begun again.
    pub fn buffer_end(&self, printer: &HtmlPrinter, buf: &mut Vec<u8>)
        ensures
            final(buf)@ == old(buf)@ + (if self.line_started == printer.line_started {
                Seq::empty()
            } else if printer.line_started {
                "</li>\n".spec_bytes()
            } else {
                "<li>".spec_bytes()
            }),
    {
        broadcast use group_bytes;

        if self.line_started != printer.line_started {
            if printer.line_started {
                put_str(buf, "</li>\n");
            } else {
                put_str(buf, "<li>");
            }
        }
    }

    /// Writes a buffer that was filled by `buffer`.
    pub fn write_buf(&mut self, w: &mut Vec<u8>, buf: &[u8])
        ensures
            final(w)@ == old(w)@ + buf@,
            *final(self) == *old(self),
    {
        put(w, buf);
    }

    /// A blank line between entries: a page has none, so nothing is
    /// written.
    pub fn line_break(&mut self)
        ensures
            *final(self) == *old(self),
    {
    }

    /// Writes an item of the list: the label alone where there is no text,
    /// and otherwise the label, where there is one, and the text, as plain,
    /// removed or added as the mark says.
    pub fn line(&mut self, w: &mut Vec<u8>, label: &str, buf: &[u8])
        ensures
            final(w)@ == old(w)@ + item_text(old(self).line_started, old(self).prefix, label, buf@),
            *final(self) == (HtmlPrinter { line_started: true, ..*old(self) }),
    {
        broadcast use group_bytes;

        if self.line_started {
            put_str(w, "</li>\n");
        }
        put_str(w, "<li>");
        self.line_started = true;
        if buf.len() == 0 {
            put_str(w, label);
            put_str(w, ":");
            return ;
        }
        if label.as_bytes().len() != 0 {
            put_str(w, "<span class=\"field\">");
            put_str(w, label);
            put_str(w, ":</span> <span class=\"field\">");
        }
        match self.prefix {
            DiffPrefix::Plain | DiffPrefix::Equal => put_str(w, "<span>"),
            DiffPrefix::Less => {
                put_str(w, "<span class=\"del\">");
            },
            DiffPrefix::Greater => {
                put_str(w, "</span>\n<span class=\"add\">");
            },
        }
        let text = escaped(buf);
        put(w, text.as_slice());
        put_str(w, "</span>");
        if label.as_bytes().len() != 0 {
            put_str(w, "</span>");
        }
    }

    /// Writes an item of the list with a text that was removed and a text
    /// that was added.
    pub fn line_diff(&mut self, w: &mut Vec<u8>, label: &str, a: &[u8], b: &[u8])
        ensures
            final(w)@ == old(w)@ + item_diff_text(old(self).line_started, label, a@, b@),
            *final(self) == (HtmlPrinter { line_started: true, ..*old(self) }),
    {
        broadcast use group_bytes;

        if self.line_started {
            put_str(w, "</li>\n");
        }
        put_str(w, "<li>");
        self.line_started = true;
        if label.as_bytes().len() != 0 {
            put_str(w, "<span class=\"field\">");
            put_str(w, label);
            put_str(w, ":</span> <span class=\"field\">");
        }
        put_str(w, "<span class=\"del\">");
        let text = escaped(a);
        put(w, text.as_slice());
        put_str(w, "</span><br>\n<span class=\"add\">");
        let text = escaped(b);
        put(w, text.as_slice());
        put_str(w, "</span>");
        if label.as_bytes().len() != 0 {
            put_str(w, "</span>");
        }
    }

    /// Begins a list one level further in, within the item that was begun,
    /// and says how far lines were indented before.
    pub fn indent_begin(&mut self, w: &mut Vec<u8>) -> (before: usize)
        ensures
            before == old(self).indent,
            final(w)@ == old(w)@ + list_begin(old(self).line_started),
            *final(self) == (HtmlPrinter {
                line_started: false,
                indent: if old(self).indent < usize::MAX {
                    (old(self).indent + 1) as usize
                } else {
                    old(self).indent
                },
                ..*old(self)
            }),
    {
        broadcast use group_bytes;

        if !self.line_started {
            put_str(w, "<li>");
        }
        self.line_started = false;
        let before = self.indent;
        if self.indent < usize::MAX {
            self.indent += 1;
        }
        put_str(w, "<ul>\n");
        before
    }

    /// Ends a list one level further in.
    pub fn indent_end(&mut self, w: &mut Vec<u8>, before: usize)
        ensures
            final(w)@ == old(w)@ + list_end(old(self).line_started),
            *final(self) == (HtmlPrinter { line_started: true, indent: before, ..*old(self) }),
    {
        broadcast use group_bytes;

        if self.line_started {
            put_str(w, "</li>\n");
        }
        self.line_started = true;
        self.indent = before;
        put_str(w, "</ul>");
    }

    /// Sets the mark of the lines.
    pub fn prefix(&mut self, prefix: DiffPrefix)
        ensures
            *final(self) == (HtmlPrinter { prefix, ..*old(self) }),
    {
        self.prefix = prefix;
    }

    /// Enters one more level of inlined calls, if any may still be entered,
    /// and says whether it did.
    pub fn inline_begin(&mut self) -> (entered: bool)
        ensures
            entered == (old(self).inline_depth > 0),
            entered ==> *final(self) == (HtmlPrinter {
                inline_depth: (old(self).inline_depth - 1) as usize,
                ..*old(self)
            }),
            !entered ==> *final(self) == *old(self),
    {
        if self.inline_depth == 0 {
            false
        } else {
            self.inline_depth -= 1;
            true
        }
    }

    /// Leaves a level of inlined calls.
    pub fn inline_end(&mut self)
        requires
            old(self).inline_depth < usize::MAX,
        ensures
            *final(self) == (HtmlPrinter {
                inline_depth: (old(self).inline_depth + 1) as usize,
                ..*old(self)
            }),
    {
        self.inline_depth += 1;
    }
}

} // verus!
