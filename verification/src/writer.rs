//! The source-emission facility: a line-oriented writer with an
//! indentation level. Every scope-opening emission is matched by exactly
//! one scope-closing emission, which the contracts make checkable: each
//! compile procedure restores the level it was entered at.
use vstd::prelude::*;

verus! {

/// Relies on std's `String::push`: appends the given character to the end
/// of the string.
pub assume_specification[ String::push ](s: &mut String, c: char)
    ensures
        final(s)@ == old(s)@.push(c),
;

/// One emitted line: its indentation level and its text (raw text handed
/// to `blob` may hold several physical lines).
pub struct Line {
    pub indent: usize,
    pub text: String,
}

/// Ghost image of a line.
pub struct LineV {
    pub indent: nat,
    pub text: Seq<char>,
}

impl View for Line {
    type V = LineV;

    open spec fn view(&self) -> LineV {
        LineV { indent: self.indent as nat, text: self.text@ }
    }
}

/// Ghost image of the writer: the lines emitted so far and the current
/// indentation level.
pub struct WriterV {
    pub lines: Seq<LineV>,
    pub indent: nat,
}

/// The output sink: owns the emitted lines and the indentation counter.
pub struct RustWriter {
    lines: Vec<Line>,
    indent: usize,
}

impl View for RustWriter {
    type V = WriterV;

    closed spec fn view(&self) -> WriterV {
        WriterV {
            lines: Seq::new(self.lines@.len(), |i: int| self.lines@[i]@),
            indent: self.indent as nat,
        }
    }
}

/// The ghost line a call emitting `text` at level `indent` appends.
pub open spec fn line_at(indent: nat, text: Seq<char>) -> LineV {
    LineV { indent, text }
}

impl RustWriter {
    pub fn new() -> (w: RustWriter)
        ensures
            w@.lines == Seq::<LineV>::empty(),
            w@.indent == 0,
    {
        RustWriter { lines: Vec::new(), indent: 0 }
    }

    /// One line at the current level.
    pub fn line(&mut self, s: &str)
        ensures
            final(self)@.lines == old(self)@.lines.push(line_at(old(self)@.indent, s@)),
            final(self)@.indent == old(self)@.indent,
    {
        let ghost prev = self@.lines;
        self.lines.push(Line { indent: self.indent, text: String::from_str(s) });
        proof {
            assert(final(self)@.lines =~= prev.push(line_at(old(self)@.indent, s@)));
        }
    }

    /// One line at the current level, taking ownership of built text.
    pub fn line_string(&mut self, s: String)
        ensures
            final(self)@.lines == old(self)@.lines.push(line_at(old(self)@.indent, s@)),
            final(self)@.indent == old(self)@.indent,
    {
        let ghost prev = self@.lines;
        let ghost sv = s@;
        self.lines.push(Line { indent: self.indent, text: s });
        proof {
            assert(final(self)@.lines =~= prev.push(line_at(old(self)@.indent, sv)));
        }
    }

    /// Raw text with no indentation bookkeeping (it may span several
    /// physical lines), emitted at level 0.
    pub fn blob(&mut self, s: &str)
        ensures
            final(self)@.lines == old(self)@.lines.push(line_at(0, s@)),
            final(self)@.indent == old(self)@.indent,
    {
        let ghost prev = self@.lines;
        self.lines.push(Line { indent: 0, text: String::from_str(s) });
        proof {
            assert(final(self)@.lines =~= prev.push(line_at(0, s@)));
        }
    }

    /// Open a scoped block: emit its head line, then raise the level.
    pub fn open(&mut self, s: &str)
        requires
            old(self)@.indent < usize::MAX,
        ensures
            final(self)@.lines == old(self)@.lines.push(line_at(old(self)@.indent, s@)),
            final(self)@.indent == old(self)@.indent + 1,
    {
        let ghost prev = self@.lines;
        self.lines.push(Line { indent: self.indent, text: String::from_str(s) });
        self.indent = self.indent + 1;
        proof {
            assert(final(self)@.lines =~= prev.push(line_at(old(self)@.indent, s@)));
        }
    }

    /// Open a scoped block whose head is built text.
    pub fn open_string(&mut self, s: String)
        requires
            old(self)@.indent < usize::MAX,
        ensures
            final(self)@.lines == old(self)@.lines.push(line_at(old(self)@.indent, s@)),
            final(self)@.indent == old(self)@.indent + 1,
    {
        let ghost prev = self@.lines;
        let ghost sv = s@;
        self.lines.push(Line { indent: self.indent, text: s });
        self.indent = self.indent + 1;
        proof {
            assert(final(self)@.lines =~= prev.push(line_at(old(self)@.indent, sv)));
        }
    }

    /// Close a scoped block: lower the level, then emit the closing line
    /// there.
    pub fn close(&mut self, s: &str)
        requires
            old(self)@.indent >= 1,
        ensures
            final(self)@.lines == old(self)@.lines.push(
                line_at((old(self)@.indent - 1) as nat, s@),
            ),
            final(self)@.indent == old(self)@.indent - 1,
    {
        let ghost prev = self@.lines;
        self.indent = self.indent - 1;
        self.lines.push(Line { indent: self.indent, text: String::from_str(s) });
        proof {
            assert(final(self)@.lines =~= prev.push(line_at((old(self)@.indent - 1) as nat, s@)));
        }
    }

    /// A between-branches line (such as the `else` head): emitted one
    /// level down without changing the current level.
    pub fn mid(&mut self, s: &str)
        requires
            old(self)@.indent >= 1,
        ensures
            final(self)@.lines == old(self)@.lines.push(
                line_at((old(self)@.indent - 1) as nat, s@),
            ),
            final(self)@.indent == old(self)@.indent,
    {
        let ghost prev = self@.lines;
        let at = self.indent - 1;
        self.lines.push(Line { indent: at, text: String::from_str(s) });
        proof {
            assert(final(self)@.lines =~= prev.push(line_at((old(self)@.indent - 1) as nat, s@)));
        }
    }

    /// The current indentation level.
    pub fn indent_level(&self) -> (r: usize)
        ensures
            r == self@.indent,
    {
        self.indent
    }

    /// The emitted lines, for rendering by a caller.
    pub fn lines(&self) -> (r: &Vec<Line>)
        ensures
            r@.len() == self@.lines.len(),
            forall|i: int| 0 <= i < r@.len() ==> r@[i]@ == self@.lines[i],
    {
        &self.lines
    }
}

} // verus!
