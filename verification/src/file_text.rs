//! The content of a source file, with the mapping from byte offsets to lines
//! and columns and the rendering of an excerpt.

use vstd::prelude::*;
use crate::bytes::{push_range, push_repeated, repeat};
use crate::span::Span;

verus! {

/// The byte that ends a line.
pub const NEWLINE: u8 = 10u8;

/// The byte that pads an excerpt.
pub const SPACE: u8 = 32u8;

/// The byte that marks the spanned columns of an excerpt.
pub const MARKER: u8 = 94u8;

/// Number of newline bytes among the first `pos` bytes of `text`: the
/// zero-based number of the line that offset `pos` lies on.
pub open spec fn newlines_before(text: Seq<u8>, pos: int) -> nat
    decreases pos,
{
    if pos <= 0 {
        0
    } else {
        newlines_before(text, pos - 1) + if text[pos - 1] == NEWLINE {
            1nat
        } else {
            0nat
        }
    }
}

/// Offset of the first byte of the line that offset `pos` lies on: the
/// position just behind the last newline before `pos`, or zero.
pub open spec fn line_begin(text: Seq<u8>, pos: int) -> int
    decreases pos,
{
    if pos <= 0 {
        0
    } else if text[pos - 1] == NEWLINE {
        pos
    } else {
        line_begin(text, pos - 1)
    }
}

/// Offset of the end of the line that offset `pos` lies on: the position of
/// the first newline at or behind `pos`, or the length of the text.
pub open spec fn line_end(text: Seq<u8>, pos: int) -> int
    decreases text.len() - pos,
{
    if pos < 0 || pos >= text.len() {
        text.len() as int
    } else if text[pos] == NEWLINE {
        pos
    } else {
        line_end(text, pos + 1)
    }
}

/// An offset brought into the text: offsets behind the end count as the end.
pub open spec fn clamp(text: Seq<u8>, pos: int) -> int {
    if pos < 0 {
        0
    } else if pos > text.len() {
        text.len() as int
    } else {
        pos
    }
}

/// The zero-based line and column of a byte offset. The column counts the
/// bytes between the beginning of the line and the offset.
pub open spec fn spec_line_col(text: Seq<u8>, pos: int) -> (int, int) {
    let p = clamp(text, pos);
    (newlines_before(text, p) as int, p - line_begin(text, p))
}

/// One row of an excerpt: the line `text[begin..end]`, indented by two
/// spaces, and below it a marker under the columns `lo..hi`. An empty range
/// is marked by a single marker at `lo`.
pub open spec fn row(text: Seq<u8>, begin: int, end: int, lo: int, hi: int) -> Seq<u8> {
    repeat(SPACE, 2) + text.subrange(begin, end) + seq![NEWLINE] + repeat(SPACE, 2) + repeat(
        SPACE,
        lo - begin,
    ) + repeat(
        MARKER,
        if hi - lo < 1 {
            1
        } else {
            hi - lo
        },
    ) + seq![NEWLINE]
}

/// The rows of an excerpt from the line that begins at `begin` on, marked
/// from `lo` to `to`. Every line but the last is marked up to its end.
pub open spec fn rows(text: Seq<u8>, begin: int, lo: int, to: int) -> Seq<u8>
    decreases text.len() - lo,
    via rows_decreases
{
    let end = line_end(text, lo);
    if to <= end || lo < 0 || end >= text.len() {
        row(text, begin, end, lo, to)
    } else {
        row(text, begin, end, lo, end) + rows(text, end + 1, end + 1, to)
    }
}

#[via_fn]
proof fn rows_decreases(text: Seq<u8>, begin: int, lo: int, to: int) {
    if 0 <= lo <= text.len() {
        law_line_end(text, lo);
    }
}

/// The excerpt for the bytes `start..end` of `text`: every line that the
/// range touches, each with a marker below the touched columns. Offsets
/// behind the text count as its end, and an end before the start as the start.
pub open spec fn spec_highlight(text: Seq<u8>, start: int, end: int) -> Seq<u8> {
    let from = clamp(text, start);
    let to = if clamp(text, end) < from {
        from
    } else {
        clamp(text, end)
    };
    rows(text, line_begin(text, from), from, to)
}

/// What a `FileText` stands for: the bytes of a path and of a content.
pub ghost struct FileTextView {
    pub path: Seq<u8>,
    pub text: Seq<u8>,
}

/// A source file held in memory: the path it was read from and its content.
#[derive(Clone, Debug, PartialEq, Eq)]
pub struct FileText {
    pub path: Vec<u8>,
    pub text: Vec<u8>,
}

impl View for FileText {
    type V = FileTextView;

    open spec fn view(&self) -> FileTextView {
        FileTextView { path: self.path@, text: self.text@ }
    }
}

/// There is no newline between the beginning of a line and an offset on it,
/// and the line begins at the start of the text or just behind a newline.
pub proof fn law_line_begin(text: Seq<u8>, pos: int)
    requires
        0 <= pos <= text.len(),
    ensures
        0 <= line_begin(text, pos) <= pos,
        line_begin(text, pos) == 0 || text[line_begin(text, pos) - 1] == NEWLINE,
        forall|i: int| line_begin(text, pos) <= i < pos ==> text[i] != NEWLINE,
    decreases pos,
{
    if pos > 0 && text[pos - 1] != NEWLINE {
        law_line_begin(text, pos - 1);
    }
}

/// There is no newline between an offset and the end of its line, and the
/// line ends at a newline or at the end of the text.
pub proof fn law_line_end(text: Seq<u8>, pos: int)
    requires
        0 <= pos <= text.len(),
    ensures
        pos <= line_end(text, pos) <= text.len(),
        line_end(text, pos) == text.len() || text[line_end(text, pos)] == NEWLINE,
        forall|i: int| pos <= i < line_end(text, pos) ==> text[i] != NEWLINE,
    decreases text.len() - pos,
{
    if pos < text.len() && text[pos] != NEWLINE {
        law_line_end(text, pos + 1);
    }
}

fn push_row(out: &mut Vec<u8>, text: &Vec<u8>, begin: usize, end: usize, lo: usize, hi: usize)
    requires
        begin <= lo <= end <= text.len(),
        lo <= hi,
    ensures
        final(out)@ == old(out)@ + row(text@, begin as int, end as int, lo as int, hi as int),
{
    push_repeated(out, SPACE, 2);
    push_range(out, text.as_slice(), begin, end);
    out.push(NEWLINE);
    push_repeated(out, SPACE, 2);
    push_repeated(out, SPACE, lo - begin);
    let width: usize = if hi - lo < 1 {
        1
    } else {
        hi - lo
    };
    push_repeated(out, MARKER, width);
    out.push(NEWLINE);
    assert(out@ =~= old(out)@ + row(text@, begin as int, end as int, lo as int, hi as int));
}

impl FileText {
    /// A file text from the path it was read from and its content.
    pub fn new(path: Vec<u8>, text: Vec<u8>) -> (file: FileText)
        ensures
            file@.path == path@,
            file@.text == text@,
    {
        FileText { path, text }
    }

    /// The path the text was read from.
    pub fn path(&self) -> (path: &Vec<u8>)
        ensures
            path@ == self@.path,
    {
        &self.path
    }

    /// The content.
    pub fn text(&self) -> (text: &Vec<u8>)
        ensures
            text@ == self@.text,
    {
        &self.text
    }

    /// An offset brought into the text.
    fn clamped(&self, pos: usize) -> (p: usize)
        ensures
            p == clamp(self@.text, pos as int),
            p <= self.text.len(),
    {
        if pos > self.text.len() {
            self.text.len()
        } else {
            pos
        }
    }

    /// The zero-based line and column of the byte offset `pos`. An offset
    /// behind the end of the text counts as the end.
    pub fn line_col(&self, pos: usize) -> (lc: (usize, usize))
        ensures
            (lc.0 as int, lc.1 as int) == spec_line_col(self@.text, pos as int),
            lc.0 + lc.1 <= self@.text.len(),
    {
        let p = self.clamped(pos);
        let mut line: usize = 0;
        let mut begin: usize = 0;
        let mut i: usize = 0;
        while i < p
            invariant
                i <= p <= self.text.len(),
                begin <= i,
                line + (i - begin) <= i,
                line == newlines_before(self.text@, i as int),
                begin == line_begin(self.text@, i as int),
            decreases p - i,
        {
            if self.text[i] == NEWLINE {
                line += 1;
                begin = i + 1;
            }
            i += 1;
        }
        (line, p - begin)
    }

    /// Offset of the first byte of the line that `pos` lies on.
    fn line_begin_at(&self, pos: usize) -> (begin: usize)
        requires
            pos <= self.text.len(),
        ensures
            begin == line_begin(self@.text, pos as int),
            begin <= pos,
    {
        let mut begin: usize = pos;
        while begin > 0 && self.text[begin - 1] != NEWLINE
            invariant
                begin <= pos <= self.text.len(),
                line_begin(self.text@, pos as int) == line_begin(self.text@, begin as int),
            decreases begin,
        {
            begin -= 1;
        }
        begin
    }

    /// Offset of the end of the line that `pos` lies on.
    fn line_end_at(&self, pos: usize) -> (end: usize)
        requires
            pos <= self.text.len(),
        ensures
            end == line_end(self@.text, pos as int),
            pos <= end <= self.text.len(),
    {
        let mut end: usize = pos;
        while end < self.text.len() && self.text[end] != NEWLINE
            invariant
                pos <= end <= self.text.len(),
                line_end(self.text@, pos as int) == line_end(self.text@, end as int),
            decreases self.text.len() - end,
        {
            end += 1;
        }
        end
    }

    /// Renders the excerpt for a span: the lines that the span touches, each
    /// followed by a line that marks the spanned columns.
    pub fn highlight(&self, span: Span) -> (out: Vec<u8>)
        ensures
            out@ == spec_highlight(self@.text, span.0 as int, span.1 as int),
    {
        let from = self.clamped(span.0);
        let upto = self.clamped(span.1);
        let to = if upto < from {
            from
        } else {
            upto
        };
        let mut out: Vec<u8> = Vec::new();
        let mut begin = self.line_begin_at(from);
        let mut lo = from;
        loop
            invariant_except_break
                out@ + rows(self.text@, begin as int, lo as int, to as int) == rows(
                    self.text@,
                    line_begin(self.text@, from as int),
                    from as int,
                    to as int,
                ),
            invariant
                begin <= lo <= to <= self.text.len(),
            ensures
                out@ == rows(
                    self.text@,
                    line_begin(self.text@, from as int),
                    from as int,
                    to as int,
                ),
            decreases self.text.len() - lo,
        {
            let end = self.line_end_at(lo);
            let ghost before = out@;
            if to <= end || end >= self.text.len() {
                push_row(&mut out, &self.text, begin, end, lo, to);
                break ;
            }
            push_row(&mut out, &self.text, begin, end, lo, end);
            assert(out@ + rows(self.text@, end + 1, end + 1, to as int) =~= before + rows(
                self.text@,
                begin as int,
                lo as int,
                to as int,
            ));
            begin = end + 1;
            lo = end + 1;
        }
        out
    }
}

} // verus!
