use super::{pad, Align, padded};
use crate::model::views_of;
use crate::style::{StyleDisplay, Styler};
use crate::text::{blanks, lines_of, spaces};
use crate::util::{all_chunked, all_fit, word_chunks, MIN_CHUNK_SIZE};
use vstd::prelude::*;

verus! {

/// Col represents a column in a table that spans one or more lines,
/// depending on `width`.
#[derive(Debug)]
pub struct Col {
    pub width: usize,
    pub lines: Vec<String>,
    pub styler: Styler,
}

/// What a column holds, as plain values.
pub struct ColView {
    pub width: nat,
    pub lines: Seq<Seq<char>>,
    pub styler: Styler,
}

impl View for Col {
    type V = ColView;

    open spec fn view(&self) -> ColView {
        ColView { width: self.width as nat, lines: views_of(self.lines@), styler: self.styler }
    }
}

impl ColView {
    /// What the column shows on its `n`th line, before any style: the line,
    /// or blanks where the column has fewer lines.
    pub open spec fn cell(self, n: int) -> Seq<char> {
        if 0 <= n < self.lines.len() {
            self.lines[n]
        } else {
            blanks(self.width)
        }
    }

    /// True when `out` can be what the column hands out for its `n`th
    /// line: blanks where the column has fewer lines, the line itself where
    /// the column has no style, and with a style whatever the terminal
    /// makes of the line.
    pub open spec fn shows(self, n: int, out: Seq<char>) -> bool {
        n >= self.lines.len() || self.styler.is_plain() ==> out == self.cell(n)
    }
}

/// The column of the width `width` that shows `text` in the style `styler`:
/// the text broken to lines of that width, each filled up with blanks.
pub open spec fn column(text: Seq<char>, width: nat, align: Align, styler: Styler) -> ColView {
    ColView {
        width,
        lines: padded_all(all_chunked(lines_of(text), width as int), width as int, align),
        styler,
    }
}

/// The lines `lines`, each filled up to `width` characters.
pub open spec fn padded_all(lines: Seq<Seq<char>>, width: int, align: Align) -> Seq<Seq<char>> {
    Seq::new(lines.len(), |i: int| padded(lines[i], width, align))
}

/// The lines of a column of the width `width` that shows `text` from the
/// left.
pub open spec fn column_lines(text: Seq<char>, width: int) -> Seq<Seq<char>> {
    padded_all(all_chunked(lines_of(text), width), width, Align::Left)
}

impl Col {
    /// True when every line of the column is as wide as the column.
    pub open spec fn wf(&self) -> bool {
        forall|i: int| 0 <= i < self.lines@.len() ==> (#[trigger] self.lines@[i])@.len()
            == self.width
    }

    /// What the column shows on its `n`th line, before any style: the line,
    /// or blanks where the column has fewer lines.
    pub open spec fn cell(&self, n: int) -> Seq<char> {
        if 0 <= n < self.lines@.len() {
            self.lines@[n]@
        } else {
            blanks(self.width as nat)
        }
    }

    /// A column of the given width that shows `content`, broken to lines of
    /// that width, each filled up with blanks.
    pub fn new<D: StyleDisplay>(width: usize, content: &D, align: Align) -> (r: Self)
        requires
            width >= MIN_CHUNK_SIZE,
        ensures
            r@ == column(content.shown_as(), width as nat, align, content.styled_as()),
            r.width == width,
            r.styler == content.styled_as(),
            views_of(r.lines@) == padded_all(
                all_chunked(lines_of(content.shown_as()), width as int),
                width as int,
                align,
            ),
            r.wf(),
    {
        let raw = content.text();
        let chunks = word_chunks(raw.as_str(), width);
        let ghost all = views_of(chunks@);
        let mut lines: Vec<String> = Vec::new();
        let mut i: usize = 0;
        while i < chunks.len()
            invariant
                i <= chunks@.len(),
                all == views_of(chunks@),
                all_fit(all, width as int),
                lines@.len() == i,
                forall|k: int| 0 <= k < i ==> (#[trigger] lines@[k])@ == padded(all[k], width as int, align),
                forall|k: int| 0 <= k < i ==> (#[trigger] lines@[k])@.len() == width,
            decreases chunks@.len() - i,
        {
            assert(all[i as int].len() <= width);
            lines.push(pad(chunks[i].as_str(), width, &align));
            i += 1;
        }
        assert(views_of(lines@) =~= padded_all(all, width as int, align));
        Self { width, lines, styler: content.styler() }
    }

    /// Returns the number of lines this column spans.
    pub fn height(&self) -> (r: usize)
        ensures
            r == self.lines@.len(),
    {
        self.lines.len()
    }

    /// Returns the `n`th line of this column in its style, or blanks of the
    /// width of the column where it has fewer lines.
    pub fn nth(&self, n: usize) -> (r: String)
        ensures
            self@.shows(n as int, r@),
            n >= self.lines@.len() || self.styler.is_plain() ==> r@ == self.cell(n as int),
    {
        if n < self.lines.len() {
            self.styler.style(self.lines[n].as_str())
        } else {
            spaces(self.width)
        }
    }
}

} // verus!
