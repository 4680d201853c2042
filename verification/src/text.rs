//! A line of glyphs, and where its rows go on a screen.

use crate::font::{
    glyph, glyph_rows, glyph_width, lemma_built_in_glyphs, rows_of, Rows, Symbol, GLYPH_MAX_WIDTH,
};
use vstd::prelude::*;

verus! {

/// The columns a line of glyphs takes: the sum of the glyphs' widths.
pub open spec fn text_width(glyphs: Seq<Rows>) -> nat
    decreases glyphs.len(),
{
    if glyphs.len() == 0 {
        0
    } else {
        text_width(glyphs.drop_last()) + glyph_width(glyphs.last())
    }
}

/// The rows a line of glyphs takes: the height of its tallest glyph.
pub open spec fn text_height(glyphs: Seq<Rows>) -> nat
    decreases glyphs.len(),
{
    if glyphs.len() == 0 {
        0
    } else if text_height(glyphs.drop_last()) >= glyphs.last().len() {
        text_height(glyphs.drop_last())
    } else {
        glyphs.last().len()
    }
}

/// The glyphs for a run of characters, in the order of the characters.
/// A character without a glyph is left out.
pub open spec fn glyphs_of(chars: Seq<char>) -> Seq<Rows>
    decreases chars.len(),
{
    if chars.len() == 0 {
        Seq::empty()
    } else {
        match glyph_rows(chars.last()) {
            Some(rows) => glyphs_of(chars.drop_last()).push(rows),
            None => glyphs_of(chars.drop_last()),
        }
    }
}

/// A line does not get narrower when glyphs are added at its end.
pub proof fn lemma_text_width_grows(glyphs: Seq<Rows>, count: int)
    requires
        0 <= count <= glyphs.len(),
    ensures
        text_width(glyphs.take(count)) <= text_width(glyphs),
    decreases glyphs.len(),
{
    if count < glyphs.len() {
        assert(glyphs.drop_last().take(count) =~= glyphs.take(count));
        lemma_text_width_grows(glyphs.drop_last(), count);
    } else {
        assert(glyphs.take(count) =~= glyphs);
    }
}

/// The height of a line is the height of one of its glyphs, and no glyph of
/// the line is taller.
pub proof fn lemma_text_height_is_the_tallest(glyphs: Seq<Rows>)
    ensures
        forall|i: int|
            0 <= i < glyphs.len() ==> (#[trigger] glyphs[i]).len() <= text_height(glyphs),
        glyphs.len() > 0 ==> exists|i: int|
            0 <= i < glyphs.len() && (#[trigger] glyphs[i]).len() == text_height(glyphs),
        glyphs.len() == 0 ==> text_height(glyphs) == 0,
    decreases glyphs.len(),
{
    if glyphs.len() > 0 {
        let front = glyphs.drop_last();
        lemma_text_height_is_the_tallest(front);
        assert forall|i: int| 0 <= i < glyphs.len() implies (#[trigger] glyphs[i]).len()
            <= text_height(glyphs) by {
            if i < front.len() {
                assert(front[i] == glyphs[i]);
            }
        }
        if text_height(front) >= glyphs.last().len() && front.len() > 0 {
            let i = choose|i: int|
                0 <= i < front.len() && (#[trigger] front[i]).len() == text_height(front);
            assert(glyphs[i] == front[i]);
        } else {
            assert(glyphs[glyphs.len() - 1].len() == text_height(glyphs));
        }
    }
}

/// A run of characters yields at most one built-in glyph per character, so
/// its line is at most `GLYPH_MAX_WIDTH` columns wide per character.
pub proof fn lemma_glyphs_of_is_bounded(chars: Seq<char>)
    ensures
        glyphs_of(chars).len() <= chars.len(),
        text_width(glyphs_of(chars)) <= chars.len() * GLYPH_MAX_WIDTH,
    decreases chars.len(),
{
    if chars.len() > 0 {
        lemma_glyphs_of_is_bounded(chars.drop_last());
        if glyph_rows(chars.last()) is Some {
            lemma_built_in_glyphs(chars.last());
            let front = glyphs_of(chars.drop_last());
            assert(front.push(glyph_rows(chars.last())->0).drop_last() =~= front);
        }
    }
}

/// Where a span of `size` cells starts so that it sits in the middle of
/// `extent` cells: half the extent less half the size, and at the first cell
/// if that would fall before it.
pub open spec fn centered(extent: u16, size: nat) -> u16 {
    if extent / 2 >= size / 2 {
        (extent / 2 - size / 2) as u16
    } else {
        0
    }
}

/// The cell `offset` cells after `origin`, and the last cell that a `u16`
/// can address if that would fall behind it.
pub open spec fn shifted(origin: u16, offset: nat) -> u16 {
    if origin + offset <= u16::MAX {
        (origin + offset) as u16
    } else {
        u16::MAX
    }
}

/// One row of a glyph at its place on the screen, as a mathematical value.
pub struct Placed {
    pub column: u16,
    pub row: u16,
    pub text: Seq<char>,
}

/// One row of a glyph at its place on the screen: move the cursor to
/// `column`, `row` and print `text`.
#[derive(Clone, Copy, Debug, PartialEq, Eq)]
pub struct Stroke {
    pub column: u16,
    pub row: u16,
    pub text: &'static str,
}

impl View for Stroke {
    type V = Placed;

    open spec fn view(&self) -> Placed {
        Placed { column: self.column, row: self.row, text: self.text@ }
    }
}

/// The strokes of a frame as mathematical values.
pub open spec fn placed(strokes: Seq<Stroke>) -> Seq<Placed> {
    Seq::new(strokes.len(), |i: int| strokes[i]@)
}

/// The rows of one glyph, top row first, with the glyph's left edge in
/// column `column` and its top row in row `top`.
pub open spec fn glyph_strokes(rows: Rows, column: u16, top: u16) -> Seq<Placed> {
    Seq::new(rows.len(), |i: int| Placed { column, row: shifted(top, i as nat), text: rows[i] })
}

/// The rows of a line of glyphs, glyph by glyph from the left and within a
/// glyph from the top, with the line's left edge in column `left` and its
/// top row in row `top`. Each glyph starts where the one before it ends.
pub open spec fn line_strokes(glyphs: Seq<Rows>, left: u16, top: u16) -> Seq<Placed>
    decreases glyphs.len(),
{
    if glyphs.len() == 0 {
        Seq::empty()
    } else {
        line_strokes(glyphs.drop_last(), left, top) + glyph_strokes(
            glyphs.last(),
            shifted(left, text_width(glyphs.drop_last())),
            top,
        )
    }
}

/// How many rows the first `count` glyphs of a line have between them.
pub open spec fn rows_before(glyphs: Seq<Rows>, count: int) -> nat
    decreases count,
{
    if count <= 0 {
        0
    } else {
        rows_before(glyphs, count - 1) + glyphs[count - 1].len()
    }
}

/// The rows before a glyph do not depend on the glyphs after it.
proof fn lemma_rows_before_of_front(glyphs: Seq<Rows>, count: int)
    requires
        0 <= count < glyphs.len(),
    ensures
        rows_before(glyphs.drop_last(), count) == rows_before(glyphs, count),
    decreases count,
{
    if count > 0 {
        lemma_rows_before_of_front(glyphs, count - 1);
    }
}

/// A line is drawn in as many strokes as its glyphs have rows.
pub proof fn lemma_line_strokes_len(glyphs: Seq<Rows>, left: u16, top: u16)
    ensures
        line_strokes(glyphs, left, top).len() == rows_before(glyphs, glyphs.len() as int),
    decreases glyphs.len(),
{
    if glyphs.len() > 0 {
        lemma_line_strokes_len(glyphs.drop_last(), left, top);
        lemma_rows_before_of_front(glyphs, glyphs.len() - 1);
    }
}

/// Where each row of each glyph goes: row `row` of glyph `index` is drawn
/// after all rows of the glyphs before it and the rows above it, in the
/// column where the glyphs before it end, `row` rows below the top.
pub proof fn lemma_line_strokes_at(glyphs: Seq<Rows>, left: u16, top: u16, index: int, row: int)
    requires
        0 <= index < glyphs.len(),
        0 <= row < glyphs[index].len(),
    ensures
        rows_before(glyphs, index) + row < line_strokes(glyphs, left, top).len(),
        line_strokes(glyphs, left, top)[rows_before(glyphs, index) + row] == (Placed {
            column: shifted(left, text_width(glyphs.take(index))),
            row: shifted(top, row as nat),
            text: glyphs[index][row],
        }),
    decreases glyphs.len(),
{
    let front = glyphs.drop_last();
    lemma_line_strokes_len(front, left, top);
    if index == glyphs.len() - 1 {
        lemma_rows_before_of_front(glyphs, index);
        assert(glyphs.take(index) =~= front);
    } else {
        lemma_line_strokes_at(front, left, top, index, row);
        lemma_rows_before_of_front(glyphs, index);
        assert(front.take(index) =~= glyphs.take(index));
    }
}

/// The frame that shows a line of glyphs in the middle of a screen of
/// `width` columns and `height` rows.
pub open spec fn frame_of(glyphs: Seq<Rows>, width: u16, height: u16) -> Seq<Placed> {
    line_strokes(
        glyphs,
        centered(width, text_width(glyphs)),
        centered(height, text_height(glyphs)),
    )
}

/// A line of glyphs, left to right.
pub struct Text(Vec<Symbol>);

impl View for Text {
    type V = Seq<Rows>;

    closed spec fn view(&self) -> Seq<Rows> {
        Seq::new(self.0@.len(), |i: int| self.0@[i]@)
    }
}

impl Text {
    #[verifier::type_invariant]
    spec fn well_formed(self) -> bool {
        text_width(self@) <= usize::MAX
    }

    /// The glyphs, left to right.
    pub fn symbols(&self) -> (symbols: &Vec<Symbol>)
        ensures
            symbols@.len() == self@.len(),
            forall|i: int| 0 <= i < symbols@.len() ==> (#[trigger] symbols@[i])@ == self@[i],
    {
        &self.0
    }

    /// The columns the line takes.
    pub fn width(&self) -> (width: usize)
        ensures
            width == text_width(self@),
    {
        proof {
            use_type_invariant(self);
        }
        let mut width: usize = 0;
        let mut i: usize = 0;
        while i < self.0.len()
            invariant
                i <= self.0@.len(),
                self@.len() == self.0@.len(),
                width == text_width(self@.take(i as int)),
                text_width(self@) <= usize::MAX,
            decreases self.0.len() - i,
        {
            proof {
                lemma_text_width_grows(self@, i + 1);
                assert(self@.take(i + 1).drop_last() =~= self@.take(i as int));
            }
            width = width + self.0[i].width();
            i = i + 1;
        }
        assert(self@.take(i as int) =~= self@);
        width
    }

    /// The rows the line takes.
    pub fn height(&self) -> (height: usize)
        ensures
            height == text_height(self@),
    {
        let mut height: usize = 0;
        let mut i: usize = 0;
        while i < self.0.len()
            invariant
                i <= self.0@.len(),
                self@.len() == self.0@.len(),
                height == text_height(self@.take(i as int)),
            decreases self.0.len() - i,
        {
            proof {
                assert(self@.take(i + 1).drop_last() =~= self@.take(i as int));
            }
            let rows = self.0[i].height();
            if rows > height {
                height = rows;
            }
            i = i + 1;
        }
        assert(self@.take(i as int) =~= self@);
        height
    }

    /// Lays the line out in the middle of a screen of `width` columns and
    /// `height` rows. A line that is larger than the screen starts in the
    /// first column or row and runs off the far edge.
    pub fn layout(&self, width: u16, height: u16) -> (frame: Vec<Stroke>)
        ensures
            placed(frame@) == frame_of(self@, width, height),
    {
        proof {
            use_type_invariant(self);
        }
        let left = center(width, self.width());
        let top = center(height, self.height());
        let mut frame: Vec<Stroke> = Vec::new();
        let mut offset: usize = 0;
        let mut i: usize = 0;
        while i < self.0.len()
            invariant
                i <= self.0@.len(),
                self@.len() == self.0@.len(),
                offset == text_width(self@.take(i as int)),
                text_width(self@) <= usize::MAX,
                placed(frame@) == line_strokes(self@.take(i as int), left, top),
            decreases self.0.len() - i,
        {
            let symbol = &self.0[i];
            let column = shift(left, offset);
            let rows = symbol.rows();
            let ghost before = placed(frame@);
            let mut j: usize = 0;
            while j < rows.len()
                invariant
                    j <= rows@.len(),
                    rows_of(rows@) == symbol@,
                    placed(frame@) == before + glyph_strokes(symbol@, column, top).take(j as int),
                decreases rows.len() - j,
            {
                let ghost drawn = placed(frame@);
                let stroke = Stroke { column, row: shift(top, j), text: rows[j] };
                frame.push(stroke);
                proof {
                    let all = glyph_strokes(symbol@, column, top);
                    assert(stroke@ == all[j as int]);
                    assert(placed(frame@) =~= drawn.push(stroke@));
                    assert(all.take(j + 1) =~= all.take(j as int).push(all[j as int]));
                    assert(drawn.push(stroke@) =~= before + all.take(j + 1));
                }
                j = j + 1;
            }
            proof {
                assert(glyph_strokes(symbol@, column, top).take(j as int) =~= glyph_strokes(
                    symbol@,
                    column,
                    top,
                ));
                assert(self@.take(i + 1).drop_last() =~= self@.take(i as int));
                assert(self@.take(i + 1).last() == symbol@);
                lemma_text_width_grows(self@, i + 1);
            }
            offset = offset + symbol.width();
            i = i + 1;
        }
        assert(self@.take(i as int) =~= self@);
        frame
    }
}

/// Where a span of `size` cells starts so that it sits in the middle of
/// `extent` cells.
fn center(extent: u16, size: usize) -> (start: u16)
    ensures
        start == centered(extent, size as nat),
{
    let half = size / 2;
    if half <= (extent / 2) as usize {
        extent / 2 - half as u16
    } else {
        0
    }
}

/// The cell `offset` cells after `origin`.
fn shift(origin: u16, offset: usize) -> (cell: u16)
    ensures
        cell == shifted(origin, offset as nat),
{
    if offset <= (u16::MAX - origin) as usize {
        origin + offset as u16
    } else {
        u16::MAX
    }
}

/// Turns a string into the line of its glyphs. Characters that the built-in
/// glyphs do not cover are left out.
pub fn to_text(s: String) -> (text: Text)
    requires
        s@.len() * GLYPH_MAX_WIDTH <= usize::MAX,
    ensures
        text@ == glyphs_of(s@),
{
    let mut symbols: Vec<Symbol> = Vec::new();
    let ghost mut glyphs: Seq<Rows> = Seq::empty();
    for c in it: s.as_str().chars()
        invariant
            it.seq() == s@,
            glyphs == glyphs_of(s@.take(it.index() as int)),
            glyphs == Seq::new(symbols@.len(), |i: int| symbols@[i]@),
    {
        proof {
            assert(s@.take(it.index() + 1).drop_last() =~= s@.take(it.index() as int));
        }
        if let Some(symbol) = glyph(c) {
            proof {
                glyphs = glyphs.push(symbol@);
            }
            symbols.push(symbol);
            assert(glyphs =~= Seq::new(symbols@.len(), |i: int| symbols@[i]@));
        }
    }
    proof {
        assert(s@.take(s@.len() as int) =~= s@);
        lemma_glyphs_of_is_bounded(s@);
    }
    Text(symbols)
}

} // verus!
