//! The glyphs of the clock face: large characters made of rows of text.

use vstd::prelude::*;

verus! {

/// The rows of a glyph, top row first, each row a run of characters.
pub type Rows = Seq<Seq<char>>;

/// Rows are a glyph if there is at least one and all are equally wide.
pub open spec fn is_glyph(rows: Rows) -> bool {
    &&& rows.len() >= 1
    &&& forall|i: int| 0 <= i < rows.len() ==> (#[trigger] rows[i]).len() == rows[0].len()
}

/// Rows of text as rows of characters.
pub open spec fn rows_of(rows: Seq<&'static str>) -> Rows {
    Seq::new(rows.len(), |i: int| rows[i]@)
}

/// How many columns a glyph takes: the width of its first row.
pub open spec fn glyph_width(rows: Rows) -> nat {
    rows[0].len()
}

/// Every built-in glyph is this many rows high.
pub const GLYPH_HEIGHT: usize = 5;

/// No built-in glyph is wider than this.
pub const GLYPH_MAX_WIDTH: usize = 6;

/// The built-in glyph for a character: the ten digits and the colon have
/// one, no other character has.
pub open spec fn glyph_rows(c: char) -> Option<Rows> {
    if c == '0' {
        Some(seq!["##### "@, "#   # "@, "#   # "@, "#   # "@, "##### "@])
    } else if c == '1' {
        Some(seq!["    # "@, "    # "@, "    # "@, "    # "@, "    # "@])
    } else if c == '2' {
        Some(seq!["##### "@, "    # "@, "##### "@, "#     "@, "##### "@])
    } else if c == '3' {
        Some(seq!["##### "@, "    # "@, "##### "@, "    # "@, "##### "@])
    } else if c == '4' {
        Some(seq!["#   # "@, "#   # "@, "##### "@, "    # "@, "    # "@])
    } else if c == '5' {
        Some(seq!["##### "@, "#     "@, "##### "@, "    # "@, "##### "@])
    } else if c == '6' {
        Some(seq!["##### "@, "#     "@, "##### "@, "#   # "@, "##### "@])
    } else if c == '7' {
        Some(seq!["##### "@, "    # "@, "    # "@, "    # "@, "    # "@])
    } else if c == '8' {
        Some(seq!["##### "@, "#   # "@, "##### "@, "#   # "@, "##### "@])
    } else if c == '9' {
        Some(seq!["##### "@, "#   # "@, "##### "@, "    # "@, "##### "@])
    } else if c == ':' {
        Some(seq!["    "@, " #  "@, "    "@, " #  "@, "    "@])
    } else {
        None
    }
}

/// Every built-in glyph is a glyph, five rows high and at most six columns
/// wide.
pub proof fn lemma_built_in_glyphs(c: char)
    requires
        glyph_rows(c) is Some,
    ensures
        is_glyph(glyph_rows(c)->0),
        glyph_rows(c)->0.len() == GLYPH_HEIGHT,
        1 <= glyph_width(glyph_rows(c)->0) <= GLYPH_MAX_WIDTH,
{
    reveal_strlit("##### ");
    reveal_strlit("#   # ");
    reveal_strlit("    # ");
    reveal_strlit("#     ");
    reveal_strlit("    ");
    reveal_strlit(" #  ");
}

/// One glyph: the rows of text that draw one character.
pub struct Symbol(Vec<&'static str>);

impl View for Symbol {
    type V = Rows;

    closed spec fn view(&self) -> Rows {
        rows_of(self.0@)
    }
}

impl Symbol {
    #[verifier::type_invariant]
    spec fn well_formed(self) -> bool {
        is_glyph(self@)
    }

    /// A glyph of the given rows, if there is at least one row and all rows
    /// are equally wide.
    pub fn new(rows: Vec<&'static str>) -> (symbol: Option<Symbol>)
        ensures
            symbol is Some <==> is_glyph(rows_of(rows@)),
            symbol matches Some(s) ==> s@ == rows_of(rows@),
    {
        let ghost view = rows_of(rows@);
        if rows.len() == 0 {
            return None;
        }
        let width = rows[0].unicode_len();
        let mut i: usize = 1;
        while i < rows.len()
            invariant
                1 <= i <= rows.len(),
                width == rows@[0]@.len(),
                view == rows_of(rows@),
                forall|j: int| 0 <= j < i ==> (#[trigger] view[j]).len() == width,
            decreases rows.len() - i,
        {
            if rows[i].unicode_len() != width {
                assert(view[i as int].len() != view[0].len());
                return None;
            }
            i = i + 1;
        }
        Some(Symbol(rows))
    }

    /// The rows, top row first.
    pub fn rows(&self) -> (rows: &Vec<&'static str>)
        ensures
            rows_of(rows@) == self@,
            is_glyph(self@),
    {
        proof {
            use_type_invariant(self);
        }
        &self.0
    }

    /// How many columns the glyph takes.
    pub fn width(&self) -> (width: usize)
        ensures
            width == glyph_width(self@),
            is_glyph(self@),
    {
        proof {
            use_type_invariant(self);
        }
        self.0[0].unicode_len()
    }

    /// How many rows the glyph takes.
    pub fn height(&self) -> (height: usize)
        ensures
            height == self@.len(),
            is_glyph(self@),
    {
        proof {
            use_type_invariant(self);
        }
        self.0.len()
    }
}

/// Looks a character up in the built-in glyphs.
pub fn glyph(c: char) -> (symbol: Option<Symbol>)
    ensures
        symbol is Some <==> glyph_rows(c) is Some,
        symbol matches Some(s) ==> Some(s@) == glyph_rows(c),
{
    let rows = match c {
        '0' => vec!["##### ", "#   # ", "#   # ", "#   # ", "##### "],
        '1' => vec!["    # ", "    # ", "    # ", "    # ", "    # "],
        '2' => vec!["##### ", "    # ", "##### ", "#     ", "##### "],
        '3' => vec!["##### ", "    # ", "##### ", "    # ", "##### "],
        '4' => vec!["#   # ", "#   # ", "##### ", "    # ", "    # "],
        '5' => vec!["##### ", "#     ", "##### ", "    # ", "##### "],
        '6' => vec!["##### ", "#     ", "##### ", "#   # ", "##### "],
        '7' => vec!["##### ", "    # ", "    # ", "    # ", "    # "],
        '8' => vec!["##### ", "#   # ", "##### ", "#   # ", "##### "],
        '9' => vec!["##### ", "#   # ", "##### ", "    # ", "##### "],
        ':' => vec!["    ", " #  ", "    ", " #  ", "    "],
        _ => {
            return None;
        },
    };
    proof {
        lemma_built_in_glyphs(c);
        assert(rows_of(rows@) =~= glyph_rows(c)->0);
    }
    Some(Symbol(rows))
}

} // verus!
