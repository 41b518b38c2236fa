use vstd::prelude::*;

verus! {

/// One drawable mark that a canvas cell can hold.
#[derive(Clone, Copy, PartialEq, Eq, Structural, Debug)]
pub enum Glyph {
    Point,
    Horizontal,
    Vertical,
    Cross,
    DiagRight,
    DiagLeft,
    Text(char),
}

/// The bullet that stands for a `Point`.
pub const BULLET: char = '\u{2022}';

/// The character that shows a glyph: its own character for `Text`.
pub open spec fn display_of(g: Glyph) -> char {
    match g {
        Glyph::Point => BULLET,
        Glyph::Horizontal => '-',
        Glyph::Vertical => '|',
        Glyph::Cross => '+',
        Glyph::DiagRight => '/',
        Glyph::DiagLeft => '\\',
        Glyph::Text(c) => c,
    }
}

impl Glyph {
    /// The character that shows this glyph.
    pub fn display_char(&self) -> (r: char)
        ensures
            r == display_of(*self),
    {
        match self {
            Glyph::Point => BULLET,
            Glyph::Horizontal => '-',
            Glyph::Vertical => '|',
            Glyph::Cross => '+',
            Glyph::DiagRight => '/',
            Glyph::DiagLeft => '\\',
            Glyph::Text(c) => *c,
        }
    }
}

} // verus!
