use vstd::prelude::*;

verus! {

/// A display character together with its position in the unwrapped text.
#[derive(Clone, Copy, Debug, PartialEq, Eq, Structural)]
pub struct Glyph {
    pub ch: char,
    pub idx: usize,
}

/// Rows of glyphs, top to bottom.
pub type Layout = Vec<Vec<Glyph>>;

/// Where the practice text comes from.
pub enum TextSource {
    /// Words to draw from at random.
    RandomWords(Vec<String>),
    /// A literal text, used as it is.
    Fixed(String),
}

/// Rows held as vectors, as mathematical sequences.
pub open spec fn rows_view<T>(rows: Vec<Vec<T>>) -> Seq<Seq<T>> {
    Seq::new(rows@.len(), |r: int| rows@[r]@)
}

/// Reading order: rows from the top, each row from the left.
pub open spec fn precedes(r1: int, c1: int, r2: int, c2: int) -> bool {
    r1 < r2 || (r1 == r2 && c1 < c2)
}

/// Positions grow strictly in reading order: what makes rows of glyphs a layout.
pub open spec fn strictly_increasing(rows: Seq<Seq<Glyph>>) -> bool {
    forall|r1: int, c1: int, r2: int, c2: int|
        0 <= r1 < rows.len() && 0 <= c1 < rows[r1].len() && 0 <= r2 < rows.len() && 0 <= c2
            < rows[r2].len() && precedes(r1, c1, r2, c2) ==> rows[r1][c1].idx < rows[r2][c2].idx
}

} // verus!
