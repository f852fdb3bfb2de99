//! A font face bound to a point size, as plain tables: line metrics, the
//! advance and coverage of each glyph, and the kerning of glyph pairs.
//!
//! Lengths along the line are in sixty-fourths of a pixel; coverage bitmaps
//! are in whole pixels. A font is read-only: text blocks that use the same
//! face and size share one table.

use vstd::prelude::*;
use crate::bitmap::Bitmap;

verus! {

/// The visible mark of a glyph: its coverage, and where the coverage lies
/// relative to the pen when the glyph is drawn.
pub struct Outline {
    /// Columns from the pen's pixel to the left edge of the coverage.
    pub left: i32,
    /// Rows from the baseline's pixel to the top edge of the coverage;
    /// negative above the baseline.
    pub top: i32,
    /// One sample per covered pixel: 0 for untouched, 255 for fully covered.
    pub coverage: Bitmap,
}

/// What the font knows of one character.
pub struct FontGlyph {
    pub ch: char,
    /// How far the pen moves after the glyph, in sixty-fourths of a pixel.
    pub advance: i32,
    /// The glyph's mark, or `None` where it has none (a space).
    pub outline: Option<Outline>,
}

/// A spacing adjustment between two adjacent characters.
pub struct KernPair {
    pub left: char,
    pub right: char,
    /// Added to the pen before `right` is placed after `left`, in
    /// sixty-fourths of a pixel.
    pub adjust: i32,
}

/// A font face at one size.
pub struct ScaledFont {
    /// Distance from the top of a line to its baseline.
    pub ascent: i32,
    /// Height of a line's metric box: ascent plus descent.
    pub height: i32,
    /// Extra distance between the metric boxes of two lines.
    pub line_gap: i32,
    /// The glyphs of the face. Where a character occurs twice the first entry
    /// counts.
    pub glyphs: Vec<FontGlyph>,
    /// The kerning pairs of the face. Where a pair occurs twice the first
    /// entry counts.
    pub kerning: Vec<KernPair>,
}

/// The first entry for `c` among `glyphs`, if there is one.
pub open spec fn find_glyph(glyphs: Seq<FontGlyph>, c: char) -> Option<FontGlyph>
    decreases glyphs.len(),
{
    if glyphs.len() == 0 {
        None
    } else if glyphs[0].ch == c {
        Some(glyphs[0])
    } else {
        find_glyph(glyphs.drop_first(), c)
    }
}

/// The adjustment of the first entry for `left` followed by `right` among
/// `pairs`, or zero where there is none.
pub open spec fn find_kern(pairs: Seq<KernPair>, left: char, right: char) -> int
    decreases pairs.len(),
{
    if pairs.len() == 0 {
        0
    } else if pairs[0].left == left && pairs[0].right == right {
        pairs[0].adjust as int
    } else {
        find_kern(pairs.drop_first(), left, right)
    }
}

impl ScaledFont {
    /// The distance from one baseline to the next.
    pub open spec fn line_height(self) -> int {
        self.height + self.line_gap
    }

    /// The advance of `c`. A character that the font has no glyph for takes
    /// no room.
    pub open spec fn advance_of(self, c: char) -> int {
        match find_glyph(self.glyphs@, c) {
            Some(g) => g.advance as int,
            None => 0,
        }
    }

    /// The mark of `c`, or `None` where `c` has none or the font has no glyph
    /// for it.
    pub open spec fn outline_of(self, c: char) -> Option<Outline> {
        match find_glyph(self.glyphs@, c) {
            Some(g) => g.outline,
            None => None,
        }
    }

    /// The kerning adjustment for `right` placed after `left`.
    pub open spec fn kern_of(self, left: char, right: char) -> int {
        find_kern(self.kerning@, left, right)
    }

    /// The font's entry for `c`, if it has one.
    pub fn glyph(&self, c: char) -> (found: Option<&FontGlyph>)
        ensures
            match found {
                Some(g) => find_glyph(self.glyphs@, c) == Some(*g),
                None => find_glyph(self.glyphs@, c) is None,
            },
    {
        let mut i: usize = 0;
        assert(self.glyphs@.skip(0) =~= self.glyphs@);
        while i < self.glyphs.len()
            invariant
                i <= self.glyphs.len(),
                find_glyph(self.glyphs@, c) == find_glyph(self.glyphs@.skip(i as int), c),
            decreases self.glyphs.len() - i,
        {
            if self.glyphs[i].ch == c {
                return Some(&self.glyphs[i]);
            }
            assert(self.glyphs@.skip(i as int).drop_first() =~= self.glyphs@.skip(i + 1));
            i = i + 1;
        }
        None
    }

    /// The advance of `c`.
    pub fn h_advance(&self, c: char) -> (advance: i32)
        ensures
            advance == self.advance_of(c),
    {
        match self.glyph(c) {
            Some(g) => g.advance,
            None => 0,
        }
    }

    /// The kerning adjustment for `right` placed after `left`.
    pub fn kern(&self, left: char, right: char) -> (adjust: i32)
        ensures
            adjust == self.kern_of(left, right),
    {
        let mut i: usize = 0;
        assert(self.kerning@.skip(0) =~= self.kerning@);
        while i < self.kerning.len()
            invariant
                i <= self.kerning.len(),
                find_kern(self.kerning@, left, right) == find_kern(
                    self.kerning@.skip(i as int),
                    left,
                    right,
                ),
            decreases self.kerning.len() - i,
        {
            if self.kerning[i].left == left && self.kerning[i].right == right {
                return self.kerning[i].adjust;
            }
            assert(self.kerning@.skip(i as int).drop_first() =~= self.kerning@.skip(i + 1));
            i = i + 1;
        }
        0
    }
}

} // verus!
