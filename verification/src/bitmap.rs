//! A grid of 8-bit samples, one per pixel: the coverage of a glyph's outline,
//! or the luma of a monochrome symbol.

use vstd::prelude::*;

verus! {

/// The mathematical model of a bitmap: `width * height` samples, row-major,
/// origin at the top left.
pub struct Grid {
    pub width: nat,
    pub height: nat,
    pub cells: Seq<u8>,
}

impl Grid {
    /// Whether the grid holds exactly one sample for each of its pixels.
    pub open spec fn wf(self) -> bool {
        self.cells.len() == self.width * self.height
    }

    /// Whether `(x, y)` names a pixel of the grid.
    pub open spec fn contains(self, x: int, y: int) -> bool {
        0 <= x < self.width && 0 <= y < self.height
    }

    /// The sample at `(x, y)`.
    pub open spec fn at(self, x: int, y: int) -> u8 {
        self.cells[y * self.width + x]
    }
}

/// The place of `(x, y)` in a row-major grid of the given size lies within
/// the grid's samples.
pub proof fn lemma_cell_index(width: int, height: int, x: int, y: int)
    requires
        0 <= x < width,
        0 <= y < height,
    ensures
        0 <= y * width + x < width * height,
{
    assert(y * width + x < width * height) by (nonlinear_arith)
        requires
            0 <= x < width,
            0 <= y < height,
    {
        assert((y + 1) * width <= height * width);
        assert((y + 1) * width == y * width + width);
    }
    assert(0 <= y * width) by (nonlinear_arith)
        requires
            0 <= y,
            0 <= width,
    ;
}

/// A bitmap of 8-bit samples. It always holds exactly `width * height` of
/// them.
pub struct Bitmap {
    width: u32,
    height: u32,
    cells: Vec<u8>,
}

impl View for Bitmap {
    type V = Grid;

    closed spec fn view(&self) -> Grid {
        Grid { width: self.width as nat, height: self.height as nat, cells: self.cells@ }
    }
}

impl Bitmap {
    #[verifier::type_invariant]
    spec fn well_formed(self) -> bool {
        self.cells@.len() == self.width * self.height
    }

    /// A bitmap of the given size over `cells`, row by row from the top, or
    /// `None` where `cells` does not hold exactly `width * height` samples.
    pub fn new(width: u32, height: u32, cells: Vec<u8>) -> (bitmap: Option<Bitmap>)
        ensures
            bitmap is Some <==> cells@.len() == width * height,
            bitmap matches Some(b) ==> b@ == (Grid {
                width: width as nat,
                height: height as nat,
                cells: cells@,
            }),
    {
        assert(0 <= (width as int) * (height as int) <= 0xffff_ffff * 0xffff_ffff)
            by (nonlinear_arith)
            requires
                0 <= width <= 0xffff_ffff,
                0 <= height <= 0xffff_ffff,
        ;
        let area: u64 = (width as u64) * (height as u64);
        if cells.len() as u64 == area {
            Some(Bitmap { width, height, cells })
        } else {
            None
        }
    }

    /// The number of columns.
    pub fn width(&self) -> (w: u32)
        ensures
            w == self@.width,
            self@.wf(),
    {
        proof {
            use_type_invariant(self);
        }
        self.width
    }

    /// The number of rows.
    pub fn height(&self) -> (h: u32)
        ensures
            h == self@.height,
            self@.wf(),
    {
        proof {
            use_type_invariant(self);
        }
        self.height
    }

    /// The sample at `(x, y)`, which must lie within the bitmap.
    pub fn sample(&self, x: u32, y: u32) -> (s: u8)
        requires
            self@.contains(x as int, y as int),
        ensures
            s == self@.at(x as int, y as int),
    {
        let len: usize = self.cells.len();
        proof {
            use_type_invariant(self);
            lemma_cell_index(self.width as int, self.height as int, x as int, y as int);
            assert(0 <= (y as int) * (self.width as int)) by (nonlinear_arith);
            assert((y as int) * (self.width as int) + x < len);
        }
        let index: usize = (y as usize) * (self.width as usize) + (x as usize);
        self.cells[index]
    }

    /// The sample at `(x, y)`, or `None` outside the bitmap.
    pub fn get(&self, x: u32, y: u32) -> (s: Option<u8>)
        ensures
            s is Some <==> self@.contains(x as int, y as int),
            s matches Some(v) ==> v == self@.at(x as int, y as int),
    {
        if x < self.width && y < self.height {
            Some(self.sample(x, y))
        } else {
            None
        }
    }
}

} // verus!
