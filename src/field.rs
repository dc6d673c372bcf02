//! Row-major grids of 8-bit intensities and of RGB colours.
use vstd::prelude::*;

verus! {

/// An RGB colour with 8-bit channels.
#[derive(Clone, Copy, PartialEq, Eq, Debug, Structural)]
pub struct Rgb {
    pub r: u8,
    pub g: u8,
    pub b: u8,
}

/// A `width` x `height` grid of 8-bit intensities, stored row by row:
/// the cell at column `x` and row `y` is `cells[y * width + x]`.
pub struct GrayField {
    pub width: usize,
    pub height: usize,
    pub cells: Vec<u8>,
}

/// A `width` x `height` grid of colours, stored row by row like `GrayField`.
pub struct ColorField {
    pub width: usize,
    pub height: usize,
    pub pixels: Vec<Rgb>,
}

/// Index of column `x`, row `y` in a row-major grid `width` cells wide.
pub open spec fn cell_index(width: int, x: int, y: int) -> int {
    y * width + x
}

/// Every cell of a `width` x `height` grid has an index below `width * height`,
/// and from that index its column and row come back by `%` and `/`.
pub proof fn lemma_cell_index(width: int, height: int, x: int, y: int)
    requires
        0 <= x < width,
        0 <= y < height,
    ensures
        0 <= cell_index(width, x, y) < width * height,
        cell_index(width, x, y) % width == x,
        cell_index(width, x, y) / width == y,
{
    assert(0 <= y * width + x < width * height) by (nonlinear_arith)
        requires
            0 <= x < width,
            0 <= y < height,
    ;
    vstd::arithmetic::div_mod::lemma_fundamental_div_mod_converse(y * width + x, width, y, x);
}

impl GrayField {
    /// The grid holds exactly one cell per column and row.
    pub open spec fn wf(&self) -> bool {
        self.cells@.len() == self.width * self.height
    }

    /// The intensity at column `x`, row `y`.
    pub open spec fn at(&self, x: int, y: int) -> u8 {
        self.cells@[cell_index(self.width as int, x, y)]
    }

    /// Wraps row-major `cells` as a `width` x `height` grid; `None` when the
    /// number of cells is not `width * height`.
    pub fn from_cells(width: usize, height: usize, cells: Vec<u8>) -> (r: Option<GrayField>)
        ensures
            r is Some <==> cells@.len() == width * height,
            r matches Some(f) ==> f.wf() && f.width == width && f.height == height && f.cells@
                == cells@,
    {
        let len = cells.len();
        match width.checked_mul(height) {
            Some(n) => {
                if len == n {
                    Some(GrayField { width, height, cells })
                } else {
                    None
                }
            },
            None => None,
        }
    }

    /// The intensity at column `x`, row `y`.
    pub fn get(&self, x: usize, y: usize) -> (r: u8)
        requires
            self.wf(),
            x < self.width,
            y < self.height,
        ensures
            r == self.at(x as int, y as int),
    {
        let len = self.cells.len();
        proof {
            lemma_cell_index(self.width as int, self.height as int, x as int, y as int);
        }
        self.cells[y * self.width + x]
    }

    /// The grid as RGB bytes, three equal channels per cell, row by row.
    pub fn to_rgb_bytes(&self) -> (r: Vec<u8>)
        requires
            3 * self.cells@.len() <= usize::MAX,
        ensures
            r@.len() == 3 * self.cells@.len(),
            forall|i: int, c: int|
                0 <= i < self.cells@.len() && 0 <= c < 3 ==> #[trigger] r@[3 * i + c]
                    == self.cells@[i],
    {
        let mut r: Vec<u8> = Vec::with_capacity(3 * self.cells.len());
        let mut i: usize = 0;
        while i < self.cells.len()
            invariant
                3 * self.cells@.len() <= usize::MAX,
                i <= self.cells@.len(),
                r@.len() == 3 * i,
                forall|j: int, c: int|
                    0 <= j < i && 0 <= c < 3 ==> #[trigger] r@[3 * j + c] == self.cells@[j],
            decreases self.cells@.len() - i,
        {
            let v = self.cells[i];
            r.push(v);
            r.push(v);
            r.push(v);
            proof {
                assert forall|j: int, c: int|
                    0 <= j < i + 1 && 0 <= c < 3 implies #[trigger] r@[3 * j + c]
                        == self.cells@[j] by {
                    if j < i {
                        assert(3 * j + c < 3 * i);
                    }
                }
            }
            i += 1;
        }
        r
    }
}

impl ColorField {
    /// The grid holds exactly one pixel per column and row.
    pub open spec fn wf(&self) -> bool {
        self.pixels@.len() == self.width * self.height
    }

    /// The colour at column `x`, row `y`.
    pub open spec fn at(&self, x: int, y: int) -> Rgb {
        self.pixels@[cell_index(self.width as int, x, y)]
    }

    /// The colour at column `x`, row `y`.
    pub fn get(&self, x: usize, y: usize) -> (r: Rgb)
        requires
            self.wf(),
            x < self.width,
            y < self.height,
        ensures
            r == self.at(x as int, y as int),
    {
        let len = self.pixels.len();
        proof {
            lemma_cell_index(self.width as int, self.height as int, x as int, y as int);
        }
        self.pixels[y * self.width + x]
    }

    /// The grid as RGB bytes, red, green and blue per pixel, row by row.
    pub fn to_rgb_bytes(&self) -> (r: Vec<u8>)
        requires
            3 * self.pixels@.len() <= usize::MAX,
        ensures
            r@.len() == 3 * self.pixels@.len(),
            forall|i: int|
                0 <= i < self.pixels@.len() ==> #[trigger] r@[3 * i] == self.pixels@[i].r && r@[3
                    * i + 1] == self.pixels@[i].g && r@[3 * i + 2] == self.pixels@[i].b,
    {
        let mut r: Vec<u8> = Vec::with_capacity(3 * self.pixels.len());
        let mut i: usize = 0;
        while i < self.pixels.len()
            invariant
                3 * self.pixels@.len() <= usize::MAX,
                i <= self.pixels@.len(),
                r@.len() == 3 * i,
                forall|j: int|
                    0 <= j < i ==> #[trigger] r@[3 * j] == self.pixels@[j].r && r@[3 * j + 1]
                        == self.pixels@[j].g && r@[3 * j + 2] == self.pixels@[j].b,
            decreases self.pixels@.len() - i,
        {
            let p = self.pixels[i];
            let ghost before = r@;
            r.push(p.r);
            r.push(p.g);
            r.push(p.b);
            proof {
                assert forall|j: int|
                    0 <= j < i + 1 implies #[trigger] r@[3 * j] == self.pixels@[j].r && r@[3 * j
                        + 1] == self.pixels@[j].g && r@[3 * j + 2] == self.pixels@[j].b by {
                    if j < i {
                        assert(3 * j + 2 < 3 * i);
                        assert(r@[3 * j] == before[3 * j]);
                        assert(r@[3 * j + 1] == before[3 * j + 1]);
                        assert(r@[3 * j + 2] == before[3 * j + 2]);
                    }
                }
            }
            i += 1;
        }
        r
    }
}

} // verus!
