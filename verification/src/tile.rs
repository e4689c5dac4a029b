use vstd::prelude::*;

verus! {

/// One cell of the static level lattice.
#[derive(Clone, Copy, PartialEq, Eq, Structural, Debug)]
pub enum Tile {
    Empty,
    Ground,
    Spike,
}

/// Row-major lattice of tile kinds, immutable once a level is loaded.
#[derive(Debug)]
pub struct TileGrid {
    pub width: usize,
    pub height: usize,
    pub cells: Vec<Tile>,
}

impl TileGrid {
    pub open spec fn wf(self) -> bool {
        &&& self.cells@.len() == self.width * self.height
        &&& self.width <= 0x10000
        &&& self.height <= 0x10000
    }

    /// The kind stored at a coordinate, with every out-of-bounds coordinate
    /// reading as Empty.
    pub open spec fn spec_kind_at(self, x: int, y: int) -> Tile {
        if 0 <= x < self.width && 0 <= y < self.height {
            self.cells@[x + y * self.width]
        } else {
            Tile::Empty
        }
    }

    pub fn kind_at(&self, x: i64, y: i64) -> (t: Tile)
        requires
            self.wf(),
        ensures
            t == self.spec_kind_at(x as int, y as int),
    {
        if x < 0 || y < 0 || x >= self.width as i64 || y >= self.height as i64 {
            return Tile::Empty;
        }
        let xi: usize = x as usize;
        let yi: usize = y as usize;
        let n: usize = self.cells.len();
        proof {
            assert(xi + yi * self.width < self.width * self.height && yi * self.width
                <= 0x10000 * 0x10000) by (nonlinear_arith)
                requires
                    xi < self.width,
                    yi < self.height,
                    self.width <= 0x10000,
                    self.height <= 0x10000;
        }
        self.cells[xi + yi * self.width]
    }
}

} // verus!
