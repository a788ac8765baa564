//! The grid world: a dense rectangular array of tiles with bounded lookup.

use vstd::prelude::*;

verus! {

/// A rectangular tile grid, row-major, with row `y` starting at offset
/// `y * width`.  Tile value `0` is passable floor; any non-zero value is
/// a solid wall.
pub struct TileMap {
    pub width: u32,
    pub height: u32,
    pub grid: Vec<u8>,
}

impl TileMap {
    /// The grid holds exactly one byte per tile and the tile count fits the
    /// index arithmetic.
    pub open spec fn wf(self) -> bool {
        &&& self.grid@.len() == self.width * self.height
        &&& self.width * self.height <= u32::MAX
    }

    /// The stored value of tile `(x, y)`, as a mathematical lookup.
    pub open spec fn tile_at(self, x: int, y: int) -> u8 {
        self.grid@[y * self.width + x]
    }

    /// Builds a map with every tile empty.
    pub fn new(width: u32, height: u32) -> (m: TileMap)
        requires
            width * height <= u32::MAX,
        ensures
            m.wf(),
            m.width == width,
            m.height == height,
            forall|x: int, y: int|
                0 <= x < width && 0 <= y < height ==> m.tile_at(x, y) == 0,
    {
        let count: u32 = width * height;
        let mut grid: Vec<u8> = Vec::new();
        let mut i: u32 = 0;
        while i < count
            invariant
                i <= count,
                grid@.len() == i,
                forall|j: int| 0 <= j < i ==> grid@[j] == 0,
            decreases count - i,
        {
            grid.push(0);
            i = i + 1;
        }
        let m = TileMap { width, height, grid };
        proof {
            assert forall|x: int, y: int|
                0 <= x < width && 0 <= y < height implies m.tile_at(x, y) == 0 by {
                lemma_tile_index_in_range(width as int, height as int, x, y);
            }
        }
        m
    }

    /// Stores `value` at `(x, y)` when in bounds; out-of-bounds writes are
    /// silently ignored.
    pub fn set_tile(&mut self, x: u32, y: u32, value: u8)
        requires
            old(self).wf(),
        ensures
            final(self).wf(),
            final(self).width == old(self).width,
            final(self).height == old(self).height,
            x < old(self).width && y < old(self).height ==> final(self).grid@
                == old(self).grid@.update(y * old(self).width + x, value),
            !(x < old(self).width && y < old(self).height) ==> final(self).grid@
                == old(self).grid@,
    {
        if x < self.width && y < self.height {
            proof {
                lemma_tile_index_in_range(
                    self.width as int,
                    self.height as int,
                    x as int,
                    y as int,
                );
            }
            let idx: u32 = y * self.width + x;
            self.grid[idx as usize] = value;
        }
    }

    /// Bounded lookup: present exactly when `(x, y)` lies inside the grid.
    pub fn get_tile(&self, x: u32, y: u32) -> (r: Option<u8>)
        requires
            self.wf(),
        ensures
            (r is Some) <==> (x < self.width && y < self.height),
            x < self.width && y < self.height ==> r == Some(
                self.tile_at(x as int, y as int),
            ),
    {
        if x >= self.width || y >= self.height {
            return None;
        }
        proof {
            lemma_tile_index_in_range(
                self.width as int,
                self.height as int,
                x as int,
                y as int,
            );
        }
        let idx: u32 = y * self.width + x;
        Some(self.grid[idx as usize])
    }
}

/// An in-bounds tile coordinate indexes inside the dense grid.
pub proof fn lemma_tile_index_in_range(width: int, height: int, x: int, y: int)
    requires
        0 <= x < width,
        0 <= y < height,
    ensures
        0 <= y * width + x < width * height,
{
    assert(0 <= y * width + x < width * height) by (nonlinear_arith)
        requires
            0 <= x < width,
            0 <= y < height,
    ;
}

} // verus!
