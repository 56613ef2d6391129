//! The tile map the actors live on, and its bounds.
use vstd::prelude::*;
use crate::region::UNIT;
use crate::world::ai::random_below;
use crate::world::vector::{POS_LIMIT, in_pos_range};

verus! {

/// Side of one map tile.
pub const GRID_TILE_SIZE: i64 = 12 * UNIT;

/// Largest number of tiles along a side of the map.
pub const MAX_CELLS: usize = 10_000;

#[derive(Debug, Clone, Copy, PartialEq, Eq, Structural)]
pub enum Tile {
    Grass,
    Forest,
    Stone,
    Ore,
    Gold,
    Road,
    Building,
}

pub open spec fn tile_spec(k: int) -> Tile {
    if k == 0 {
        Tile::Grass
    } else if k == 1 {
        Tile::Road
    } else if k == 2 {
        Tile::Stone
    } else if k == 3 {
        Tile::Ore
    } else if k == 4 {
        Tile::Gold
    } else if k == 5 {
        Tile::Forest
    } else {
        Tile::Building
    }
}

/// The tile drawn as number `k` of seven.
pub fn tile_of(k: usize) -> (t: Tile)
    ensures
        t == tile_spec(k as int),
{
    match k {
        0 => Tile::Grass,
        1 => Tile::Road,
        2 => Tile::Stone,
        3 => Tile::Ore,
        4 => Tile::Gold,
        5 => Tile::Forest,
        _ => Tile::Building,
    }
}

/// An axis-aligned box that positions are kept in.
#[derive(Debug, Clone, Copy, PartialEq, Eq, Structural)]
pub struct WorldBounds {
    pub x: i64,
    pub y: i64,
    pub w: i64,
    pub h: i64,
}

pub open spec fn clamp_to(v: int, lo: int, hi: int) -> int {
    if v < lo {
        lo
    } else if v > hi {
        hi
    } else {
        v
    }
}

impl WorldBounds {
    pub open spec fn valid(self) -> bool {
        &&& in_pos_range(self.x as int)
        &&& in_pos_range(self.y as int)
        &&& 0 <= self.w
        &&& 0 <= self.h
        &&& in_pos_range(self.x + self.w)
        &&& in_pos_range(self.y + self.h)
    }

    fn new(x: i64, y: i64, w: i64, h: i64) -> (b: Self)
        ensures
            b == (WorldBounds { x, y, w, h }),
    {
        Self { x, y, w, h }
    }

    /// Whether `(x, y)` lies in the box, edges included.
    pub fn in_bounds(&self, x: i64, y: i64) -> (r: bool)
        requires
            self.valid(),
        ensures
            r == (x >= self.x && x <= self.x + self.w && y >= self.y && y <= self.y + self.h),
    {
        x >= self.x && x <= self.x + self.w && y >= self.y && y <= self.y + self.h
    }

    /// The point of the box nearest to `(x, y)`.
    pub fn constrain(&self, x: i64, y: i64) -> (r: (i64, i64))
        requires
            self.valid(),
        ensures
            r.0 == clamp_to(x as int, self.x as int, self.x + self.w),
            r.1 == clamp_to(y as int, self.y as int, self.y + self.h),
    {
        let mut x = x;
        let mut y = y;
        if x < self.x {
            x = self.x;
        } else if x > self.x + self.w {
            x = self.x + self.w;
        }
        if y < self.y {
            y = self.y;
        } else if y >= self.y + self.h {
            y = self.y + self.h;
        }
        (x, y)
    }
}

/// A grid of `width` by `height` tiles, row by row.
pub struct TileMap {
    grid: Vec<Tile>,
    width: usize,
    height: usize,
}

impl TileMap {
    pub closed spec fn width_view(&self) -> usize {
        self.width
    }

    pub closed spec fn height_view(&self) -> usize {
        self.height
    }

    pub closed spec fn grid_view(&self) -> Seq<Tile> {
        self.grid@
    }

    pub open spec fn wf(&self) -> bool {
        &&& 0 < self.width_view() <= MAX_CELLS
        &&& 0 < self.height_view() <= MAX_CELLS
        &&& self.grid_view().len() == self.width_view() * self.height_view()
    }

    /// A map of random tiles.
    pub fn new(width: usize, height: usize) -> (m: Self)
        requires
            0 < width <= MAX_CELLS,
            0 < height <= MAX_CELLS,
        ensures
            m.wf(),
            m.width_view() == width,
            m.height_view() == height,
    {
        assert(width * height <= MAX_CELLS * MAX_CELLS) by (nonlinear_arith)
            requires
                0 < width <= MAX_CELLS,
                0 < height <= MAX_CELLS,
        ;
        let n = width * height;
        let mut grid: Vec<Tile> = Vec::new();
        while grid.len() < n
            invariant
                grid.len() <= n,
            decreases n - grid.len(),
        {
            grid.push(tile_of(random_below(7)));
        }
        Self { grid, width, height }
    }

    /// The place in the grid of the tile in column `x`, row `y`.
    fn get_index(&self, x: usize, y: usize) -> (i: usize)
        requires
            self.wf(),
            x < self.width_view(),
            y < self.height_view(),
        ensures
            i == x + y * self.width_view(),
            i < self.grid_view().len(),
    {
        let w = self.width;
        let h = self.height;
        assert(x + y * w < w * h) by (nonlinear_arith)
            requires
                x < w,
                y < h,
        ;
        assert(w * h <= MAX_CELLS * MAX_CELLS) by (nonlinear_arith)
            requires
                0 < w <= MAX_CELLS,
                0 < h <= MAX_CELLS,
        ;
        assert(y * w <= w * h) by (nonlinear_arith)
            requires
                y < h,
                0 < w,
        ;
        x + y * self.width
    }

    /// The tile in column `x`, row `y`.
    pub fn tile(&self, x: usize, y: usize) -> (t: Tile)
        requires
            self.wf(),
            x < self.width_view(),
            y < self.height_view(),
        ensures
            t == self.grid_view()[x + y * self.width_view()],
    {
        self.grid[self.get_index(x, y)]
    }

    /// The corner of the tile in column `x`, row `y`.
    pub fn get_cell_loc(&self, x: usize, y: usize) -> (r: (i64, i64))
        requires
            x <= MAX_CELLS,
            y <= MAX_CELLS,
        ensures
            r == ((x * GRID_TILE_SIZE) as i64, (y * GRID_TILE_SIZE) as i64),
    {
        ((x as i64) * GRID_TILE_SIZE, (y as i64) * GRID_TILE_SIZE)
    }

    pub fn get_bounds(&self) -> (b: WorldBounds)
        requires
            self.wf(),
        ensures
            b == (WorldBounds {
                x: 0,
                y: 0,
                w: (self.width_view() * GRID_TILE_SIZE) as i64,
                h: (self.height_view() * GRID_TILE_SIZE) as i64,
            }),
            b.valid(),
    {
        WorldBounds::new(
            0,
            0,
            (self.width as i64) * GRID_TILE_SIZE,
            (self.height as i64) * GRID_TILE_SIZE,
        )
    }

    /// The tile under point `(x, y)`, if it is on the map. A point on the
    /// line between two tiles belongs to the first of them.
    pub fn get_cell_for_pixel(&self, x: i64, y: i64) -> (r: Option<(usize, usize)>)
        requires
            self.wf(),
        ensures
            r == (if 0 <= x <= self.width_view() * GRID_TILE_SIZE && 0 <= y
                <= self.height_view() * GRID_TILE_SIZE {
                Some((cell_of(x as int) as usize, cell_of(y as int) as usize))
            } else {
                None
            }),
    {
        let bounds = self.get_bounds();
        if !bounds.in_bounds(x, y) {
            None
        } else {
            Some((cell_index(x), cell_index(y)))
        }
    }
}

/// The tile index along one axis of the coordinate `v`, nudged back by a
/// hundredth of a tile so that a tile's far edge belongs to it.
pub open spec fn cell_of(v: int) -> int {
    let nudged = v - GRID_TILE_SIZE / 100;
    if nudged < 0 {
        0
    } else {
        nudged / (GRID_TILE_SIZE as int)
    }
}

fn cell_index(v: i64) -> (r: usize)
    requires
        0 <= v <= POS_LIMIT,
    ensures
        r == cell_of(v as int),
{
    let nudged = v - GRID_TILE_SIZE / 100;
    if nudged < 0 {
        0
    } else {
        (nudged / GRID_TILE_SIZE) as usize
    }
}

} // verus!
