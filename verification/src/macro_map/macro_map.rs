//! Bulk generation: the whole map at once, region by region, and the pass
//! that stitches the regions into one grid.
//!
//! A map is `width` by `height` regions, each one unit square of the world
//! sampled as a macro chunk is: `meso_pixels` by `meso_pixels` samples at
//! detail level 0. The regions are numbered column by column. Each region is
//! computed from its number alone, so the regions of one map may be
//! generated in any order, or side by side.

use vstd::prelude::*;
use crate::raster::{cell_index, lemma_cell_index, Rgb, RgbImage};
use crate::macro_map::terrain::noise_layers::{NoiseStrategies, NoiseStrategy, NoiseValues};
use crate::macro_map::terrain::tiling::{classify, Tile, TilingStrategy};
use crate::macro_map::terrain::terrain_chunks::{
    lemma_row_and_column, macro_cell_position, macro_position, ChunkingConfig,
};
use crate::macro_map::terrain::world_chunks::{fraction, in_bounds, macro_cell, terrain_at, whole};

verus! {

/// The quotient and the remainder of `x` by `y`.
pub fn div_rem(x: usize, y: usize) -> (parts: (usize, usize))
    requires
        y > 0,
    ensures
        parts.0 == x / y,
        parts.1 == x % y,
{
    let quot = x / y;
    let rem = x % y;
    (quot, rem)
}

/// The quotient and the remainder of `x` by `y`.
pub fn div_rem_usize(x: usize, y: usize) -> (parts: (usize, usize))
    requires
        y > 0,
    ensures
        parts.0 == x / y,
        parts.1 == x % y,
{
    div_rem(x, y)
}

/// Whether a map of `width` by `height` regions, `meso_pixels` samples a
/// side each, fits the machine: its regions have coordinates, and its
/// regions, the samples of a region and the cells of its stitched grid can
/// be counted.
pub open spec fn map_fits(width: usize, height: usize, meso_pixels: usize) -> bool {
    &&& width <= i32::MAX
    &&& height <= i32::MAX
    &&& width * height <= usize::MAX
    &&& meso_pixels * meso_pixels <= usize::MAX
    &&& width * meso_pixels <= usize::MAX
    &&& height * meso_pixels <= usize::MAX
    &&& (width * meso_pixels) * (height * meso_pixels) <= usize::MAX
}

/// Computes [`map_fits`].
pub fn map_fits_machine(width: usize, height: usize, meso_pixels: usize) -> (fits: bool)
    ensures
        fits == map_fits(width, height, meso_pixels),
{
    if width > i32::MAX as usize || height > i32::MAX as usize {
        return false;
    }
    if width.checked_mul(height).is_none() || meso_pixels.checked_mul(meso_pixels).is_none() {
        return false;
    }
    match (width.checked_mul(meso_pixels), height.checked_mul(meso_pixels)) {
        (Some(grid_width), Some(grid_height)) => grid_width.checked_mul(grid_height).is_some(),
        _ => false,
    }
}

/// One sample of the map with its tile and the point it was taken at.
#[derive(Clone, Copy, Debug, PartialEq, Eq)]
pub struct MacroMapTile {
    pub tile: Tile,
    pub values: NoiseValues,
    pub coords: (i64, i64),
}

/// The sample of the world at cell `(cell_x, cell_y)` of the region at
/// `(column, row)`, for regions of `meso_pixels` cells a side.
pub open spec fn region_tile<C: NoiseStrategy, T: NoiseStrategy, A: NoiseStrategy>(
    strategies: &NoiseStrategies<C, T, A>,
    tiling: &TilingStrategy,
    column: int,
    row: int,
    meso_pixels: nat,
    cell_x: int,
    cell_y: int,
) -> MacroMapTile {
    let x = macro_position(column as i32, cell_x, meso_pixels as int);
    let y = macro_position(row as i32, cell_y, meso_pixels as int);
    let values = strategies.values_at(x, y, 0);
    MacroMapTile { tile: classify(tiling.config(), values), values, coords: (x, y) }
}

/// The samples of the region at `(column, row)`, row by row.
pub open spec fn region_tiles<C: NoiseStrategy, T: NoiseStrategy, A: NoiseStrategy>(
    strategies: &NoiseStrategies<C, T, A>,
    tiling: &TilingStrategy,
    column: int,
    row: int,
    meso_pixels: nat,
) -> Seq<MacroMapTile> {
    Seq::new(
        meso_pixels * meso_pixels,
        |k: int|
            region_tile(
                strategies,
                tiling,
                column,
                row,
                meso_pixels,
                k % (meso_pixels as int),
                k / (meso_pixels as int),
            ),
    )
}

/// The sample of the world at cell `(x, y)` of the stitched grid: the cell
/// `(x % meso_pixels, y % meso_pixels)` of the region at
/// `(x / meso_pixels, y / meso_pixels)`.
pub open spec fn world_tile<C: NoiseStrategy, T: NoiseStrategy, A: NoiseStrategy>(
    strategies: &NoiseStrategies<C, T, A>,
    tiling: &TilingStrategy,
    meso_pixels: nat,
    x: int,
    y: int,
) -> MacroMapTile {
    region_tile(
        strategies,
        tiling,
        x / (meso_pixels as int),
        y / (meso_pixels as int),
        meso_pixels,
        x % (meso_pixels as int),
        y % (meso_pixels as int),
    )
}

/// What a region holds.
pub struct MesoMapView {
    pub index: (nat, nat),
    pub low_res_map: Seq<MacroMapTile>,
}

/// One region of the map: its column and row, and its samples row by row.
pub struct MesoMap {
    index: (usize, usize),
    low_res_map: Vec<MacroMapTile>,
}

impl View for MesoMap {
    type V = MesoMapView;

    closed spec fn view(&self) -> MesoMapView {
        MesoMapView {
            index: (self.index.0 as nat, self.index.1 as nat),
            low_res_map: self.low_res_map@,
        }
    }
}

impl MesoMap {
    /// The column and the row of the region.
    pub fn index(&self) -> (index: (usize, usize))
        ensures
            index.0 == self@.index.0,
            index.1 == self@.index.1,
    {
        self.index
    }

    /// The samples of the region, row by row.
    pub fn low_res_map(&self) -> (tiles: &Vec<MacroMapTile>)
        ensures
            tiles@ == self@.low_res_map,
    {
        &self.low_res_map
    }
}

/// What a map holds.
pub struct MacroMapView {
    pub size: (nat, nat),
    pub meso_pixels: nat,
    pub meso_maps: Seq<MesoMapView>,
}

impl MacroMapView {
    /// Whether the map holds every region of a `size.0` by `size.1` map,
    /// column by column, each sampled from `strategies` and classified by
    /// `tiling`.
    pub open spec fn generated_by<C: NoiseStrategy, T: NoiseStrategy, A: NoiseStrategy>(
        self,
        strategies: &NoiseStrategies<C, T, A>,
        tiling: &TilingStrategy,
    ) -> bool {
        &&& self.meso_maps.len() == self.size.0 * self.size.1
        &&& forall|i: int|
            0 <= i < self.meso_maps.len() ==> (#[trigger] self.meso_maps[i]) == region_of(
                strategies,
                tiling,
                self.size.1,
                self.meso_pixels,
                i,
            )
    }
}

/// The region with the number `index` of a map `height` regions tall.
pub open spec fn region_of<C: NoiseStrategy, T: NoiseStrategy, A: NoiseStrategy>(
    strategies: &NoiseStrategies<C, T, A>,
    tiling: &TilingStrategy,
    height: nat,
    meso_pixels: nat,
    index: int,
) -> MesoMapView {
    let column = index / (height as int);
    let row = index % (height as int);
    MesoMapView {
        index: (column as nat, row as nat),
        low_res_map: region_tiles(strategies, tiling, column, row, meso_pixels),
    }
}

/// A generated map: its size in regions, the side of a region in samples,
/// and the regions column by column.
pub struct MacroMap {
    size: (usize, usize),
    meso_pixels: usize,
    meso_maps: Vec<MesoMap>,
}

impl View for MacroMap {
    type V = MacroMapView;

    closed spec fn view(&self) -> MacroMapView {
        MacroMapView {
            size: (self.size.0 as nat, self.size.1 as nat),
            meso_pixels: self.meso_pixels as nat,
            meso_maps: Seq::new(self.meso_maps@.len(), |i: int| self.meso_maps@[i]@),
        }
    }
}

impl MacroMapView {
    /// The number of the region at `(column, row)`.
    pub open spec fn region_number(self, column: int, row: int) -> int {
        cell_index(row, column, self.size.1 as int)
    }

    /// Whether the map holds one region of the right shape for every place
    /// of a `size.0` by `size.1` map, column by column.
    pub open spec fn complete(self) -> bool {
        &&& self.meso_maps.len() == self.size.0 * self.size.1
        &&& forall|i: int|
            0 <= i < self.meso_maps.len() ==> {
                &&& (#[trigger] self.meso_maps[i]).index == (
                    (i / (self.size.1 as int)) as nat,
                    (i % (self.size.1 as int)) as nat,
                )
                &&& self.meso_maps[i].low_res_map.len() == self.meso_pixels * self.meso_pixels
            }
    }

    /// The number of cells in one row of the stitched grid.
    pub open spec fn grid_width(self) -> nat {
        self.size.0 * self.meso_pixels
    }

    /// The number of rows of the stitched grid.
    pub open spec fn grid_height(self) -> nat {
        self.size.1 * self.meso_pixels
    }

    /// The sample at cell `(x, y)` of the stitched grid: the one that the
    /// region at `(x / meso_pixels, y / meso_pixels)` holds for its cell
    /// `(x % meso_pixels, y % meso_pixels)`.
    pub open spec fn stitched(self, x: int, y: int) -> MacroMapTile {
        let side = self.meso_pixels as int;
        self.meso_maps[self.region_number(x / side, y / side)].low_res_map[cell_index(
            x % side,
            y % side,
            side,
        )]
    }

    /// The column of the stitched grid that is drawn at column `x` of the
    /// picture: each region is drawn mirrored, left to right, in its place.
    pub open spec fn mirrored(self, x: int) -> int {
        let side = self.meso_pixels as int;
        (x / side) * side + (side - 1 - x % side)
    }

    /// The colour at `(x, y)` of the picture of the region with the number
    /// `index`: the region is drawn mirrored, left to right.
    pub open spec fn drawn_in_region(self, index: int, x: int, y: int) -> Seq<u8> {
        self.meso_maps[index].low_res_map[cell_index(
            self.meso_pixels - 1 - x,
            y,
            self.meso_pixels as int,
        )].tile.palette()
    }

    /// Where the region with the number `index` stands on a tile map whose
    /// rows are counted from the bottom: in its column, and in its row
    /// counted from the far end.
    pub open spec fn tile_position(self, index: int) -> (int, int) {
        (index / (self.size.1 as int), self.size.1 - 1 - index % (self.size.1 as int))
    }

    /// The colour of the picture at `(x, y)`.
    pub open spec fn drawn(self, x: int, y: int) -> Seq<u8> {
        self.stitched(self.mirrored(x), y).tile.palette()
    }
}

impl MacroMap {
    /// Puts regions that were generated apart together as one map. The
    /// regions have to be those of a `width` by `height` map, column by
    /// column, each `meso_pixels` samples a side; otherwise there is no map.
    pub fn from_regions(
        width: usize,
        height: usize,
        meso_pixels: usize,
        meso_maps: Vec<MesoMap>,
    ) -> (map: Option<MacroMap>)
        requires
            width * height <= usize::MAX,
            meso_pixels * meso_pixels <= usize::MAX,
        ensures
            match map {
                Some(map) => {
                    &&& map@.size == (width as nat, height as nat)
                    &&& map@.meso_pixels == meso_pixels
                    &&& map@.meso_maps == Seq::new(meso_maps@.len(), |i: int| meso_maps@[i]@)
                    &&& map@.complete()
                },
                None => !(MacroMapView {
                    size: (width as nat, height as nat),
                    meso_pixels: meso_pixels as nat,
                    meso_maps: Seq::new(meso_maps@.len(), |i: int| meso_maps@[i]@),
                }).complete(),
            },
    {
        let ghost view = MacroMapView {
            size: (width as nat, height as nat),
            meso_pixels: meso_pixels as nat,
            meso_maps: Seq::new(meso_maps@.len(), |i: int| meso_maps@[i]@),
        };
        if meso_maps.len() != width * height {
            return None;
        }
        let mut i: usize = 0;
        while i < meso_maps.len()
            invariant
                i <= meso_maps@.len(),
                meso_maps@.len() == width * height,
                meso_pixels * meso_pixels <= usize::MAX,
                view == (MacroMapView {
                    size: (width as nat, height as nat),
                    meso_pixels: meso_pixels as nat,
                    meso_maps: Seq::new(meso_maps@.len(), |i: int| meso_maps@[i]@),
                }),
                forall|n: int|
                    0 <= n < i ==> {
                        &&& (#[trigger] view.meso_maps[n]).index == (
                            (n / (height as int)) as nat,
                            (n % (height as int)) as nat,
                        )
                        &&& view.meso_maps[n].low_res_map.len() == meso_pixels * meso_pixels
                    },
            decreases meso_maps@.len() - i,
        {
            proof {
                lemma_region_in_map(i as int, width as int, height as int);
            }
            let (column, row) = div_rem_usize(i, height);
            let index = meso_maps[i].index();
            let samples: usize = meso_maps[i].low_res_map().len();
            if index.0 != column || index.1 != row || samples != meso_pixels * meso_pixels {
                assert(!view.complete()) by {
                    assert(view.meso_maps[i as int] == meso_maps@[i as int]@);
                }
                return None;
            }
            i = i + 1;
        }
        let map = MacroMap { size: (width, height), meso_pixels, meso_maps };
        assert(map@.meso_maps =~= view.meso_maps);
        Some(map)
    }

    /// The size of the map in regions: its width and its height.
    pub fn size(&self) -> (size: (usize, usize))
        ensures
            size.0 == self@.size.0,
            size.1 == self@.size.1,
    {
        self.size
    }

    /// The side of a region in samples.
    pub fn meso_pixels(&self) -> (side: usize)
        ensures
            side == self@.meso_pixels,
    {
        self.meso_pixels
    }

    /// The regions, column by column.
    pub fn meso_maps(&self) -> (regions: &Vec<MesoMap>)
        ensures
            regions@.len() == self@.meso_maps.len(),
            forall|i: int| 0 <= i < regions@.len() ==> (#[trigger] regions@[i])@ == self@.meso_maps[i],
    {
        &self.meso_maps
    }

    /// Where the region with the number `index` stands on a tile map whose
    /// rows are counted from the bottom.
    pub fn tile_position(&self, index: usize) -> (position: (u32, u32))
        requires
            self@.complete(),
            index < self@.meso_maps.len(),
            self@.size.0 <= u32::MAX,
            self@.size.1 <= u32::MAX,
        ensures
            (position.0 as int, position.1 as int) == self@.tile_position(index as int),
    {
        proof {
            lemma_region_in_map(index as int, self.size.0 as int, self.size.1 as int);
        }
        let (column, row) = div_rem_usize(index, self.size.1);
        (column as u32, (self.size.1 - 1 - row) as u32)
    }

    /// Draws the region with the number `index`: one pixel for each sample,
    /// in the colour of its tile, mirrored left to right.
    pub fn render_region(&self, index: usize) -> (image: RgbImage)
        requires
            self@.complete(),
            index < self@.meso_maps.len(),
            self@.meso_pixels <= u32::MAX,
        ensures
            image.columns() == self@.meso_pixels,
            image.rows() == self@.meso_pixels,
            image@.len() == self@.meso_pixels * self@.meso_pixels,
            forall|x: int, y: int|
                0 <= x < self@.meso_pixels && 0 <= y < self@.meso_pixels ==> image@[cell_index(
                    x,
                    y,
                    self@.meso_pixels as int,
                )].channels() == self@.drawn_in_region(index as int, x, y),
    {
        let side: usize = self.meso_pixels;
        assert(self@.meso_maps[index as int].low_res_map.len() == side * side);
        let tiles = self.meso_maps[index].low_res_map();
        let total: usize = tiles.len();
        let mut pixels: Vec<Rgb> = Vec::new();
        let mut k: usize = 0;
        while k < total
            invariant
                k <= total,
                total == side * side,
                side == self@.meso_pixels,
                tiles@ == self@.meso_maps[index as int].low_res_map,
                tiles@.len() == total,
                pixels@.len() == k,
                forall|n: int|
                    0 <= n < k ==> (#[trigger] pixels@[n]).channels() == self@.drawn_in_region(
                        index as int,
                        n % (side as int),
                        n / (side as int),
                    ),
            decreases total - k,
        {
            proof {
                lemma_row_and_column(k as int, side as int);
            }
            let x: usize = k % side;
            let y: usize = k / side;
            proof {
                lemma_cell_index((side - 1 - x) as int, y as int, side as int, side as int);
            }
            pixels.push(tiles[y * side + (side - 1 - x)].tile.rbg_colour());
            k = k + 1;
        }
        proof {
            assert forall|x: int, y: int|
                0 <= x < self@.meso_pixels && 0 <= y < self@.meso_pixels implies pixels@[cell_index(
                x,
                y,
                self@.meso_pixels as int,
            )].channels() == self@.drawn_in_region(index as int, x, y) by {
                lemma_cell_index(x, y, side as int, side as int);
            }
        }
        RgbImage::from_pixels(side as u32, side as u32, pixels)
    }

    /// Draws the map: one pixel for each sample, in the colour of its tile,
    /// the regions in their places and each region mirrored left to right.
    pub fn render(&self) -> (image: RgbImage)
        requires
            self@.complete(),
            self@.grid_width() <= u32::MAX,
            self@.grid_height() <= u32::MAX,
            self@.grid_width() * self@.grid_height() <= usize::MAX,
        ensures
            image.columns() == self@.grid_width(),
            image.rows() == self@.grid_height(),
            image@.len() == self@.grid_width() * self@.grid_height(),
            forall|x: int, y: int|
                0 <= x < self@.grid_width() && 0 <= y < self@.grid_height() ==> image@[cell_index(
                    x,
                    y,
                    self@.grid_width() as int,
                )].channels() == self@.drawn(x, y),
    {
        let side: usize = self.meso_pixels;
        if side == 0 || self.size.0 == 0 || self.size.1 == 0 {
            assert(self@.grid_width() == 0 || self@.grid_height() == 0) by (nonlinear_arith)
                requires
                    self@.meso_pixels == 0 || self@.size.0 == 0 || self@.size.1 == 0,
                    self@.grid_width() == self@.size.0 * self@.meso_pixels,
                    self@.grid_height() == self@.size.1 * self@.meso_pixels,
            ;
            assert(self@.grid_width() * self@.grid_height() == 0) by (nonlinear_arith)
                requires
                    self@.grid_width() == 0 || self@.grid_height() == 0,
            ;
            let columns: usize = if side == 0 || self.size.0 == 0 {
                0
            } else {
                self.size.0 * side
            };
            let rows: usize = if side == 0 || self.size.1 == 0 {
                0
            } else {
                self.size.1 * side
            };
            assert(columns == self@.grid_width() && rows == self@.grid_height()) by (nonlinear_arith)
                requires
                    side == self@.meso_pixels,
                    self@.grid_width() == self@.size.0 * self@.meso_pixels,
                    self@.grid_height() == self@.size.1 * self@.meso_pixels,
                    columns == if side == 0 || self@.size.0 == 0 {
                        0
                    } else {
                        self@.size.0 * side
                    },
                    rows == if side == 0 || self@.size.1 == 0 {
                        0
                    } else {
                        self@.size.1 * side
                    },
            ;
            return RgbImage::from_pixels(columns as u32, rows as u32, Vec::new());
        }
        proof {
            lemma_grid_fits(self.size.0 as int, self.size.1 as int, side as int);
        }
        let grid_width: usize = self.size.0 * side;
        let grid_height: usize = self.size.1 * side;
        let total: usize = grid_width * grid_height;
        let mut pixels: Vec<Rgb> = Vec::new();
        let mut k: usize = 0;
        while k < total
            invariant
                k <= total,
                total == grid_width * grid_height,
                grid_width == self@.grid_width(),
                grid_height == self@.grid_height(),
                side == self@.meso_pixels,
                side > 0,
                grid_width > 0,
                side * side <= usize::MAX,
                self@.size.0 * self@.size.1 <= usize::MAX,
                self@.complete(),
                pixels@.len() == k,
                forall|n: int|
                    0 <= n < k ==> (#[trigger] pixels@[n]).channels() == self@.drawn(
                        n % (grid_width as int),
                        n / (grid_width as int),
                    ),
            decreases total - k,
        {
            proof {
                assert(grid_height * grid_width == grid_width * grid_height) by (nonlinear_arith);
                lemma_region_in_map(k as int, grid_height as int, grid_width as int);
            }
            let x: usize = k % grid_width;
            let y: usize = k / grid_width;
            proof {
                lemma_region_in_map(x as int, self.size.0 as int, side as int);
                lemma_region_in_map(y as int, self.size.1 as int, side as int);
            }
            let across: usize = side - 1 - x % side;
            proof {
                lemma_cell_index(across as int, (x / side) as int, side as int, self.size.0 as int);
                lemma_cell_index(
                    (y / side) as int,
                    (x / side) as int,
                    self.size.1 as int,
                    self.size.0 as int,
                );
                lemma_cell_index(across as int, (y % side) as int, side as int, side as int);
                assert(self.size.1 * self.size.0 == self.size.0 * self.size.1) by (nonlinear_arith);
                assert(self@.mirrored(x as int) == cell_index(
                    across as int,
                    (x / side) as int,
                    side as int,
                ));
            }
            let region: usize = (x / side) * self.size.1 + y / side;
            assert(self@.meso_maps[region as int].low_res_map.len() == side * side);
            let tiles = self.meso_maps[region].low_res_map();
            let cell: usize = (y % side) * side + across;
            pixels.push(tiles[cell].tile.rbg_colour());
            k = k + 1;
        }
        proof {
            assert forall|x: int, y: int|
                0 <= x < self@.grid_width() && 0 <= y < self@.grid_height() implies pixels@[cell_index(
                x,
                y,
                self@.grid_width() as int,
            )].channels() == self@.drawn(x, y) by {
                lemma_cell_index(x, y, grid_width as int, grid_height as int);
            }
        }
        RgbImage::from_pixels(grid_width as u32, grid_height as u32, pixels)
    }

    /// Stitches the regions into one grid that covers the whole map, row by
    /// row: `grid_width` cells to a row, `grid_height` rows.
    pub fn stitch(&self) -> (grid: Vec<MacroMapTile>)
        requires
            self@.complete(),
            self@.grid_width() * self@.grid_height() <= usize::MAX,
        ensures
            grid@.len() == self@.grid_width() * self@.grid_height(),
            forall|x: int, y: int|
                0 <= x < self@.grid_width() && 0 <= y < self@.grid_height() ==> grid@[cell_index(
                    x,
                    y,
                    self@.grid_width() as int,
                )] == self@.stitched(x, y),
    {
        let side: usize = self.meso_pixels;
        if side == 0 || self.size.0 == 0 || self.size.1 == 0 {
            assert(self@.grid_width() == 0 || self@.grid_height() == 0) by (nonlinear_arith)
                requires
                    self@.meso_pixels == 0 || self@.size.0 == 0 || self@.size.1 == 0,
                    self@.grid_width() == self@.size.0 * self@.meso_pixels,
                    self@.grid_height() == self@.size.1 * self@.meso_pixels,
            ;
            assert(self@.grid_width() * self@.grid_height() == 0) by (nonlinear_arith)
                requires
                    self@.grid_width() == 0 || self@.grid_height() == 0,
            ;
            return Vec::new();
        }
        proof {
            lemma_grid_fits(
                self.size.0 as int,
                self.size.1 as int,
                side as int,
            );
        }
        let grid_width: usize = self.size.0 * side;
        let grid_height: usize = self.size.1 * side;
        let total: usize = grid_width * grid_height;
        let mut grid: Vec<MacroMapTile> = Vec::new();
        let mut k: usize = 0;
        while k < total
            invariant
                k <= total,
                total == grid_width * grid_height,
                grid_width == self@.grid_width(),
                grid_height == self@.grid_height(),
                side == self@.meso_pixels,
                side > 0,
                grid_width > 0,
                side * side <= usize::MAX,
                self@.size.0 * self@.size.1 <= usize::MAX,
                self@.complete(),
                grid@.len() == k,
                forall|n: int|
                    0 <= n < k ==> grid@[n] == self@.stitched(
                        n % (grid_width as int),
                        n / (grid_width as int),
                    ),
            decreases total - k,
        {
            proof {
                assert(grid_height * grid_width == grid_width * grid_height) by (nonlinear_arith);
                lemma_region_in_map(k as int, grid_height as int, grid_width as int);
            }
            let x: usize = k % grid_width;
            let y: usize = k / grid_width;
            proof {
                lemma_region_in_map(x as int, self.size.0 as int, side as int);
                lemma_region_in_map(y as int, self.size.1 as int, side as int);
                lemma_cell_index(
                    (y / side) as int,
                    (x / side) as int,
                    self.size.1 as int,
                    self.size.0 as int,
                );
                lemma_cell_index((x % side) as int, (y % side) as int, side as int, side as int);
                assert(self.size.1 * self.size.0 == self.size.0 * self.size.1) by (nonlinear_arith);
            }
            let region: usize = (x / side) * self.size.1 + y / side;
            assert(self@.meso_maps[region as int].low_res_map.len() == side * side);
            let tiles = self.meso_maps[region].low_res_map();
            let cell: usize = (y % side) * side + x % side;
            grid.push(tiles[cell]);
            k = k + 1;
        }
        proof {
            assert forall|x: int, y: int|
                0 <= x < self@.grid_width() && 0 <= y < self@.grid_height() implies grid@[cell_index(
                x,
                y,
                self@.grid_width() as int,
            )] == self@.stitched(x, y) by {
                lemma_cell_index(x, y, grid_width as int, grid_height as int);
            }
        }
        grid
    }
}

/// The bulk generator: the strategies and the classifier that the lazy
/// caches use, applied to a whole map at once.
pub struct ParallelGridGenerator<C: NoiseStrategy, T: NoiseStrategy, A: NoiseStrategy> {
    pub noise_strategies: NoiseStrategies<C, T, A>,
    pub tiling_strategy: TilingStrategy,
}

impl<C: NoiseStrategy, T: NoiseStrategy, A: NoiseStrategy> ParallelGridGenerator<C, T, A> {
    /// The generator for three fields and a classifier.
    pub fn new(
        noise_strategies: NoiseStrategies<C, T, A>,
        tiling_strategy: TilingStrategy,
    ) -> (generator: Self)
        ensures
            generator.noise_strategies == noise_strategies,
            generator.tiling_strategy == tiling_strategy,
    {
        ParallelGridGenerator { noise_strategies, tiling_strategy }
    }

    /// Generates a map of `width` by `height` regions, `chunk_size` samples
    /// a side each, and stitches it into one grid, row by row: cell
    /// `(x, y)` of the grid holds the sample of the world there.
    pub fn generate(&self, width: usize, height: usize, chunk_size: usize) -> (grid: Vec<
        MacroMapTile,
    >)
        requires
            map_fits(width, height, chunk_size),
        ensures
            grid@.len() == (width * chunk_size) * (height * chunk_size),
            forall|x: int, y: int|
                0 <= x < width * chunk_size && 0 <= y < height * chunk_size ==> grid@[cell_index(
                    x,
                    y,
                    width * chunk_size,
                )] == world_tile(
                    &self.noise_strategies,
                    &self.tiling_strategy,
                    chunk_size as nat,
                    x,
                    y,
                ),
    {
        let map = generate_macro_map(
            width,
            height,
            chunk_size,
            &self.noise_strategies,
            &self.tiling_strategy,
        );
        proof {
            lemma_generated_is_complete(map@, &self.noise_strategies, &self.tiling_strategy);
        }
        let grid = map.stitch();
        proof {
            assert forall|x: int, y: int|
                0 <= x < width * chunk_size && 0 <= y < height * chunk_size implies grid@[cell_index(
                x,
                y,
                width * chunk_size,
            )] == world_tile(
                &self.noise_strategies,
                &self.tiling_strategy,
                chunk_size as nat,
                x,
                y,
            ) by {
                lemma_stitched_is_world(map@, &self.noise_strategies, &self.tiling_strategy, x, y);
            }
        }
        grid
    }
}

/// A map that was generated holds every region, each of the right shape.
pub proof fn lemma_generated_is_complete<C: NoiseStrategy, T: NoiseStrategy, A: NoiseStrategy>(
    map: MacroMapView,
    strategies: &NoiseStrategies<C, T, A>,
    tiling: &TilingStrategy,
)
    requires
        map.generated_by(strategies, tiling),
    ensures
        map.complete(),
{
    assert forall|i: int| 0 <= i < map.meso_maps.len() implies {
        &&& (#[trigger] map.meso_maps[i]).index == (
            (i / (map.size.1 as int)) as nat,
            (i % (map.size.1 as int)) as nat,
        )
        &&& map.meso_maps[i].low_res_map.len() == map.meso_pixels * map.meso_pixels
    } by {
        lemma_region_in_map(i, map.size.0 as int, map.size.1 as int);
    }
}

/// Stitching changes no sample: in a map that was generated, the cell
/// `(x, y)` of the stitched grid holds the sample of the world there.
pub proof fn lemma_stitched_is_world<C: NoiseStrategy, T: NoiseStrategy, A: NoiseStrategy>(
    map: MacroMapView,
    strategies: &NoiseStrategies<C, T, A>,
    tiling: &TilingStrategy,
    x: int,
    y: int,
)
    requires
        map.generated_by(strategies, tiling),
        0 <= x < map.grid_width(),
        0 <= y < map.grid_height(),
    ensures
        map.stitched(x, y) == world_tile(strategies, tiling, map.meso_pixels, x, y),
{
    let side = map.meso_pixels as int;
    let width = map.size.0 as int;
    let height = map.size.1 as int;
    assert(side > 0) by (nonlinear_arith)
        requires
            0 <= x < width * side,
            0 <= side,
    ;
    lemma_region_in_map(x, width, side);
    lemma_region_in_map(y, height, side);
    lemma_cell_index(y / side, x / side, height, width);
    lemma_cell_index(x % side, y % side, side, side);
    assert(height * width == width * height) by (nonlinear_arith);
    let number = map.region_number(x / side, y / side);
    assert(map.meso_maps[number] == region_of(strategies, tiling, map.size.1, map.meso_pixels, number));
}

/// A grid of `width` by `height` regions of side `side` has as many cells
/// as `width * side` times `height * side`; where that product fits the
/// machine, so do its two factors and the number of regions, and a region
/// holds no more cells than the grid.
pub proof fn lemma_grid_fits(width: int, height: int, side: int)
    requires
        width > 0,
        height > 0,
        side > 0,
    ensures
        width * side > 0,
        height * side > 0,
        width * side <= (width * side) * (height * side),
        height * side <= (width * side) * (height * side),
        width * height <= (width * side) * (height * side),
        side * side <= (width * side) * (height * side),
{
    assert(width * side > 0 && height * side > 0) by (nonlinear_arith)
        requires
            width > 0,
            height > 0,
            side > 0,
    ;
    assert(width * side <= (width * side) * (height * side)) by (nonlinear_arith)
        requires
            width > 0,
            height > 0,
            side > 0,
    ;
    assert(height * side <= (width * side) * (height * side)) by (nonlinear_arith)
        requires
            width > 0,
            height > 0,
            side > 0,
    ;
    assert(width * height <= (width * side) * (height * side)) by (nonlinear_arith)
        requires
            width > 0,
            height > 0,
            side > 0,
    ;
    assert(side * side <= (width * side) * (height * side)) by (nonlinear_arith)
        requires
            width > 0,
            height > 0,
            side > 0,
    ;
}

/// Generates the region with the number `index` of a map `height` regions
/// tall.
pub fn generate_region<C: NoiseStrategy, T: NoiseStrategy, A: NoiseStrategy>(
    height: usize,
    meso_pixels: usize,
    index: usize,
    noise_strategies: &NoiseStrategies<C, T, A>,
    tiling_strategy: &TilingStrategy,
) -> (region: MesoMap)
    requires
        height > 0,
        index / height <= i32::MAX,
        height <= i32::MAX,
        meso_pixels * meso_pixels <= usize::MAX,
    ensures
        region@ == region_of(
            noise_strategies,
            tiling_strategy,
            height as nat,
            meso_pixels as nat,
            index as int,
        ),
{
    let (i, j) = div_rem_usize(index, height);
    let column: i32 = i as i32;
    let row: i32 = j as i32;
    let total: usize = meso_pixels * meso_pixels;
    let mut low_res_map: Vec<MacroMapTile> = Vec::new();
    let mut k: usize = 0;
    while k < total
        invariant
            k <= total,
            total == meso_pixels * meso_pixels,
            column == i,
            row == j,
            low_res_map@.len() == k,
            forall|n: int|
                0 <= n < k ==> low_res_map@[n] == region_tiles(
                    noise_strategies,
                    tiling_strategy,
                    i as int,
                    j as int,
                    meso_pixels as nat,
                )[n],
        decreases total - k,
    {
        proof {
            lemma_row_and_column(k as int, meso_pixels as int);
        }
        let local_x: usize = k % meso_pixels;
        let local_y: usize = k / meso_pixels;
        let global_x: i64 = macro_cell_position(column, local_x, meso_pixels);
        let global_y: i64 = macro_cell_position(row, local_y, meso_pixels);
        let values = noise_strategies.generate(global_x, global_y, 0);
        let tile = tiling_strategy.get_tile(&values);
        low_res_map.push(MacroMapTile { tile, values, coords: (global_x, global_y) });
        k = k + 1;
    }
    assert(low_res_map@ =~= region_tiles(
        noise_strategies,
        tiling_strategy,
        i as int,
        j as int,
        meso_pixels as nat,
    ));
    MesoMap { index: (i, j), low_res_map }
}

/// Generates every region of a `width` by `height` map, one after the
/// other.
pub fn generate_macro_map<C: NoiseStrategy, T: NoiseStrategy, A: NoiseStrategy>(
    width: usize,
    height: usize,
    meso_pixels: usize,
    noise_strategies: &NoiseStrategies<C, T, A>,
    tiling_strategy: &TilingStrategy,
) -> (map: MacroMap)
    requires
        width <= i32::MAX,
        height <= i32::MAX,
        width * height <= usize::MAX,
        meso_pixels * meso_pixels <= usize::MAX,
    ensures
        map@.size == (width as nat, height as nat),
        map@.meso_pixels == meso_pixels,
        map@.generated_by(noise_strategies, tiling_strategy),
{
    let total: usize = width * height;
    let mut meso_maps: Vec<MesoMap> = Vec::new();
    let mut index: usize = 0;
    while index < total
        invariant
            index <= total,
            total == width * height,
            width <= i32::MAX,
            height <= i32::MAX,
            meso_pixels * meso_pixels <= usize::MAX,
            meso_maps@.len() == index,
            forall|i: int|
                0 <= i < index ==> (#[trigger] meso_maps@[i])@ == region_of(
                    noise_strategies,
                    tiling_strategy,
                    height as nat,
                    meso_pixels as nat,
                    i,
                ),
        decreases total - index,
    {
        proof {
            lemma_region_in_map(index as int, width as int, height as int);
        }
        let region = generate_region(
            height,
            meso_pixels,
            index,
            noise_strategies,
            tiling_strategy,
        );
        meso_maps.push(region);
        index = index + 1;
    }
    MacroMap { size: (width, height), meso_pixels, meso_maps }
}

/// The region with the number `index` of a `width` by `height` map stands
/// inside the map.
pub proof fn lemma_region_in_map(index: int, width: int, height: int)
    requires
        0 <= width,
        0 <= height,
        0 <= index < width * height,
    ensures
        height > 0,
        0 <= index / height < width,
        0 <= index % height < height,
        cell_index(index % height, index / height, height) == index,
{
    assert(height > 0) by (nonlinear_arith)
        requires
            0 <= width,
            0 <= height,
            0 <= index < width * height,
    ;
    vstd::arithmetic::div_mod::lemma_fundamental_div_mod(index, height);
    vstd::arithmetic::div_mod::lemma_mod_bound(index, height);
    assert(0 <= index / height < width) by (nonlinear_arith)
        requires
            0 <= index < width * height,
            height > 0,
            index == height * (index / height) + index % height,
            0 <= index % height < height,
    ;
    assert(height * (index / height) == (index / height) * height) by (nonlinear_arith);
}

/// The column, or the row, of the stitched grid in which a coordinate falls,
/// for regions of `side` cells a side.
pub open spec fn grid_cell(x: i64, side: nat) -> int {
    whole(x) * side + macro_cell(x, side)
}

/// Bulk and lazy generation agree. Where the regions of a map are as fine as
/// the macro chunks of a world with the same strategies, the sample that the
/// stitched grid holds at the cell in which a point of the map falls is the
/// sample that the world returns for that point at detail level 0.
pub proof fn bulk_agrees_with_lazy<C: NoiseStrategy, T: NoiseStrategy, A: NoiseStrategy>(
    strategies: &NoiseStrategies<C, T, A>,
    tiling: &TilingStrategy,
    chunking: ChunkingConfig,
    x: i64,
    y: i64,
)
    requires
        in_bounds(chunking, x, y),
        chunking.macro_chunk_size > 0,
    ensures
        0 <= grid_cell(x, chunking.macro_chunk_size as nat) < chunking.map_width
            * chunking.macro_chunk_size,
        0 <= grid_cell(y, chunking.macro_chunk_size as nat) < chunking.map_height
            * chunking.macro_chunk_size,
        world_tile(
            strategies,
            tiling,
            chunking.macro_chunk_size as nat,
            grid_cell(x, chunking.macro_chunk_size as nat),
            grid_cell(y, chunking.macro_chunk_size as nat),
        ).values == terrain_at(strategies, chunking, x, y, 0),
        world_tile(
            strategies,
            tiling,
            chunking.macro_chunk_size as nat,
            grid_cell(x, chunking.macro_chunk_size as nat),
            grid_cell(y, chunking.macro_chunk_size as nat),
        ).tile == classify(tiling.config(), terrain_at(strategies, chunking, x, y, 0)),
{
    let side = chunking.macro_chunk_size as int;
    lemma_cell_in_grid(x, side, chunking.map_width as int);
    lemma_cell_in_grid(y, side, chunking.map_height as int);
}

/// A coordinate that falls in the whole column `whole(x)` of a map `width`
/// regions wide falls in the grid column `grid_cell(x, side)`, which lies in
/// that region at the cell `macro_cell(x, side)`.
proof fn lemma_cell_in_grid(x: i64, side: int, width: int)
    requires
        0 <= x,
        side > 0,
        whole(x) < width,
    ensures
        0 <= grid_cell(x, side as nat) < width * side,
        grid_cell(x, side as nat) / side == whole(x),
        grid_cell(x, side as nat) % side == macro_cell(x, side as nat),
{
    let cell = macro_cell(x, side as nat);
    assert(0 <= cell < side) by (nonlinear_arith)
        requires
            cell == fraction(x) * side / 1_000_000,
            0 <= fraction(x) < 1_000_000,
            side > 0,
    ;
    lemma_cell_index(cell, whole(x), side, width);
    assert(width * side == side * width) by (nonlinear_arith);
}

} // verus!
