//! The world: a cache of macro chunks, filled on demand, behind one
//! sampling interface.

use vstd::prelude::*;
use crate::scalar::UNIT;
use crate::raster::{cell_index, lemma_cell_index};
use crate::macro_map::terrain::noise_layers::{NoiseStrategies, NoiseStrategy, NoiseValues};
use crate::macro_map::terrain::tiling::{classify, Tile, TilingStrategy};
use crate::macro_map::terrain::terrain_chunks::{
    after_meso_request, cached_at, is_cached, is_lru, later, macro_grid, macro_position,
    meso_position, touched, ChunkCoord, ChunkingConfig, MacroChunk, MacroChunkView,
    MESO_SUBDIVISION,
};

verus! {

/// The whole part of a scalar, rounded down.
pub open spec fn whole(x: i64) -> int {
    x as int / (UNIT as int)
}

/// What is left of a scalar above its whole part.
pub open spec fn fraction(x: i64) -> int {
    x as int % (UNIT as int)
}

/// The cell of a macro chunk of `size` cells a side in which `x` falls.
pub open spec fn macro_cell(x: i64, size: nat) -> int {
    fraction(x) * size / (UNIT as int)
}

/// The meso chunk, among those along one side of a macro chunk, in which
/// `x` falls.
pub open spec fn meso_of(x: i64) -> int {
    fraction(x) * MESO_SUBDIVISION / (UNIT as int)
}

/// The cell of that meso chunk, of `size` cells a side, in which `x` falls.
pub open spec fn meso_cell(x: i64, size: nat) -> int {
    (fraction(x) * MESO_SUBDIVISION % (UNIT as int)) * size / (UNIT as int)
}

/// The macro chunk in which the point `(x, y)` falls.
pub open spec fn macro_coord_of(x: i64, y: i64) -> ChunkCoord {
    ChunkCoord { x: whole(x) as i32, y: whole(y) as i32 }
}

/// The meso chunk, inside its macro chunk, in which the point `(x, y)` falls.
pub open spec fn meso_coord_of(x: i64, y: i64) -> ChunkCoord {
    ChunkCoord { x: meso_of(x) as i32, y: meso_of(y) as i32 }
}

/// The terrain of the world at `(x, y)`: the sample of the cell in which
/// the point falls, of the macro grid at detail level 0 and of the meso grid
/// at any other. It depends on the strategies, the geometry and the point,
/// and on nothing else.
pub open spec fn terrain_at<C: NoiseStrategy, T: NoiseStrategy, A: NoiseStrategy>(
    strategies: &NoiseStrategies<C, T, A>,
    chunking: ChunkingConfig,
    x: i64,
    y: i64,
    detail_level: u32,
) -> NoiseValues {
    let origin = macro_coord_of(x, y);
    if detail_level == 0 {
        let size = chunking.macro_chunk_size as nat;
        strategies.values_at(
            macro_position(origin.x, macro_cell(x, size), size as int),
            macro_position(origin.y, macro_cell(y, size), size as int),
            0,
        )
    } else {
        let size = chunking.meso_chunk_size as nat;
        let meso = meso_coord_of(x, y);
        strategies.values_at(
            meso_position(origin.x, meso.x, meso_cell(x, size), size as int),
            meso_position(origin.y, meso.y, meso_cell(y, size), size as int),
            1,
        )
    }
}

/// Whether the point `(x, y)` lies on the map, in a macro chunk whose
/// coordinate can be written down.
pub open spec fn in_bounds(chunking: ChunkingConfig, x: i64, y: i64) -> bool {
    &&& 0 <= x
    &&& 0 <= y
    &&& whole(x) < chunking.map_width
    &&& whole(y) < chunking.map_height
    &&& whole(x) <= i32::MAX
    &&& whole(y) <= i32::MAX
}

/// The clock after one more request. It stops at the end of its range.
pub open spec fn next_tick(clock: u64) -> u64 {
    if clock < u64::MAX {
        (clock + 1) as u64
    } else {
        clock
    }
}

/// Whether position `i` of a cache holds the macro chunk at `coord`.
pub open spec fn macro_at(cache: Seq<MacroChunkView>, coord: ChunkCoord, i: int) -> bool {
    0 <= i < cache.len() && cache[i].coord == coord
}

/// Whether a cache holds the macro chunk at `coord`.
pub open spec fn has_macro(cache: Seq<MacroChunkView>, coord: ChunkCoord) -> bool {
    exists|i: int| macro_at(cache, coord, i)
}

/// The number of meso chunks that the first `upto` macro chunks hold.
pub open spec fn meso_total(cache: Seq<MacroChunkView>, upto: nat) -> nat
    decreases upto,
{
    if upto == 0 {
        0
    } else {
        meso_total(cache, (upto - 1) as nat) + cache[upto - 1].meso.len()
    }
}

/// Whether `after` holds at every position but `at` what `before` holds there.
pub open spec fn same_except(
    before: Seq<MacroChunkView>,
    after: Seq<MacroChunkView>,
    at: int,
) -> bool {
    forall|j: int| 0 <= j < before.len() && j != at ==> #[trigger] after[j] == before[j]
}

/// What serving a sample at time `now` does to the macro chunk in which the
/// point falls. At detail level 0 the chunk is accessed and nothing else
/// changes; at any other level the meso chunk at `meso` is requested of it.
pub open spec fn served<C: NoiseStrategy, T: NoiseStrategy, A: NoiseStrategy>(
    before: MacroChunkView,
    after: MacroChunkView,
    strategies: &NoiseStrategies<C, T, A>,
    meso: ChunkCoord,
    detail_level: u32,
    now: u64,
) -> bool {
    if detail_level == 0 {
        after == (MacroChunkView { last_accessed: later(before.last_accessed, now), ..before })
    } else {
        after_meso_request(before, after, strategies, meso, now)
    }
}

/// The cell, of `size` across one unit, in which a fraction of a unit falls.
fn cell_of(fraction: i64, size: usize) -> (cell: usize)
    requires
        0 <= fraction < UNIT,
        size > 0,
    ensures
        cell == fraction * size / (UNIT as int),
        cell < size,
{
    assert(0 <= fraction * size <= 1_000_000 * usize::MAX) by (nonlinear_arith)
        requires
            0 <= fraction < 1_000_000,
            0 < size <= usize::MAX,
    ;
    let scaled: u128 = (fraction as u128) * (size as u128);
    assert(fraction * size / (UNIT as int) < size) by (nonlinear_arith)
        requires
            0 <= fraction < UNIT,
            size > 0,
            UNIT > 0,
    ;
    assert(0 <= fraction * size / (UNIT as int)) by (nonlinear_arith)
        requires
            0 <= fraction < UNIT,
            size > 0,
            UNIT > 0,
    ;
    (scaled / (UNIT as u128)) as usize
}

/// The number of whole steps of one macro chunk size that fit in `extent`.
pub open spec fn grid_steps(extent: usize, chunking: ChunkingConfig) -> int {
    extent as int / (chunking.macro_chunk_size as int)
}

/// The coordinate of the grid chunk at `(column, row)`.
pub open spec fn grid_coord(column: int, row: int, chunking: ChunkingConfig) -> ChunkCoord {
    ChunkCoord {
        x: (column * chunking.macro_chunk_size) as i32,
        y: (row * chunking.macro_chunk_size) as i32,
    }
}

/// Whether `coord` is the coordinate of a chunk on the map's grid.
pub open spec fn on_grid(coord: ChunkCoord, chunking: ChunkingConfig) -> bool {
    exists|column: int, row: int|
        0 <= column < grid_steps(chunking.map_width, chunking) && 0 <= row < grid_steps(
            chunking.map_height,
            chunking,
        ) && coord == #[trigger] grid_coord(column, row, chunking)
}

/// A whole step inside an extent starts inside the extent.
proof fn lemma_grid_step(column: int, extent: int, step: int)
    requires
        step > 0,
        0 <= column < extent / step,
    ensures
        0 <= column * step <= extent,
{
    vstd::arithmetic::div_mod::lemma_fundamental_div_mod(extent, step);
    vstd::arithmetic::div_mod::lemma_mod_bound(extent, step);
    assert(0 <= column * step <= step * (extent / step)) by (nonlinear_arith)
        requires
            step > 0,
            0 <= column < extent / step,
    ;
}

/// What the world holds besides its strategies.
pub struct WorldChunksView {
    pub chunking: ChunkingConfig,
    pub max_meso_chunks: nat,
    pub clock: u64,
    pub macros: Seq<MacroChunkView>,
}

/// The root of all generated terrain: the strategies, the classifier, the
/// geometry, and the macro chunks generated so far.
pub struct WorldChunks<C: NoiseStrategy, T: NoiseStrategy, A: NoiseStrategy> {
    noise_strategies: NoiseStrategies<C, T, A>,
    tiling_strategy: TilingStrategy,
    chunking_config: ChunkingConfig,
    max_meso_chunks: usize,
    clock: u64,
    macro_chunks: Vec<MacroChunk>,
}

impl<C: NoiseStrategy, T: NoiseStrategy, A: NoiseStrategy> View for WorldChunks<C, T, A> {
    type V = WorldChunksView;

    closed spec fn view(&self) -> WorldChunksView {
        WorldChunksView {
            chunking: self.chunking_config,
            max_meso_chunks: self.max_meso_chunks as nat,
            clock: self.clock,
            macros: Seq::new(self.macro_chunks@.len(), |i: int| self.macro_chunks@[i]@),
        }
    }
}

impl<C: NoiseStrategy, T: NoiseStrategy, A: NoiseStrategy> WorldChunks<C, T, A> {
    /// The strategies that every sample of the world comes from.
    pub closed spec fn strategies(&self) -> &NoiseStrategies<C, T, A> {
        &self.noise_strategies
    }

    /// The classifier of the world.
    pub closed spec fn tiling(&self) -> &TilingStrategy {
        &self.tiling_strategy
    }

    /// Whether a macro chunk is one of this world: whole, of the world's
    /// geometry, sampled from the world's strategies and drawn with its
    /// classifier.
    pub open spec fn holds(&self, chunk: MacroChunkView) -> bool {
        &&& chunk.wf()
        &&& chunk.sampled_from(self.strategies())
        &&& chunk.drawn_with(self.tiling())
        &&& chunk.size == self@.chunking.macro_chunk_size
        &&& chunk.meso_size == self@.chunking.meso_chunk_size
        &&& chunk.max_meso_chunks == self@.max_meso_chunks
    }

    /// The world is whole: its geometry fits the machine, every macro chunk
    /// is one of this world, and no coordinate is held twice.
    pub open spec fn wf(&self) -> bool {
        &&& self@.chunking.fits_machine()
        &&& 1 <= self@.max_meso_chunks
        &&& forall|i: int| 0 <= i < self@.macros.len() ==> self.holds(#[trigger] self@.macros[i])
        &&& forall|i: int, j: int|
            0 <= i < j < self@.macros.len() ==> (#[trigger] self@.macros[i]).coord != (
            #[trigger] self@.macros[j]).coord
    }

    /// Whether `after` is this world after more requests: the same
    /// strategies, classifier, geometry and cache bound.
    pub open spec fn same_world(&self, after: &Self) -> bool {
        &&& after.strategies() == self.strategies()
        &&& after.tiling() == self.tiling()
        &&& after@.chunking == self@.chunking
        &&& after@.max_meso_chunks == self@.max_meso_chunks
    }

    /// What serving a sample does to the world. The clock moves on by one
    /// tick. The macro chunk in which the point falls is generated and put
    /// at the end of the cache if the cache does not hold it, and is then
    /// served at the new time. Every other macro chunk stays as it is, and
    /// so do the strategies, the classifier and the geometry.
    pub open spec fn after_sample(&self, after: &Self, x: i64, y: i64, detail_level: u32) -> bool {
        let now = next_tick(self@.clock);
        let coord = macro_coord_of(x, y);
        let meso = meso_coord_of(x, y);
        &&& after.wf()
        &&& self.same_world(after)
        &&& after@.clock == now
        &&& forall|i: int|
            macro_at(self@.macros, coord, i) ==> {
                &&& after@.macros.len() == self@.macros.len()
                &&& same_except(self@.macros, after@.macros, i)
                &&& served(
                    self@.macros[i],
                    after@.macros[i],
                    self.strategies(),
                    meso,
                    detail_level,
                    now,
                )
            }
        &&& !has_macro(self@.macros, coord) ==> {
            &&& after@.macros.len() == self@.macros.len() + 1
            &&& same_except(self@.macros, after@.macros, self@.macros.len() as int)
            &&& exists|fresh: MacroChunkView|
                {
                    &&& self.holds(fresh)
                    &&& fresh.coord == coord
                    &&& fresh.last_accessed == 0
                    &&& fresh.meso.len() == 0
                    &&& served(
                        fresh,
                        after@.macros[self@.macros.len() as int],
                        self.strategies(),
                        meso,
                        detail_level,
                        now,
                    )
                }
        }
    }

    /// An empty world whose macro chunks each cache up to 128 meso chunks.
    pub fn new(
        noise_strategies: NoiseStrategies<C, T, A>,
        tiling_strategy: TilingStrategy,
        chunking_config: ChunkingConfig,
    ) -> (world: Self)
        requires
            chunking_config.fits_machine(),
        ensures
            world.wf(),
            *world.strategies() == noise_strategies,
            *world.tiling() == tiling_strategy,
            world@.chunking == chunking_config,
            world@.max_meso_chunks == 128,
            world@.clock == 0,
            world@.macros.len() == 0,
    {
        Self::with_meso_capacity(noise_strategies, tiling_strategy, chunking_config, 128)
    }

    /// An empty world whose macro chunks each cache up to `max_meso_chunks`
    /// meso chunks.
    pub fn with_meso_capacity(
        noise_strategies: NoiseStrategies<C, T, A>,
        tiling_strategy: TilingStrategy,
        chunking_config: ChunkingConfig,
        max_meso_chunks: usize,
    ) -> (world: Self)
        requires
            chunking_config.fits_machine(),
            1 <= max_meso_chunks,
        ensures
            world.wf(),
            *world.strategies() == noise_strategies,
            *world.tiling() == tiling_strategy,
            world@.chunking == chunking_config,
            world@.max_meso_chunks == max_meso_chunks,
            world@.clock == 0,
            world@.macros.len() == 0,
    {
        WorldChunks {
            noise_strategies,
            tiling_strategy,
            chunking_config,
            max_meso_chunks,
            clock: 0,
            macro_chunks: Vec::new(),
        }
    }

    /// Whether the point `(x, y)` lies on the map.
    pub fn contains(&self, x: i64, y: i64) -> (inside: bool)
        ensures
            inside == in_bounds(self@.chunking, x, y),
    {
        if x < 0 || y < 0 {
            return false;
        }
        let column: i64 = x / UNIT;
        let row: i64 = y / UNIT;
        column <= i32::MAX as i64 && row <= i32::MAX as i64 && (column as u64)
            < self.chunking_config.map_width as u64 && (row as u64)
            < self.chunking_config.map_height as u64
    }

    /// The position in the cache of the macro chunk at `coord`, if the cache
    /// holds it.
    pub fn find_macro(&self, coord: ChunkCoord) -> (position: Option<usize>)
        ensures
            match position {
                Some(i) => macro_at(self@.macros, coord, i as int) && forall|j: int|
                    0 <= j < i ==> !macro_at(self@.macros, coord, j),
                None => !has_macro(self@.macros, coord),
            },
    {
        let mut i: usize = 0;
        while i < self.macro_chunks.len()
            invariant
                i <= self.macro_chunks@.len(),
                forall|j: int| 0 <= j < i ==> !macro_at(self@.macros, coord, j),
            decreases self.macro_chunks@.len() - i,
        {
            if self.macro_chunks[i].coord() == coord {
                return Some(i);
            }
            i = i + 1;
        }
        None
    }

    /// The position in the cache of the macro chunk at `coord`, which is
    /// generated and put at the end of the cache if the cache does not hold
    /// it. No macro chunk is ever evicted.
    pub fn get_or_generate_macro(&mut self, coord: ChunkCoord) -> (position: usize)
        requires
            old(self).wf(),
        ensures
            final(self).wf(),
            old(self).same_world(final(self)),
            final(self)@.clock == old(self)@.clock,
            macro_at(final(self)@.macros, coord, position as int),
            forall|i: int|
                macro_at(old(self)@.macros, coord, i) ==> position == i && final(self)@.macros
                    == old(self)@.macros,
            !has_macro(old(self)@.macros, coord) ==> {
                &&& position == old(self)@.macros.len()
                &&& final(self)@.macros == old(self)@.macros.push(
                    final(self)@.macros[position as int],
                )
                &&& final(self)@.macros[position as int].samples == macro_grid(
                    old(self).strategies(),
                    coord,
                    old(self)@.chunking.macro_chunk_size as nat,
                )
                &&& final(self)@.macros[position as int].last_accessed == 0
                &&& final(self)@.macros[position as int].meso.len() == 0
            },
    {
        let ghost before = self@;
        match self.find_macro(coord) {
            Some(i) => {
                proof {
                    assert forall|j: int| macro_at(before.macros, coord, j) implies j == i by {
                        if j < i {
                            assert(before.macros[j].coord != before.macros[i as int].coord);
                        } else if i < j {
                            assert(before.macros[i as int].coord != before.macros[j].coord);
                        }
                    }
                }
                i
            },
            None => {
                let chunk = MacroChunk::with_meso(
                    self.chunking_config.macro_chunk_size,
                    coord,
                    &self.tiling_strategy,
                    &self.noise_strategies,
                    self.chunking_config.meso_chunk_size,
                    self.max_meso_chunks,
                );
                self.macro_chunks.push(chunk);
                let position: usize = self.macro_chunks.len() - 1;
                proof {
                    assert(self@.macros =~= before.macros.push(chunk@));
                    assert forall|j: int| 0 <= j < before.macros.len() implies before.macros[j].coord
                        != coord by {
                        assert(!macro_at(before.macros, coord, j));
                    }
                }
                position
            },
        }
    }

    /// Generates ahead of any request the macro chunks on the map's grid:
    /// one at every multiple of the macro chunk size that leaves room for a
    /// whole step inside the map, in each direction. Chunks that the cache
    /// holds already stay as they are.
    pub fn preload(&mut self)
        requires
            old(self).wf(),
            old(self)@.chunking.macro_chunk_size > 0,
            old(self)@.chunking.map_width <= i32::MAX,
            old(self)@.chunking.map_height <= i32::MAX,
        ensures
            final(self).wf(),
            old(self).same_world(final(self)),
            final(self)@.clock == old(self)@.clock,
            old(self)@.macros.is_prefix_of(final(self)@.macros),
            forall|i: int|
                old(self)@.macros.len() <= i < final(self)@.macros.len() ==> on_grid(
                    (#[trigger] final(self)@.macros[i]).coord,
                    old(self)@.chunking,
                ),
            forall|column: int, row: int|
                0 <= column < grid_steps(old(self)@.chunking.map_width, old(self)@.chunking)
                    && 0 <= row < grid_steps(old(self)@.chunking.map_height, old(self)@.chunking)
                    ==> has_macro(
                    final(self)@.macros,
                    #[trigger] grid_coord(column, row, old(self)@.chunking),
                ),
    {
        let step: usize = self.chunking_config.macro_chunk_size;
        let chunks_y: usize = self.chunking_config.map_height / step;
        let chunks_x: usize = self.chunking_config.map_width / step;
        let ghost chunking = self@.chunking;
        let mut y: usize = 0;
        while y < chunks_y
            invariant
                y <= chunks_y,
                self.wf(),
                old(self).same_world(self),
                self@.clock == old(self)@.clock,
                self@.chunking == chunking,
                chunking == old(self)@.chunking,
                step == chunking.macro_chunk_size,
                step > 0,
                chunks_x == grid_steps(chunking.map_width, chunking),
                chunks_y == grid_steps(chunking.map_height, chunking),
                chunking.map_width <= i32::MAX,
                chunking.map_height <= i32::MAX,
                old(self)@.macros.is_prefix_of(self@.macros),
                forall|i: int|
                    old(self)@.macros.len() <= i < self@.macros.len() ==> on_grid(
                        (#[trigger] self@.macros[i]).coord,
                        chunking,
                    ),
                forall|column: int, row: int|
                    0 <= column < chunks_x && 0 <= row < y ==> has_macro(
                        self@.macros,
                        #[trigger] grid_coord(column, row, chunking),
                    ),
            decreases chunks_y - y,
        {
            let mut x: usize = 0;
            while x < chunks_x
                invariant
                    x <= chunks_x,
                    y < chunks_y,
                    self.wf(),
                    old(self).same_world(self),
                    self@.clock == old(self)@.clock,
                    self@.chunking == chunking,
                    chunking == old(self)@.chunking,
                    step == chunking.macro_chunk_size,
                    step > 0,
                    chunks_x == grid_steps(chunking.map_width, chunking),
                    chunks_y == grid_steps(chunking.map_height, chunking),
                    chunking.map_width <= i32::MAX,
                    chunking.map_height <= i32::MAX,
                    old(self)@.macros.is_prefix_of(self@.macros),
                    forall|i: int|
                        old(self)@.macros.len() <= i < self@.macros.len() ==> on_grid(
                            (#[trigger] self@.macros[i]).coord,
                            chunking,
                        ),
                    forall|column: int, row: int|
                        0 <= column < chunks_x && 0 <= row < y ==> has_macro(
                            self@.macros,
                            #[trigger] grid_coord(column, row, chunking),
                        ),
                    forall|column: int|
                        0 <= column < x ==> has_macro(
                            self@.macros,
                            #[trigger] grid_coord(column, y as int, chunking),
                        ),
                decreases chunks_x - x,
            {
                proof {
                    lemma_grid_step(x as int, chunking.map_width as int, step as int);
                    lemma_grid_step(y as int, chunking.map_height as int, step as int);
                }
                let chunk_coord = ChunkCoord { x: (x * step) as i32, y: (y * step) as i32 };
                let ghost held = self@.macros;
                let _ = self.get_or_generate_macro(chunk_coord);
                proof {
                    assert(held.is_prefix_of(self@.macros));
                    assert forall|coord: ChunkCoord| has_macro(held, coord) implies has_macro(
                        self@.macros,
                        coord,
                    ) by {
                        let i = choose|i: int| macro_at(held, coord, i);
                        assert(macro_at(self@.macros, coord, i));
                    }
                    assert(chunk_coord == grid_coord(x as int, y as int, chunking));
                    assert(on_grid(chunk_coord, chunking));
                    assert forall|i: int| old(self)@.macros.len() <= i < self@.macros.len() implies on_grid(
                        (#[trigger] self@.macros[i]).coord,
                        chunking,
                    ) by {
                        if i < held.len() {
                            assert(self@.macros[i] == held[i]);
                        }
                    }
                }
                x = x + 1;
            }
            y = y + 1;
        }
    }

    /// The macro chunk at `position` of the cache.
    pub fn macro_chunk(&self, position: usize) -> (chunk: &MacroChunk)
        requires
            position < self@.macros.len(),
        ensures
            chunk@ == self@.macros[position as int],
    {
        &self.macro_chunks[position]
    }

    /// The terrain at the point `(x, y)`: at detail level 0 from the macro
    /// chunk in which the point falls, at detail level 1 from the meso chunk
    /// in which it falls. Chunks that the caches do not hold are generated
    /// first, and the request is recorded as an access at the next tick of
    /// the world's clock.
    ///
    /// What is returned does not depend on what the caches held.
    pub fn sample(&mut self, x: i64, y: i64, detail_level: u32) -> (values: NoiseValues)
        requires
            old(self).wf(),
            in_bounds(old(self)@.chunking, x, y),
            detail_level <= 1,
            detail_level == 0 ==> old(self)@.chunking.macro_chunk_size > 0,
            detail_level == 1 ==> old(self)@.chunking.meso_chunk_size > 0,
        ensures
            values == terrain_at(
                old(self).strategies(),
                old(self)@.chunking,
                x,
                y,
                detail_level,
            ),
            old(self).after_sample(final(self), x, y, detail_level),
    {
        if self.clock < u64::MAX {
            self.clock = self.clock + 1;
        }
        let now: u64 = self.clock;
        let coord = ChunkCoord { x: (x / UNIT) as i32, y: (y / UNIT) as i32 };
        let ghost before = self@;
        proof {
            assert(before.macros =~= old(self)@.macros);
            assert forall|i: int| 0 <= i < before.macros.len() implies self.holds(
                #[trigger] before.macros[i],
            ) by {
                assert(old(self).holds(old(self)@.macros[i]));
            }
        }
        let position = self.get_or_generate_macro(coord);
        let ghost ready = self@;
        let fraction_x: i64 = x % UNIT;
        let fraction_y: i64 = y % UNIT;
        if detail_level == 0 {
            let size: usize = self.chunking_config.macro_chunk_size;
            let column: usize = cell_of(fraction_x, size);
            let row: usize = cell_of(fraction_y, size);
            self.macro_chunks[position].touch(now);
            let values = self.macro_chunks[position].sample_at(column, row);
            proof {
                lemma_cell_index(column as int, row as int, size as int, size as int);
                assert(self@.macros =~= ready.macros.update(
                    position as int,
                    MacroChunkView {
                        last_accessed: later(ready.macros[position as int].last_accessed, now),
                        ..ready.macros[position as int]
                    },
                ));
                if !has_macro(before.macros, coord) {
                    assert(old(self).holds(ready.macros[position as int]));
                    assert(served(
                        ready.macros[position as int],
                        self@.macros[position as int],
                        old(self).strategies(),
                        meso_coord_of(x, y),
                        detail_level,
                        now,
                    ));
                }
            }
            values
        } else {
            let size: usize = self.chunking_config.meso_chunk_size;
            let meso = ChunkCoord {
                x: (fraction_x * MESO_SUBDIVISION / UNIT) as i32,
                y: (fraction_y * MESO_SUBDIVISION / UNIT) as i32,
            };
            let column: usize = cell_of(fraction_x * MESO_SUBDIVISION % UNIT, size);
            let row: usize = cell_of(fraction_y * MESO_SUBDIVISION % UNIT, size);
            let chunk = self.macro_chunks[position].get_or_generate_meso(
                meso,
                now,
                &self.noise_strategies,
            );
            let values = chunk.sample_at(column, row);
            proof {
                lemma_cell_index(column as int, row as int, size as int, size as int);
                assert(self@.macros =~= ready.macros.update(
                    position as int,
                    self@.macros[position as int],
                ));
                if !has_macro(before.macros, coord) {
                    assert(old(self).holds(ready.macros[position as int]));
                    assert(served(
                        ready.macros[position as int],
                        self@.macros[position as int],
                        old(self).strategies(),
                        meso_coord_of(x, y),
                        detail_level,
                        now,
                    ));
                }
            }
            values
        }
    }

    /// Whether the world can serve a sample at the point `(x, y)` and the
    /// detail level: the point lies on the map, the level is one of the two
    /// there are, and the chunks of that level hold samples.
    pub open spec fn serves(&self, x: i64, y: i64, detail_level: u32) -> bool {
        &&& in_bounds(self@.chunking, x, y)
        &&& detail_level <= 1
        &&& detail_level == 0 ==> self@.chunking.macro_chunk_size > 0
        &&& detail_level == 1 ==> self@.chunking.meso_chunk_size > 0
    }

    /// The terrain at the point `(x, y)`, as `sample` returns it, where the
    /// world serves the request; nothing, and no change to the world,
    /// where it does not.
    pub fn try_sample(&mut self, x: i64, y: i64, detail_level: u32) -> (values: Option<NoiseValues>)
        requires
            old(self).wf(),
        ensures
            final(self).wf(),
            old(self).same_world(final(self)),
            values is Some <==> old(self).serves(x, y, detail_level),
            values matches Some(values) ==> {
                &&& values == terrain_at(
                    old(self).strategies(),
                    old(self)@.chunking,
                    x,
                    y,
                    detail_level,
                )
                &&& old(self).after_sample(final(self), x, y, detail_level)
            },
            values is None ==> final(self)@ == old(self)@,
    {
        let served = self.contains(x, y) && detail_level <= 1 && (detail_level != 0
            || self.chunking_config.macro_chunk_size > 0) && (detail_level != 1
            || self.chunking_config.meso_chunk_size > 0);
        if served {
            Some(self.sample(x, y, detail_level))
        } else {
            None
        }
    }

    /// The terrain at the point `(x, y)` together with its tile.
    pub fn sample_tile(&mut self, x: i64, y: i64, detail_level: u32) -> (sample: (NoiseValues, Tile))
        requires
            old(self).wf(),
            in_bounds(old(self)@.chunking, x, y),
            detail_level <= 1,
            detail_level == 0 ==> old(self)@.chunking.macro_chunk_size > 0,
            detail_level == 1 ==> old(self)@.chunking.meso_chunk_size > 0,
        ensures
            sample.0 == terrain_at(
                old(self).strategies(),
                old(self)@.chunking,
                x,
                y,
                detail_level,
            ),
            sample.1 == classify(old(self).tiling().config(), sample.0),
            old(self).after_sample(final(self), x, y, detail_level),
    {
        let values = self.sample(x, y, detail_level);
        let tile = self.tiling_strategy.get_tile(&values);
        (values, tile)
    }

    /// The number of macro chunks in the cache, and the number of meso
    /// chunks that they hold together. The second count stops at the end of
    /// its range.
    pub fn cache_stats(&self) -> (stats: (usize, usize))
        ensures
            stats.0 == self@.macros.len(),
            stats.1 == if meso_total(self@.macros, self@.macros.len()) <= usize::MAX {
                meso_total(self@.macros, self@.macros.len())
            } else {
                usize::MAX as nat
            },
    {
        let mut total: usize = 0;
        let mut i: usize = 0;
        while i < self.macro_chunks.len()
            invariant
                i <= self.macro_chunks@.len(),
                total == if meso_total(self@.macros, i as nat) <= usize::MAX {
                    meso_total(self@.macros, i as nat)
                } else {
                    usize::MAX as nat
                },
            decreases self.macro_chunks@.len() - i,
        {
            let count: usize = self.macro_chunks[i].meso_count();
            assert(meso_total(self@.macros, (i + 1) as nat) == meso_total(self@.macros, i as nat)
                + count);
            if count > usize::MAX - total {
                total = usize::MAX;
            } else {
                total = total + count;
            }
            i = i + 1;
        }
        (self.macro_chunks.len(), total)
    }

    /// Whether the meso chunk at `meso_coord` of the macro chunk at
    /// `macro_coord` is in the cache.
    pub fn is_meso_cached(&self, macro_coord: ChunkCoord, meso_coord: ChunkCoord) -> (cached: bool)
        requires
            self.wf(),
        ensures
            cached <==> exists|i: int|
                macro_at(self@.macros, macro_coord, i) && is_cached(
                    self@.macros[i].meso,
                    meso_coord,
                ),
    {
        match self.find_macro(macro_coord) {
            Some(i) => {
                let found = self.macro_chunks[i].find_meso(meso_coord);
                proof {
                    assert forall|j: int| macro_at(self@.macros, macro_coord, j) implies j == i by {
                        if j < i {
                            assert(self@.macros[j].coord != self@.macros[i as int].coord);
                        } else if i < j {
                            assert(self@.macros[i as int].coord != self@.macros[j].coord);
                        }
                    }
                }
                found.is_some()
            },
            None => false,
        }
    }
}

/// Sampling is repeatable. What `sample` returns for a point and a detail
/// level is the same in any two states of one world, whatever the caches
/// hold in either: whether chunks were generated, accessed or evicted
/// between two requests makes no difference to the second.
pub proof fn sample_is_repeatable<C: NoiseStrategy, T: NoiseStrategy, A: NoiseStrategy>(
    earlier: &WorldChunks<C, T, A>,
    later: &WorldChunks<C, T, A>,
    x: i64,
    y: i64,
    detail_level: u32,
)
    requires
        earlier.same_world(later),
    ensures
        terrain_at(earlier.strategies(), earlier@.chunking, x, y, detail_level) == terrain_at(
            later.strategies(),
            later@.chunking,
            x,
            y,
            detail_level,
        ),
{
}

/// Eviction is transparent. Two macro chunks at one place, sampled from the
/// same strategies, hold the same samples for a meso coordinate whenever
/// both hold it: the chunk that is generated again after an eviction is the
/// chunk that was evicted, but for the time of its last access.
pub proof fn regenerated_meso_is_identical<C: NoiseStrategy, T: NoiseStrategy, A: NoiseStrategy>(
    strategies: &NoiseStrategies<C, T, A>,
    before: MacroChunkView,
    after: MacroChunkView,
    coord: ChunkCoord,
    i: int,
    j: int,
)
    requires
        before.sampled_from(strategies),
        after.sampled_from(strategies),
        before.coord == after.coord,
        before.meso_size == after.meso_size,
        cached_at(before.meso, coord, i),
        cached_at(after.meso, coord, j),
    ensures
        before.meso[i].samples == after.meso[j].samples,
        before.meso[i].size == after.meso[j].size,
{
}

/// The meso caches stay within their bound: in a world that is whole, no
/// macro chunk holds more meso chunks than the world allows, and none holds
/// a meso coordinate twice.
pub proof fn meso_caches_stay_bounded<C: NoiseStrategy, T: NoiseStrategy, A: NoiseStrategy>(
    world: &WorldChunks<C, T, A>,
    i: int,
)
    requires
        world.wf(),
        0 <= i < world@.macros.len(),
    ensures
        world@.macros[i].meso.len() <= world@.max_meso_chunks,
{
}

/// The time of the last access never moves backwards. A request for a meso
/// chunk leaves the macro chunk, and every meso chunk that the cache holds
/// before and after it, with a time of last access at least as late as
/// before.
pub proof fn access_times_never_decrease<C: NoiseStrategy, T: NoiseStrategy, A: NoiseStrategy>(
    strategies: &NoiseStrategies<C, T, A>,
    before: MacroChunkView,
    after: MacroChunkView,
    coord: ChunkCoord,
    now: u64,
    held: ChunkCoord,
    i: int,
    j: int,
)
    requires
        before.wf(),
        after_meso_request(before, after, strategies, coord, now),
        cached_at(before.meso, held, i),
        cached_at(after.meso, held, j),
    ensures
        before.last_accessed <= after.last_accessed,
        before.meso[i].last_accessed <= after.meso[j].last_accessed,
{
    if is_cached(before.meso, coord) {
        let at = choose|at: int|
            cached_at(before.meso, coord, at);
        assert(after.meso == before.meso.update(at, touched(
            before.meso[at],
            now,
        )));
        if i < j {
            assert(before.meso[i].coord != before.meso[j].coord);
        } else if j < i {
            assert(before.meso[j].coord != before.meso[i].coord);
        }
    } else {
        assert(held != coord) by {
            assert(!cached_at(before.meso, coord, i));
        }
        if before.meso.len() < before.max_meso_chunks {
            assert(after.meso == before.meso.push(before.fresh(strategies, coord, now)));
            if i < j {
                assert(before.meso[i].coord != before.meso[j].coord);
            } else if j < i {
                assert(before.meso[j].coord != before.meso[i].coord);
            }
        } else {
            let victim = choose|victim: int|
                is_lru(before.meso, victim) && after.meso
                    == before.meso.remove(victim).push(before.fresh(strategies, coord, now));
            let kept = before.meso.remove(victim);
            assert(j < kept.len());
            let from = if j < victim {
                j
            } else {
                j + 1
            };
            assert(after.meso[j] == before.meso[from]);
            if i < from {
                assert(before.meso[i].coord != before.meso[from].coord);
            } else if from < i {
                assert(before.meso[from].coord != before.meso[i].coord);
            }
        }
    }
}

} // verus!
