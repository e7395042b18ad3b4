//! The chunk hierarchy.

use vstd::prelude::*;
use crate::scalar::UNIT;
use crate::raster::{cell_index, lemma_cell_index};
use crate::macro_map::terrain::noise_layers::{NoiseLayers, NoiseStrategies, NoiseStrategy, NoiseValues};
use crate::macro_map::terrain::tiling::TilingStrategy;

verus! {

/// The number of meso chunks along one side of a macro chunk.
pub const MESO_SUBDIVISION: i64 = 4;

/// The origin of a chunk in its parent's coordinate space.
#[derive(Clone, Copy, Hash, Debug, PartialEq, Eq, Structural)]
pub struct ChunkCoord {
    pub x: i32,
    pub y: i32,
}

impl Default for ChunkCoord {
    fn default() -> (coord: Self)
        ensures
            coord == (ChunkCoord { x: 0, y: 0 }),
    {
        ChunkCoord { x: 0, y: 0 }
    }
}

/// The geometry of the chunk hierarchy: the side of a macro chunk and of a
/// meso chunk in samples, and the extent of the map in whole units.
#[derive(Clone, Copy, Debug)]
pub struct ChunkingConfig {
    pub macro_chunk_size: usize,
    pub meso_chunk_size: usize,
    pub map_width: usize,
    pub map_height: usize,
}

/// Whether a square grid of `side` cells a side has a number of cells that
/// the machine can count.
pub open spec fn square_fits(side: usize) -> bool {
    side * side <= usize::MAX
}

/// Computes [`square_fits`].
pub fn square_fits_machine(side: usize) -> (fits: bool)
    ensures
        fits == square_fits(side),
{
    match side.checked_mul(side) {
        Some(_) => true,
        None => false,
    }
}

impl ChunkingConfig {
    /// Whether chunks of this geometry fit the machine: a macro chunk can be
    /// drawn as a raster, and the samples of a chunk can be counted.
    pub open spec fn fits_machine(self) -> bool {
        &&& self.macro_chunk_size <= u32::MAX
        &&& square_fits(self.macro_chunk_size)
        &&& square_fits(self.meso_chunk_size)
    }

    /// Computes [`ChunkingConfig::fits_machine`].
    pub fn fits(&self) -> (fits: bool)
        ensures
            fits == self.fits_machine(),
    {
        self.macro_chunk_size <= u32::MAX as usize && square_fits_machine(self.macro_chunk_size)
            && square_fits_machine(self.meso_chunk_size)
    }
}

/// Where, along one axis, a macro chunk samples its cell `cell`: the chunk
/// starts at the whole coordinate `origin` and spreads `size` cells evenly
/// over one unit.
pub open spec fn macro_position(origin: i32, cell: int, size: int) -> i64 {
    (origin * UNIT + cell * UNIT / size) as i64
}

/// Where, along one axis, a meso chunk samples its cell `cell`: the chunk is
/// the one at `meso` inside the macro chunk at `origin`, a quarter of a unit
/// wide, and spreads `size` cells evenly over that quarter.
pub open spec fn meso_position(origin: i32, meso: i32, cell: int, size: int) -> i64 {
    (origin * UNIT + (meso * UNIT + cell * UNIT / size) / (MESO_SUBDIVISION as int)) as i64
}

/// The offset of cell `cell` of `size` inside one unit.
fn cell_offset(cell: usize, size: usize) -> (offset: i64)
    requires
        cell < size,
    ensures
        offset == cell * UNIT / (size as int),
        0 <= offset < UNIT,
{
    let scaled: u128 = (cell as u128) * (UNIT as u128);
    assert(cell * UNIT / (size as int) < UNIT) by (nonlinear_arith)
        requires
            0 <= cell < size,
            UNIT > 0,
    ;
    assert(0 <= cell * UNIT / (size as int)) by (nonlinear_arith)
        requires
            0 <= cell < size,
            UNIT > 0,
    ;
    (scaled / (size as u128)) as i64
}

/// Computes [`macro_position`].
pub fn macro_cell_position(origin: i32, cell: usize, size: usize) -> (position: i64)
    requires
        cell < size,
    ensures
        position == macro_position(origin, cell as int, size as int),
{
    (origin as i64) * UNIT + cell_offset(cell, size)
}

/// Computes [`meso_position`].
pub fn meso_cell_position(origin: i32, meso: i32, cell: usize, size: usize) -> (position: i64)
    requires
        cell < size,
    ensures
        position == meso_position(origin, meso, cell as int, size as int),
{
    // Shift into the non-negative numbers before dividing, so that the
    // quotient is rounded down for meso coordinates on either side of zero.
    let shift: i64 = 2_147_483_648_000_000;
    let inside: i64 = (meso as i64) * UNIT + cell_offset(cell, size);
    let quarter: i64 = (inside + MESO_SUBDIVISION * shift) / MESO_SUBDIVISION - shift;
    (origin as i64) * UNIT + quarter
}

/// The samples of a macro chunk, row by row.
pub open spec fn macro_grid<C: NoiseStrategy, T: NoiseStrategy, A: NoiseStrategy>(
    strategies: &NoiseStrategies<C, T, A>,
    origin: ChunkCoord,
    size: nat,
) -> Seq<NoiseValues> {
    Seq::new(
        size * size,
        |k: int|
            strategies.values_at(
                macro_position(origin.x, k % (size as int), size as int),
                macro_position(origin.y, k / (size as int), size as int),
                0,
            ),
    )
}

/// The samples of a meso chunk, row by row.
pub open spec fn meso_grid<C: NoiseStrategy, T: NoiseStrategy, A: NoiseStrategy>(
    strategies: &NoiseStrategies<C, T, A>,
    origin: ChunkCoord,
    coord: ChunkCoord,
    size: nat,
) -> Seq<NoiseValues> {
    Seq::new(
        size * size,
        |k: int|
            strategies.values_at(
                meso_position(origin.x, coord.x, k % (size as int), size as int),
                meso_position(origin.y, coord.y, k / (size as int), size as int),
                1,
            ),
    )
}

/// What a meso chunk holds.
pub struct MesoChunkView {
    pub coord: ChunkCoord,
    pub size: nat,
    pub samples: Seq<NoiseValues>,
    pub last_accessed: u64,
}

/// A fine grid of samples covering one sixteenth of a macro chunk.
pub struct MesoChunk {
    coord: ChunkCoord,
    size: usize,
    samples: Vec<NoiseValues>,
    last_accessed: u64,
}

impl View for MesoChunk {
    type V = MesoChunkView;

    closed spec fn view(&self) -> MesoChunkView {
        MesoChunkView {
            coord: self.coord,
            size: self.size as nat,
            samples: self.samples@,
            last_accessed: self.last_accessed,
        }
    }
}

impl MesoChunk {
    /// The chunk holds one sample for each cell of its grid.
    #[verifier::type_invariant]
    spec fn one_sample_per_cell(&self) -> bool {
        self.samples@.len() == self.size * self.size
    }

    /// Generates the meso chunk at `coord` inside the macro chunk at
    /// `origin`: `size` by `size` samples at detail level 1.
    pub fn new<C: NoiseStrategy, T: NoiseStrategy, A: NoiseStrategy>(
        origin: ChunkCoord,
        coord: ChunkCoord,
        size: usize,
        now: u64,
        noise_strategies: &NoiseStrategies<C, T, A>,
    ) -> (chunk: Self)
        requires
            size * size <= usize::MAX,
        ensures
            chunk@.coord == coord,
            chunk@.size == size,
            chunk@.samples == meso_grid(noise_strategies, origin, coord, size as nat),
            chunk@.last_accessed == now,
    {
        let total: usize = size * size;
        let mut samples: Vec<NoiseValues> = Vec::new();
        let mut k: usize = 0;
        while k < total
            invariant
                k <= total,
                total == size * size,
                samples@.len() == k,
                forall|j: int|
                    0 <= j < k ==> samples@[j] == meso_grid(
                        noise_strategies,
                        origin,
                        coord,
                        size as nat,
                    )[j],
            decreases total - k,
        {
            assert(size > 0) by (nonlinear_arith)
                requires
                    k < size * size,
            ;
            proof {
                lemma_row_and_column(k as int, size as int);
            }
            let x: usize = k % size;
            let y: usize = k / size;
            let world_x: i64 = meso_cell_position(origin.x, coord.x, x, size);
            let world_y: i64 = meso_cell_position(origin.y, coord.y, y, size);
            samples.push(noise_strategies.generate(world_x, world_y, 1));
            k = k + 1;
        }
        assert(samples@ =~= meso_grid(noise_strategies, origin, coord, size as nat));
        MesoChunk { coord, size, samples, last_accessed: now }
    }

    /// Records an access at time `now`. The time of the last access never
    /// moves backwards.
    pub fn touch(&mut self, now: u64)
        ensures
            final(self)@ == touched(old(self)@, now),
    {
        proof {
            use_type_invariant(&*self);
        }
        if now > self.last_accessed {
            self.last_accessed = now;
        }
    }

    /// The sample at column `x` of row `y`.
    pub fn sample_at(&self, x: usize, y: usize) -> (values: NoiseValues)
        requires
            x < self@.size,
            y < self@.size,
        ensures
            values == self@.samples[cell_index(x as int, y as int, self@.size as int)],
            self@.samples.len() == self@.size * self@.size,
    {
        proof {
            use_type_invariant(self);
            lemma_cell_index(x as int, y as int, self.size as int, self.size as int);
        }
        let total: usize = self.samples.len();
        assert(y * self.size + x < total);
        self.samples[y * self.size + x]
    }

    /// The chunk's origin among the meso chunks of its macro chunk.
    pub fn coord(&self) -> (coord: ChunkCoord)
        ensures
            coord == self@.coord,
    {
        self.coord
    }

    /// The side length of the grid, in samples.
    pub fn size(&self) -> (size: usize)
        ensures
            size == self@.size,
    {
        self.size
    }

    /// The time of the last access.
    pub fn last_accessed(&self) -> (stamp: u64)
        ensures
            stamp == self@.last_accessed,
    {
        self.last_accessed
    }

    /// The samples, row by row.
    pub fn samples(&self) -> (samples: &Vec<NoiseValues>)
        ensures
            samples@ == self@.samples,
            samples@.len() == self@.size * self@.size,
    {
        proof {
            use_type_invariant(self);
        }
        &self.samples
    }
}

/// The later of two times.
pub open spec fn later(a: u64, b: u64) -> u64 {
    if b > a {
        b
    } else {
        a
    }
}

/// The meso chunk as it is after an access at time `now`.
pub open spec fn touched(chunk: MesoChunkView, now: u64) -> MesoChunkView {
    MesoChunkView { last_accessed: later(chunk.last_accessed, now), ..chunk }
}

/// Whether position `i` of a cache holds the chunk at `coord`.
pub open spec fn cached_at(cache: Seq<MesoChunkView>, coord: ChunkCoord, i: int) -> bool {
    0 <= i < cache.len() && cache[i].coord == coord
}

/// Whether a cache holds the chunk at `coord`.
pub open spec fn is_cached(cache: Seq<MesoChunkView>, coord: ChunkCoord) -> bool {
    exists|i: int| cached_at(cache, coord, i)
}

/// Whether position `victim` holds the least recently used chunk of a
/// cache: no chunk was accessed longer ago, and of those accessed at the
/// same time it is the one that stands first.
pub open spec fn is_lru(cache: Seq<MesoChunkView>, victim: int) -> bool {
    &&& 0 <= victim < cache.len()
    &&& forall|j: int|
        0 <= j < cache.len() ==> cache[victim].last_accessed <= (#[trigger] cache[j]).last_accessed
    &&& forall|j: int|
        0 <= j < victim ==> (#[trigger] cache[j]).last_accessed > cache[victim].last_accessed
}

/// What a request at time `now` for the meso chunk at `coord` does to a
/// macro chunk. The request is an access to the macro chunk. A meso chunk
/// that the cache holds stays where it is and is stamped with the time of
/// the access. One that it does not hold is generated and goes to the end
/// of the cache, after the least recently used chunk has been evicted if
/// the cache was full. Nothing else changes.
pub open spec fn after_meso_request<C: NoiseStrategy, T: NoiseStrategy, A: NoiseStrategy>(
    before: MacroChunkView,
    after: MacroChunkView,
    strategies: &NoiseStrategies<C, T, A>,
    coord: ChunkCoord,
    now: u64,
) -> bool {
    &&& after == (MacroChunkView {
        last_accessed: later(before.last_accessed, now),
        meso: after.meso,
        ..before
    })
    &&& forall|i: int|
        cached_at(before.meso, coord, i) ==> after.meso == before.meso.update(
            i,
            touched(before.meso[i], now),
        )
    &&& !is_cached(before.meso, coord) && before.meso.len() < before.max_meso_chunks
        ==> after.meso == before.meso.push(before.fresh(strategies, coord, now))
    &&& !is_cached(before.meso, coord) && before.meso.len() >= before.max_meso_chunks
        ==> exists|victim: int|
        is_lru(before.meso, victim) && after.meso == before.meso.remove(victim).push(
            before.fresh(strategies, coord, now),
        )
}

/// What a macro chunk holds.
pub struct MacroChunkView {
    pub coord: ChunkCoord,
    pub size: nat,
    pub meso_size: nat,
    pub max_meso_chunks: nat,
    pub samples: Seq<NoiseValues>,
    pub layers: NoiseLayers,
    pub last_accessed: u64,
    pub meso: Seq<MesoChunkView>,
}

impl MacroChunkView {
    /// The chunk is whole: one sample and one pixel per cell, and a cache
    /// within its bound that holds no coordinate twice.
    pub open spec fn wf(self) -> bool {
        &&& self.samples.len() == self.size * self.size
        &&& self.layers.wf()
        &&& self.layers.side() == self.size
        &&& self.meso_size * self.meso_size <= usize::MAX
        &&& 1 <= self.max_meso_chunks
        &&& self.meso.len() <= self.max_meso_chunks
        &&& forall|i: int, j: int|
            0 <= i < j < self.meso.len() ==> (#[trigger] self.meso[i]).coord != (
            #[trigger] self.meso[j]).coord
    }

    /// Every sample of the chunk and of its cached meso chunks is what the
    /// strategies give at its position.
    pub open spec fn sampled_from<C: NoiseStrategy, T: NoiseStrategy, A: NoiseStrategy>(
        self,
        strategies: &NoiseStrategies<C, T, A>,
    ) -> bool {
        &&& self.samples == macro_grid(strategies, self.coord, self.size)
        &&& forall|i: int|
            0 <= i < self.meso.len() ==> {
                &&& (#[trigger] self.meso[i]).size == self.meso_size
                &&& self.meso[i].samples == meso_grid(
                    strategies,
                    self.coord,
                    self.meso[i].coord,
                    self.meso_size,
                )
            }
    }

    /// The layers show every sample of the chunk as `tiling` classifies it.
    pub open spec fn drawn_with(self, tiling: &TilingStrategy) -> bool {
        forall|k: int|
            0 <= k < self.samples.len() ==> self.layers.shows(k, #[trigger] self.samples[k], *tiling)
    }

    /// The meso chunk that is generated for `coord` at time `now`.
    pub open spec fn fresh<C: NoiseStrategy, T: NoiseStrategy, A: NoiseStrategy>(
        self,
        strategies: &NoiseStrategies<C, T, A>,
        coord: ChunkCoord,
        now: u64,
    ) -> MesoChunkView {
        MesoChunkView {
            coord,
            size: self.meso_size,
            samples: meso_grid(strategies, self.coord, coord, self.meso_size),
            last_accessed: now,
        }
    }
}

/// A coarse grid of samples over one unit square of the world, with a
/// bounded cache of the meso chunks inside it.
pub struct MacroChunk {
    coord: ChunkCoord,
    size: usize,
    meso_size: usize,
    max_meso_chunks: usize,
    noise_values: Vec<NoiseValues>,
    noise_layers: NoiseLayers,
    last_accessed: u64,
    meso_cache: Vec<MesoChunk>,
}

impl View for MacroChunk {
    type V = MacroChunkView;

    closed spec fn view(&self) -> MacroChunkView {
        MacroChunkView {
            coord: self.coord,
            size: self.size as nat,
            meso_size: self.meso_size as nat,
            max_meso_chunks: self.max_meso_chunks as nat,
            samples: self.noise_values@,
            layers: self.noise_layers,
            last_accessed: self.last_accessed,
            meso: Seq::new(self.meso_cache@.len(), |i: int| self.meso_cache@[i]@),
        }
    }
}

impl MacroChunk {
    /// Generates the macro chunk at `coord` with the default cache: up to
    /// 128 meso chunks, each as fine as the macro chunk itself.
    pub fn new<C: NoiseStrategy, T: NoiseStrategy, A: NoiseStrategy>(
        size: usize,
        coord: ChunkCoord,
        tiling_strategy: &TilingStrategy,
        noise_strategies: &NoiseStrategies<C, T, A>,
    ) -> (chunk: Self)
        requires
            size <= u32::MAX,
            size * size <= usize::MAX,
        ensures
            chunk@.wf(),
            chunk@.sampled_from(noise_strategies),
            chunk@.drawn_with(tiling_strategy),
            chunk@.coord == coord,
            chunk@.size == size,
            chunk@.meso_size == size,
            chunk@.max_meso_chunks == 128,
            chunk@.last_accessed == 0,
            chunk@.meso.len() == 0,
    {
        Self::with_meso(size, coord, tiling_strategy, noise_strategies, size, 128)
    }

    /// Generates the macro chunk at `coord`: `size` by `size` samples at
    /// detail level 0, drawn into the layers, and an empty cache for up to
    /// `max_meso_chunks` meso chunks of `meso_size` by `meso_size` samples.
    pub fn with_meso<C: NoiseStrategy, T: NoiseStrategy, A: NoiseStrategy>(
        size: usize,
        coord: ChunkCoord,
        tiling_strategy: &TilingStrategy,
        noise_strategies: &NoiseStrategies<C, T, A>,
        meso_size: usize,
        max_meso_chunks: usize,
    ) -> (chunk: Self)
        requires
            size <= u32::MAX,
            size * size <= usize::MAX,
            meso_size * meso_size <= usize::MAX,
            1 <= max_meso_chunks,
        ensures
            chunk@.wf(),
            chunk@.sampled_from(noise_strategies),
            chunk@.drawn_with(tiling_strategy),
            chunk@.coord == coord,
            chunk@.size == size,
            chunk@.meso_size == meso_size,
            chunk@.max_meso_chunks == max_meso_chunks,
            chunk@.last_accessed == 0,
            chunk@.meso.len() == 0,
    {
        let total: usize = size * size;
        let mut noise_layers = NoiseLayers::new(size);
        let mut noise_values: Vec<NoiseValues> = Vec::new();
        let mut k: usize = 0;
        while k < total
            invariant
                k <= total,
                total == size * size,
                noise_values@.len() == k,
                noise_layers.wf(),
                noise_layers.side() == size,
                noise_layers.aggregate_pixels().len() == total,
                noise_layers.continentalness_pixels().len() == total,
                noise_layers.temperature_pixels().len() == total,
                noise_layers.altitude_pixels().len() == total,
                forall|j: int|
                    0 <= j < k ==> noise_values@[j] == macro_grid(
                        noise_strategies,
                        coord,
                        size as nat,
                    )[j],
                forall|j: int|
                    0 <= j < k ==> noise_layers.shows(j, #[trigger] noise_values@[j], *tiling_strategy),
            decreases total - k,
        {
            proof {
                lemma_row_and_column(k as int, size as int);
            }
            let x: usize = k % size;
            let y: usize = k / size;
            let world_x: i64 = macro_cell_position(coord.x, x, size);
            let world_y: i64 = macro_cell_position(coord.y, y, size);
            let current_noise_value = noise_strategies.generate(world_x, world_y, 0);
            noise_layers.add_at_index(x, y, &current_noise_value, tiling_strategy);
            noise_values.push(current_noise_value);
            k = k + 1;
        }
        assert(noise_values@ =~= macro_grid(noise_strategies, coord, size as nat));
        MacroChunk {
            coord,
            size,
            meso_size,
            max_meso_chunks,
            noise_values,
            noise_layers,
            last_accessed: 0,
            meso_cache: Vec::new(),
        }
    }

    /// Records an access at time `now`. The time of the last access never
    /// moves backwards.
    pub fn touch(&mut self, now: u64)
        ensures
            final(self)@ == (MacroChunkView {
                last_accessed: later(old(self)@.last_accessed, now),
                ..old(self)@
            }),
    {
        if now > self.last_accessed {
            self.last_accessed = now;
        }
        assert(final(self)@.meso =~= old(self)@.meso);
    }

    /// The position in the cache of the meso chunk at `meso_coord`, if the
    /// cache holds it.
    pub fn find_meso(&self, meso_coord: ChunkCoord) -> (position: Option<usize>)
        ensures
            match position {
                Some(i) => cached_at(self@.meso, meso_coord, i as int) && forall|j: int|
                    0 <= j < i ==> !cached_at(self@.meso, meso_coord, j),
                None => !is_cached(self@.meso, meso_coord),
            },
    {
        let mut i: usize = 0;
        while i < self.meso_cache.len()
            invariant
                i <= self.meso_cache@.len(),
                forall|j: int| 0 <= j < i ==> !cached_at(self@.meso, meso_coord, j),
            decreases self.meso_cache@.len() - i,
        {
            if self.meso_cache[i].coord() == meso_coord {
                return Some(i);
            }
            i = i + 1;
        }
        None
    }

    /// The position in the cache of the least recently used meso chunk.
    pub fn least_recently_used(&self) -> (victim: usize)
        requires
            self@.meso.len() > 0,
        ensures
            is_lru(self@.meso, victim as int),
    {
        let mut victim: usize = 0;
        let mut i: usize = 1;
        while i < self.meso_cache.len()
            invariant
                1 <= i <= self.meso_cache@.len(),
                0 <= victim < i,
                forall|j: int|
                    0 <= j < i ==> self@.meso[victim as int].last_accessed <= (
                    #[trigger] self@.meso[j]).last_accessed,
                forall|j: int|
                    0 <= j < victim ==> (#[trigger] self@.meso[j]).last_accessed
                        > self@.meso[victim as int].last_accessed,
            decreases self.meso_cache@.len() - i,
        {
            if self.meso_cache[i].last_accessed() < self.meso_cache[victim].last_accessed() {
                victim = i;
            }
            i = i + 1;
        }
        victim
    }

    /// Returns the meso chunk at `meso_coord`, generating it first if the
    /// cache does not hold it, and records the access at time `now` on the
    /// meso chunk and on the macro chunk.
    ///
    /// A chunk that is generated goes to the end of the cache. If the cache
    /// is full, the least recently used chunk is evicted first.
    pub fn get_or_generate_meso<C: NoiseStrategy, T: NoiseStrategy, A: NoiseStrategy>(
        &mut self,
        meso_coord: ChunkCoord,
        now: u64,
        noise_strategies: &NoiseStrategies<C, T, A>,
    ) -> (chunk: &MesoChunk)
        requires
            old(self)@.wf(),
            old(self)@.sampled_from(noise_strategies),
        ensures
            final(self)@.wf(),
            final(self)@.sampled_from(noise_strategies),
            final(self)@.meso.len() <= final(self)@.max_meso_chunks,
            chunk@.coord == meso_coord,
            chunk@.size == old(self)@.meso_size,
            chunk@.samples == meso_grid(
                noise_strategies,
                old(self)@.coord,
                meso_coord,
                old(self)@.meso_size,
            ),
            forall|i: int|
                cached_at(old(self)@.meso, meso_coord, i) ==> chunk@ == final(self)@.meso[i],
            !is_cached(old(self)@.meso, meso_coord) ==> chunk@ == old(self)@.fresh(
                noise_strategies,
                meso_coord,
                now,
            ),
            after_meso_request(old(self)@, final(self)@, noise_strategies, meso_coord, now),
    {
        let ghost before = self@;
        match self.find_meso(meso_coord) {
            Some(i) => {
                self.meso_cache[i].touch(now);
                if now > self.last_accessed {
                    self.last_accessed = now;
                }
                proof {
                    assert(self@.meso =~= before.meso.update(
                        i as int,
                        touched(before.meso[i as int], now),
                    ));
                    assert forall|j: int|
                        cached_at(before.meso, meso_coord, j) implies j == i by {
                        if j < i {
                            assert(before.meso[j].coord != before.meso[i as int].coord);
                        } else if i < j {
                            assert(before.meso[i as int].coord != before.meso[j].coord);
                        }
                    }
                }
                &self.meso_cache[i]
            },
            None => {
                let ghost mut kept = before.meso;
                if self.meso_cache.len() >= self.max_meso_chunks {
                    let victim = self.least_recently_used();
                    self.meso_cache.remove(victim);
                    proof {
                        kept = before.meso.remove(victim as int);
                        assert(self@.meso =~= kept);
                    }
                }
                let fresh = MesoChunk::new(
                    self.coord,
                    meso_coord,
                    self.meso_size,
                    now,
                    noise_strategies,
                );
                self.meso_cache.push(fresh);
                if now > self.last_accessed {
                    self.last_accessed = now;
                }
                let last: usize = self.meso_cache.len() - 1;
                proof {
                    assert(self@.meso =~= kept.push(before.fresh(noise_strategies, meso_coord, now)));
                    assert forall|j: int| 0 <= j < kept.len() implies kept[j].coord
                        != meso_coord by {
                        if kept.len() == before.meso.len() {
                            assert(!cached_at(before.meso, meso_coord, j));
                        } else {
                            let victim = choose|v: int|
                                0 <= v < before.meso.len() && kept == before.meso.remove(v);
                            if j < victim {
                                assert(!cached_at(before.meso, meso_coord, j));
                            } else {
                                assert(!cached_at(before.meso, meso_coord, j + 1));
                            }
                        }
                    }
                }
                &self.meso_cache[last]
            },
        }
    }

    /// The sample at column `x` of row `y`.
    pub fn sample_at(&self, x: usize, y: usize) -> (values: NoiseValues)
        requires
            self@.wf(),
            x < self@.size,
            y < self@.size,
        ensures
            values == self@.samples[cell_index(x as int, y as int, self@.size as int)],
    {
        proof {
            lemma_cell_index(x as int, y as int, self.size as int, self.size as int);
        }
        let total: usize = self.noise_values.len();
        assert(y * self.size + x < total);
        self.noise_values[y * self.size + x]
    }

    /// The chunk's origin in the world.
    pub fn coord(&self) -> (coord: ChunkCoord)
        ensures
            coord == self@.coord,
    {
        self.coord
    }

    /// The side length of the grid, in samples.
    pub fn size(&self) -> (size: usize)
        ensures
            size == self@.size,
    {
        self.size
    }

    /// The most meso chunks the cache holds at one time.
    pub fn max_meso_chunks(&self) -> (bound: usize)
        ensures
            bound == self@.max_meso_chunks,
    {
        self.max_meso_chunks
    }

    /// The number of meso chunks in the cache.
    pub fn meso_count(&self) -> (count: usize)
        ensures
            count == self@.meso.len(),
    {
        self.meso_cache.len()
    }

    /// The time of the last access.
    pub fn last_accessed(&self) -> (stamp: u64)
        ensures
            stamp == self@.last_accessed,
    {
        self.last_accessed
    }

    /// The samples, row by row.
    pub fn noise_values(&self) -> (samples: &Vec<NoiseValues>)
        ensures
            samples@ == self@.samples,
    {
        &self.noise_values
    }

    /// The rasters that show the samples.
    pub fn noise_layers(&self) -> (layers: &NoiseLayers)
        ensures
            *layers == self@.layers,
    {
        &self.noise_layers
    }

    /// The cached meso chunk at `position`.
    pub fn meso_chunk(&self, position: usize) -> (chunk: &MesoChunk)
        requires
            position < self@.meso.len(),
        ensures
            chunk@ == self@.meso[position as int],
    {
        &self.meso_cache[position]
    }
}

/// The cell `k` of a row-major square grid stands in row `k / size`, column
/// `k % size`, and both lie inside the grid.
pub proof fn lemma_row_and_column(k: int, size: int)
    requires
        0 <= size,
        0 <= k < size * size,
    ensures
        0 <= k % size < size,
        0 <= k / size < size,
        cell_index(k % size, k / size, size) == k,
{
    assert(size > 0) by (nonlinear_arith)
        requires
            0 <= size,
            0 <= k < size * size,
    ;
    vstd::arithmetic::div_mod::lemma_fundamental_div_mod(k, size);
    vstd::arithmetic::div_mod::lemma_mod_bound(k, size);
    assert(0 <= k / size < size) by (nonlinear_arith)
        requires
            0 <= k < size * size,
            size > 0,
            k == size * (k / size) + k % size,
            0 <= k % size < size,
    ;
    assert(size * (k / size) == (k / size) * size) by (nonlinear_arith);
}

} // verus!
