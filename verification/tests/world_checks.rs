use std::cell::Cell;

use fungal_jungle::macro_map::terrain::noise_layers::{NoiseStrategies, NoiseStrategy, NoiseValues};
use fungal_jungle::macro_map::terrain::terrain_chunks::{ChunkCoord, ChunkingConfig};
use fungal_jungle::macro_map::terrain::tiling::{Tile, TilingConfig, TilingStrategy};
use fungal_jungle::macro_map::terrain::world_chunks::WorldChunks;

/// A field that scrambles its arguments and counts how often it is asked.
struct Scramble {
    salt: i64,
    asked: Cell<usize>,
}

impl Scramble {
    fn new(salt: i64) -> Self {
        Scramble { salt, asked: Cell::new(0) }
    }

    fn at(&self, x: i64, y: i64, detail_level: u32) -> i64 {
        let mut h = (x as u64).wrapping_mul(0x9E37_79B9_7F4A_7C15)
            ^ (y as u64).wrapping_mul(0xC2B2_AE3D_27D4_EB4F)
            ^ (self.salt as u64).wrapping_mul(0x1656_67B1_9E37_79F9)
            ^ (detail_level as u64) << 17;
        h ^= h >> 29;
        h = h.wrapping_mul(0xBF58_476D_1CE4_E5B9);
        h ^= h >> 32;
        (h % 2_000_001) as i64 - 1_000_000
    }
}

impl NoiseStrategy for Scramble {
    fn generate(&self, x: i64, y: i64, detail_level: u32) -> i64 {
        self.asked.set(self.asked.get() + 1);
        self.at(x, y, detail_level)
    }
}

/// A field that is the same everywhere.
struct Flat(i64);

impl NoiseStrategy for Flat {
    fn generate(&self, _x: i64, _y: i64, _detail_level: u32) -> i64 {
        self.0
    }
}

fn strategies() -> NoiseStrategies<Scramble, Scramble, Scramble> {
    NoiseStrategies {
        continentalness_strategy: Scramble::new(1),
        temperature_strategy: Scramble::new(2),
        altitude_strategy: Scramble::new(3),
    }
}

fn expected(x: i64, y: i64, detail_level: u32) -> NoiseValues {
    NoiseValues {
        continentalness: Scramble::new(1).at(x, y, detail_level),
        temperature: Scramble::new(2).at(x, y, detail_level),
        altitude: Scramble::new(3).at(x, y, detail_level),
    }
}

fn tiling() -> TilingStrategy {
    TilingStrategy::new(TilingConfig { sea_level: 0, river_threshold: 800_000 })
}

fn chunking() -> ChunkingConfig {
    ChunkingConfig { macro_chunk_size: 4, meso_chunk_size: 5, map_width: 8, map_height: 6 }
}

fn world(max_meso_chunks: usize) -> WorldChunks<Scramble, Scramble, Scramble> {
    WorldChunks::with_meso_capacity(strategies(), tiling(), chunking(), max_meso_chunks)
}

fn at(x: i32, y: i32) -> ChunkCoord {
    ChunkCoord { x, y }
}

#[test]
fn new_world_is_empty() {
    let w = WorldChunks::new(strategies(), tiling(), chunking());
    assert_eq!(w.cache_stats(), (0, 0));
    assert_eq!(w.find_macro(at(0, 0)), None);
}

#[test]
fn contains_is_the_map_rectangle() {
    let w = world(2);
    assert!(w.contains(0, 0));
    assert!(w.contains(7_999_999, 5_999_999));
    assert!(!w.contains(8_000_000, 0));
    assert!(!w.contains(0, 6_000_000));
    assert!(!w.contains(-1, 0));
    assert!(!w.contains(0, -1));
    assert!(!w.contains(i64::MAX, i64::MAX));
    assert!(!w.contains(i64::MIN, 3));
}

#[test]
fn contains_stops_where_chunk_coordinates_end() {
    let wide = ChunkingConfig {
        macro_chunk_size: 1,
        meso_chunk_size: 1,
        map_width: usize::MAX,
        map_height: usize::MAX,
    };
    let w = WorldChunks::new(strategies(), tiling(), wide);
    assert!(w.contains(2_147_483_647_999_999, 0));
    assert!(!w.contains(2_147_483_648_000_000, 0));
    assert!(!w.contains(0, 2_147_483_648_000_000));
}

#[test]
fn macro_sample_is_the_cell_the_point_falls_in() {
    let mut w = world(2);
    assert_eq!(w.sample(1_600_000, 2_300_000, 0), expected(1_500_000, 2_250_000, 0));
    assert_eq!(w.sample(1_500_000, 2_250_000, 0), expected(1_500_000, 2_250_000, 0));
    assert_eq!(w.sample(1_749_999, 2_499_999, 0), expected(1_500_000, 2_250_000, 0));
    assert_eq!(w.sample(1_750_000, 2_499_999, 0), expected(1_750_000, 2_250_000, 0));
    assert_eq!(w.sample(0, 0, 0), expected(0, 0, 0));
    assert_eq!(w.sample(7_999_999, 5_999_999, 0), expected(7_750_000, 5_750_000, 0));
    assert_eq!(w.cache_stats(), (3, 0));
}

#[test]
fn meso_sample_is_the_cell_the_point_falls_in() {
    let mut w = world(2);
    // 0.6 of the way across the macro chunk: meso chunk 2, and 0.4 of the
    // way across that: cell 2 of 5.
    assert_eq!(w.sample(1_600_000, 2_300_000, 1), expected(1_600_000, 2_300_000, 1));
    assert_eq!(w.sample(1_649_999, 2_300_000, 1), expected(1_600_000, 2_300_000, 1));
    assert_eq!(w.sample(1_650_000, 2_349_999, 1), expected(1_650_000, 2_300_000, 1));
    assert_eq!(w.sample(1_000_000, 2_000_000, 1), expected(1_000_000, 2_000_000, 1));
    assert_eq!(w.sample(1_999_999, 2_999_999, 1), expected(1_950_000, 2_950_000, 1));
}

#[test]
fn sampling_twice_gives_the_same_values() {
    let mut w = world(2);
    for detail_level in 0..2u32 {
        for &(x, y) in [(0i64, 0i64), (3_141_592, 2_718_281), (7_999_999, 1), (4_000_000, 5_500_000)].iter() {
            let first = w.sample(x, y, detail_level);
            let second = w.sample(x, y, detail_level);
            assert_eq!(first, second);
        }
    }
}

#[test]
fn repeated_sample_is_served_from_the_cache() {
    let mut w = world(2);
    w.sample(1_600_000, 2_300_000, 1);
    let (macros, mesos) = w.cache_stats();
    assert_eq!((macros, mesos), (1, 1));
    w.sample(1_600_000, 2_300_000, 1);
    w.sample(1_610_000, 2_310_000, 1);
    w.sample(1_100_000, 2_900_000, 0);
    assert_eq!(w.cache_stats(), (1, 1));
}

#[test]
fn eviction_does_not_change_what_is_sampled() {
    let mut w = world(2);
    let a = (3_100_000i64, 4_100_000i64);
    let b = (3_300_000i64, 4_100_000i64);
    let c = (3_600_000i64, 4_100_000i64);
    let before = w.sample(a.0, a.1, 1);
    w.sample(b.0, b.1, 1);
    w.sample(c.0, c.1, 1);
    assert!(!w.is_meso_cached(at(3, 4), at(0, 0)));
    let after = w.sample(a.0, a.1, 1);
    assert_eq!(before, after);
    assert_eq!(after, expected(3_100_000, 4_100_000, 1));
    assert!(w.is_meso_cached(at(3, 4), at(0, 0)));
}

#[test]
fn third_meso_chunk_evicts_the_first() {
    let mut w = world(2);
    w.sample(3_100_000, 4_100_000, 1);
    w.sample(3_300_000, 4_100_000, 1);
    assert!(w.is_meso_cached(at(3, 4), at(0, 0)));
    assert!(w.is_meso_cached(at(3, 4), at(1, 0)));
    assert_eq!(w.cache_stats(), (1, 2));
    w.sample(3_600_000, 4_100_000, 1);
    assert!(!w.is_meso_cached(at(3, 4), at(0, 0)));
    assert!(w.is_meso_cached(at(3, 4), at(1, 0)));
    assert!(w.is_meso_cached(at(3, 4), at(2, 0)));
    assert_eq!(w.cache_stats(), (1, 2));
}

#[test]
fn meso_caches_stay_within_their_bound() {
    let mut w = world(3);
    let mut n: i64 = 0;
    for step in 0..200i64 {
        n = (n * 31 + 17 + step) % 1_000_003;
        let x = (n * 7) % 2_000_000 + 2_000_000;
        let y = (n * 13) % 1_000_000 + 1_000_000;
        w.sample(x, y, 1);
        let (macros, mesos) = w.cache_stats();
        assert!(macros <= 2);
        assert!(mesos <= 3 * macros);
        for cx in 2..4 {
            if let Some(i) = w.find_macro(at(cx, 1)) {
                assert!(w.macro_chunk(i).meso_count() <= 3);
            }
        }
    }
    assert_eq!(w.cache_stats(), (2, 6));
}

#[test]
fn cache_stats_sum_over_macro_chunks() {
    let mut w = world(2);
    w.sample(500_000, 500_000, 0);
    assert_eq!(w.cache_stats(), (1, 0));
    w.sample(1_100_000, 500_000, 1);
    w.sample(1_900_000, 500_000, 1);
    assert_eq!(w.cache_stats(), (2, 2));
    w.sample(2_100_000, 500_000, 1);
    assert_eq!(w.cache_stats(), (3, 3));
}

#[test]
fn macro_chunks_are_generated_once() {
    let mut w = world(2);
    assert_eq!(w.get_or_generate_macro(at(5, 5)), 0);
    assert_eq!(w.get_or_generate_macro(at(6, 5)), 1);
    assert_eq!(w.get_or_generate_macro(at(5, 5)), 0);
    assert_eq!(w.find_macro(at(6, 5)), Some(1));
    assert_eq!(w.cache_stats(), (2, 0));
    let chunk = w.macro_chunk(1);
    assert_eq!(chunk.coord(), at(6, 5));
    assert_eq!(chunk.size(), 4);
    assert_eq!(chunk.max_meso_chunks(), 2);
    assert_eq!(chunk.sample_at(2, 3), expected(6_500_000, 5_750_000, 0));
}

#[test]
fn samples_stamp_the_chunks_with_the_clock() {
    let mut w = world(2);
    w.sample(1_100_000, 1_100_000, 1);
    w.sample(1_900_000, 1_100_000, 1);
    w.sample(1_100_000, 1_100_000, 1);
    w.sample(1_100_000, 1_100_000, 0);
    let chunk = w.macro_chunk(w.find_macro(at(1, 1)).unwrap());
    assert_eq!(chunk.last_accessed(), 4);
    assert_eq!(chunk.meso_chunk(chunk.find_meso(at(0, 0)).unwrap()).last_accessed(), 3);
    assert_eq!(chunk.meso_chunk(chunk.find_meso(at(3, 0)).unwrap()).last_accessed(), 2);
}

#[test]
fn sample_tile_classifies_what_it_samples() {
    let mut w = world(2);
    let t = tiling();
    for &(x, y) in [(0i64, 0i64), (3_141_592, 2_718_281), (7_999_999, 1), (4_000_000, 5_500_000)].iter() {
        for detail_level in 0..2u32 {
            let (values, tile) = w.sample_tile(x, y, detail_level);
            assert_eq!(values, w.sample(x, y, detail_level));
            assert_eq!(tile, t.get_tile(&values));
        }
    }
}

#[test]
fn sample_tile_on_flat_sea() {
    let s = NoiseStrategies {
        continentalness_strategy: Flat(300_000),
        temperature_strategy: Flat(10_000_000),
        altitude_strategy: Flat(-500_000),
    };
    let mut w = WorldChunks::new(s, tiling(), chunking());
    let (values, tile) = w.sample_tile(2_500_000, 2_500_000, 1);
    assert_eq!(values, NoiseValues { continentalness: 300_000, temperature: 10_000_000, altitude: -500_000 });
    assert_eq!(tile, Tile::Sea);
}

#[test]
fn preload_fills_the_grid() {
    let mut w = world(2);
    w.sample(4_100_000, 4_100_000, 0);
    w.sample(100_000, 100_000, 1);
    w.preload();
    // Steps of 4 in a map of 8 by 6: two columns, one row.
    assert_eq!(w.cache_stats(), (3, 1));
    assert_eq!(w.find_macro(at(4, 4)), Some(0));
    assert_eq!(w.find_macro(at(0, 0)), Some(1));
    assert_eq!(w.find_macro(at(4, 0)), Some(2));
    w.preload();
    assert_eq!(w.cache_stats(), (3, 1));
}

#[test]
fn preload_of_a_map_smaller_than_a_chunk_does_nothing() {
    let small = ChunkingConfig { macro_chunk_size: 4, meso_chunk_size: 4, map_width: 3, map_height: 10 };
    let mut w = WorldChunks::new(strategies(), tiling(), small);
    w.preload();
    assert_eq!(w.cache_stats(), (0, 0));
}

#[test]
fn try_sample_refuses_what_sample_cannot_serve() {
    let mut w = world(2);
    assert_eq!(w.try_sample(1_600_000, 2_300_000, 0), Some(expected(1_500_000, 2_250_000, 0)));
    assert_eq!(w.try_sample(1_600_000, 2_300_000, 1), Some(expected(1_600_000, 2_300_000, 1)));
    let stats = w.cache_stats();
    assert_eq!(w.try_sample(1_600_000, 2_300_000, 2), None);
    assert_eq!(w.try_sample(1_600_000, 2_300_000, u32::MAX), None);
    assert_eq!(w.try_sample(8_000_000, 2_300_000, 0), None);
    assert_eq!(w.try_sample(-1, 2_300_000, 1), None);
    assert_eq!(w.try_sample(0, 6_000_000, 1), None);
    assert_eq!(w.cache_stats(), stats);
}

#[test]
fn try_sample_refuses_chunks_without_samples() {
    let no_meso = ChunkingConfig { macro_chunk_size: 4, meso_chunk_size: 0, map_width: 8, map_height: 6 };
    let mut w = WorldChunks::new(strategies(), tiling(), no_meso);
    assert!(w.try_sample(500_000, 500_000, 0).is_some());
    assert_eq!(w.try_sample(500_000, 500_000, 1), None);
    let no_macro = ChunkingConfig { macro_chunk_size: 0, meso_chunk_size: 4, map_width: 8, map_height: 6 };
    let mut w = WorldChunks::new(strategies(), tiling(), no_macro);
    assert_eq!(w.try_sample(500_000, 500_000, 0), None);
    assert_eq!(w.try_sample(500_000, 500_000, 1), Some(expected(500_000, 500_000, 1)));
}

#[test]
fn chunking_fits_until_a_count_overflows() {
    assert!(chunking().fits());
    let zero = ChunkingConfig { macro_chunk_size: 0, meso_chunk_size: 0, map_width: 0, map_height: 0 };
    assert!(zero.fits());
    let wide = ChunkingConfig { macro_chunk_size: 4, meso_chunk_size: 4, map_width: usize::MAX, map_height: usize::MAX };
    assert!(wide.fits());
    let big_macro = ChunkingConfig { macro_chunk_size: u32::MAX as usize + 1, ..chunking() };
    assert!(!big_macro.fits());
    let big_meso = ChunkingConfig { meso_chunk_size: usize::MAX, ..chunking() };
    assert!(!big_meso.fits());
}
