use noise::{NoiseFn, OpenSimplex};

use fungal_jungle::macro_map::macro_map::ParallelGridGenerator;
use fungal_jungle::macro_map::macromap::TileLayer;
use fungal_jungle::macro_map::terrain::noise_layers::{NoiseStrategies, NoiseStrategy, NoiseValues};
use fungal_jungle::macro_map::terrain::terrain_chunks::ChunkingConfig;
use fungal_jungle::macro_map::terrain::tiling::{TilingConfig, TilingStrategy};
use fungal_jungle::macro_map::terrain::world_chunks::WorldChunks;
use fungal_jungle::macro_map::tiling_strategy::{create_tile, get_tile, TileType};

const UNIT: f64 = 1_000_000.0;

fn to_scalar(value: f64) -> i64 {
    (value * UNIT).round() as i64
}

fn fbm(noise: &OpenSimplex, x: f64, y: f64, scale: f64, octaves: u32, persistence: f64, lacunarity: f64, first: f64) -> f64 {
    let mut amplitude = first;
    let mut frequency = 1.0;
    let mut value = 0.0;
    let mut weight = 0.0;
    for _ in 0..octaves {
        value += noise.get([x * frequency / scale, y * frequency / scale]) * amplitude;
        weight += amplitude;
        amplitude *= persistence;
        frequency *= lacunarity;
    }
    value / weight
}

struct Continentalness(OpenSimplex);

impl NoiseStrategy for Continentalness {
    fn generate(&self, x: i64, y: i64, detail_level: u32) -> i64 {
        to_scalar(fbm(&self.0, x as f64 / UNIT, y as f64 / UNIT, 100.0, 4 + detail_level, 0.5, 2.0, 1.0))
    }
}

struct Temperature(OpenSimplex);

impl NoiseStrategy for Temperature {
    fn generate(&self, x: i64, y: i64, detail_level: u32) -> i64 {
        let y_world = y as f64 / UNIT;
        let noise = fbm(&self.0, x as f64 / UNIT, y_world, 150.0, 3 + detail_level, 0.6, 2.5, 1.0);
        to_scalar((noise * (1.0 - 0.7) + (y_world * 2.0 - 1.0) * 0.7) * 100.0)
    }
}

struct Altitude(OpenSimplex);

impl NoiseStrategy for Altitude {
    fn generate(&self, x: i64, y: i64, detail_level: u32) -> i64 {
        let (xw, yw) = (x as f64 / UNIT, y as f64 / UNIT);
        let base = fbm(&self.0, xw, yw, 200.0, 6 + detail_level, 0.5, 2.0, 1.0);
        let mountain = fbm(&self.0, xw, yw, 50.0, 4 + detail_level, 0.5, 2.0, 0.5);
        to_scalar((base + mountain * mountain * 2.0).max(-1.0).min(1.0))
    }
}

fn strategies(seed: u32) -> NoiseStrategies<Continentalness, Temperature, Altitude> {
    NoiseStrategies {
        continentalness_strategy: Continentalness(OpenSimplex::new(seed)),
        temperature_strategy: Temperature(OpenSimplex::new(seed)),
        altitude_strategy: Altitude(OpenSimplex::new(seed)),
    }
}

/// The temperature of the bulk map: a band from -50 at the top of a map
/// `height` units high to 100 at its bottom, plus up to 100 of noise.
struct Latitude {
    noise: OpenSimplex,
    height: f64,
}

impl NoiseStrategy for Latitude {
    fn generate(&self, x: i64, y: i64, _detail_level: u32) -> i64 {
        let (xw, yw) = (x as f64 / UNIT, y as f64 / UNIT);
        let noise = self.noise.get([xw * 0.01, yw * 0.01, 1.1]);
        to_scalar(yw / self.height * 150.0 - 50.0 + 100.0 * noise)
    }
}

fn bulk_strategies(seed: u32) -> NoiseStrategies<Continentalness, Latitude, Altitude> {
    NoiseStrategies {
        continentalness_strategy: Continentalness(OpenSimplex::new(seed)),
        temperature_strategy: Latitude { noise: OpenSimplex::new(seed), height: 512.0 },
        altitude_strategy: Altitude(OpenSimplex::new(seed)),
    }
}

const SEA_LEVEL: i64 = -25_000;

#[test]
fn deep_ocean_of_seed_42_is_sea() {
    let s = bulk_strategies(42);
    let ocean = s.generate(517_000_000, 404_000_000, 0);
    assert_eq!(ocean.continentalness, -365_383);
    assert_eq!(ocean.temperature, 43_537_750);
    assert!(ocean.continentalness < SEA_LEVEL);
    assert_eq!(create_tile(SEA_LEVEL, ocean.continentalness, ocean.temperature), TileType::Sea);
    let layer = TileLayer {
        continentalness: ocean.continentalness,
        temperature: ocean.temperature,
        altitude: ocean.altitude,
        ..TileLayer::default()
    };
    assert_eq!(get_tile(SEA_LEVEL, layer), TileType::Sea);
}

#[test]
fn hot_peak_of_seed_42_is_plateau() {
    let s = bulk_strategies(42);
    let peak = s.generate(675_000_000, 409_000_000, 0);
    assert_eq!(peak.continentalness, 366_722);
    assert_eq!(peak.temperature, 82_602_526);
    assert!(peak.continentalness >= SEA_LEVEL + 300_000);
    assert!(peak.temperature > 70_000_000);
    assert_eq!(create_tile(SEA_LEVEL, peak.continentalness, peak.temperature), TileType::Plateau);
}

#[test]
fn simplex_strategies_are_fixed_by_the_seed() {
    let a = strategies(42);
    let b = strategies(42);
    let c = strategies(43);
    let mut differs = false;
    for n in 0..50i64 {
        let (x, y) = (n * 1_370_001, n * 733_337);
        for detail_level in 0..2u32 {
            assert_eq!(a.generate(x, y, detail_level), b.generate(x, y, detail_level));
            differs |= a.generate(x, y, detail_level) != c.generate(x, y, detail_level);
        }
    }
    assert!(differs);
    assert_eq!(
        a.generate(3_000_000, 500_000, 1),
        NoiseValues { continentalness: 69_670, temperature: 2_031_208, altitude: 74_117 }
    );
}

#[test]
fn simplex_world_samples_are_stable_across_eviction() {
    let chunking = ChunkingConfig { macro_chunk_size: 8, meso_chunk_size: 8, map_width: 16, map_height: 16 };
    let tiling = TilingStrategy::new(TilingConfig { sea_level: 100_000, river_threshold: 100_000 });
    let mut world = WorldChunks::with_meso_capacity(strategies(42), tiling, chunking, 2);
    let points = [(5_100_000i64, 7_100_000i64), (5_400_000, 7_100_000), (5_600_000, 7_400_000), (5_900_000, 7_900_000)];
    let first: Vec<NoiseValues> = points.iter().map(|&(x, y)| world.sample(x, y, 1)).collect();
    assert_eq!(world.cache_stats(), (1, 2));
    let second: Vec<NoiseValues> = points.iter().map(|&(x, y)| world.sample(x, y, 1)).collect();
    assert_eq!(first, second);
    assert_eq!(world.cache_stats(), (1, 2));
    let reference = strategies(42);
    // The first point falls in cell 3 of meso chunk 0: 0.1 * 4 * 8 = 3.2.
    assert_eq!(first[0], reference.generate(5_093_750, 7_093_750, 1));
}

#[test]
fn simplex_bulk_grid_agrees_with_lazy_samples() {
    let tiling = TilingStrategy::new(TilingConfig { sea_level: 100_000, river_threshold: 100_000 });
    let generator = ParallelGridGenerator::new(strategies(42), tiling);
    let grid = generator.generate(4, 3, 4);
    let chunking = ChunkingConfig { macro_chunk_size: 4, meso_chunk_size: 4, map_width: 4, map_height: 3 };
    let mut world = WorldChunks::new(strategies(42), tiling, chunking);
    for gy in 0..12usize {
        for gx in 0..16usize {
            let x = gx as i64 * 250_000 + 100_000;
            let y = gy as i64 * 250_000 + 200_000;
            let (values, tile) = world.sample_tile(x, y, 0);
            assert_eq!(grid[gy * 16 + gx].values, values);
            assert_eq!(grid[gy * 16 + gx].tile, tile);
            assert_eq!(grid[gy * 16 + gx].coords, (gx as i64 * 250_000, gy as i64 * 250_000));
        }
    }
}
