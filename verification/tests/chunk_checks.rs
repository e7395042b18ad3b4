use std::cell::Cell;

use fungal_jungle::macro_map::terrain::noise_layers::{
    NoiseLayers, NoiseStrategies, NoiseStrategy, NoiseValues,
};
use fungal_jungle::macro_map::terrain::terrain_chunks::{
    macro_cell_position, meso_cell_position, ChunkCoord, MacroChunk, MesoChunk,
};
use fungal_jungle::macro_map::terrain::tiling::{Tile, TilingConfig, TilingStrategy};
use fungal_jungle::raster::Rgb;

/// A field that is a fixed mix of its arguments and counts how often it is asked.
struct Mix {
    a: i64,
    b: i64,
    c: i64,
    asked: Cell<usize>,
}

impl Mix {
    fn new(a: i64, b: i64, c: i64) -> Self {
        Mix { a, b, c, asked: Cell::new(0) }
    }

    fn at(&self, x: i64, y: i64, detail_level: u32) -> i64 {
        self.a * x + self.b * y + self.c * detail_level as i64
    }
}

impl NoiseStrategy for Mix {
    fn generate(&self, x: i64, y: i64, detail_level: u32) -> i64 {
        self.asked.set(self.asked.get() + 1);
        self.at(x, y, detail_level)
    }
}

fn strategies() -> NoiseStrategies<Mix, Mix, Mix> {
    NoiseStrategies {
        continentalness_strategy: Mix::new(1, 0, 7),
        temperature_strategy: Mix::new(0, 1, 11),
        altitude_strategy: Mix::new(1, 1, 13),
    }
}

fn tiling() -> TilingStrategy {
    TilingStrategy::new(TilingConfig { sea_level: 0, river_threshold: 800_000 })
}

fn at(x: i32, y: i32) -> ChunkCoord {
    ChunkCoord { x, y }
}

#[test]
fn strategies_package_the_three_fields() {
    let s = strategies();
    assert_eq!(
        s.generate(3, 5, 1),
        NoiseValues { continentalness: 10, temperature: 16, altitude: 21 }
    );
    assert_eq!(NoiseValues::default(), NoiseValues { continentalness: 0, temperature: 0, altitude: 0 });
}

#[test]
fn macro_cells_spread_over_one_unit() {
    assert_eq!(macro_cell_position(3, 0, 4), 3_000_000);
    assert_eq!(macro_cell_position(3, 1, 4), 3_250_000);
    assert_eq!(macro_cell_position(3, 3, 4), 3_750_000);
    assert_eq!(macro_cell_position(-2, 1, 3), -1_666_667);
    assert_eq!(macro_cell_position(0, 2, 3), 666_666);
    assert_eq!(macro_cell_position(i32::MAX, 0, 1), 2_147_483_647_000_000);
    assert_eq!(macro_cell_position(i32::MIN, 6, 7), -2_147_483_648_000_000 + 857_142);
}

#[test]
fn meso_cells_spread_over_a_quarter_unit() {
    assert_eq!(meso_cell_position(1, 0, 0, 4), 1_000_000);
    assert_eq!(meso_cell_position(1, 2, 1, 4), 1_562_500);
    assert_eq!(meso_cell_position(1, 3, 3, 4), 1_937_500);
    assert_eq!(meso_cell_position(0, 1, 1, 3), 333_333);
    // A meso coordinate below zero is rounded down, not towards zero.
    assert_eq!(meso_cell_position(0, -1, 1, 3), -166_667);
    assert_eq!(meso_cell_position(0, -1, 0, 1), -250_000);
    assert_eq!(meso_cell_position(0, i32::MIN, 0, 1), -536_870_912_000_000);
    assert_eq!(meso_cell_position(0, i32::MAX, 0, 1), 536_870_911_750_000);
}

#[test]
fn macro_chunk_samples_its_grid_at_detail_zero() {
    let s = strategies();
    let chunk = MacroChunk::new(4, at(1, 2), &tiling(), &s);
    assert_eq!(chunk.coord(), at(1, 2));
    assert_eq!(chunk.size(), 4);
    assert_eq!(chunk.max_meso_chunks(), 128);
    assert_eq!(chunk.meso_count(), 0);
    assert_eq!(chunk.last_accessed(), 0);
    assert_eq!(chunk.noise_values().len(), 16);
    for y in 0..4usize {
        for x in 0..4usize {
            let wx = 1_000_000 + 250_000 * x as i64;
            let wy = 2_000_000 + 250_000 * y as i64;
            let expected = NoiseValues { continentalness: wx, temperature: wy, altitude: wx + wy };
            assert_eq!(chunk.sample_at(x, y), expected);
            assert_eq!(chunk.noise_values()[y * 4 + x], expected);
        }
    }
    assert_eq!(s.continentalness_strategy.asked.get(), 16);
}

#[test]
fn macro_chunk_of_size_zero_is_empty() {
    let s = strategies();
    let chunk = MacroChunk::new(0, at(0, 0), &tiling(), &s);
    assert_eq!(chunk.noise_values().len(), 0);
    assert_eq!(s.altitude_strategy.asked.get(), 0);
}

#[test]
fn macro_chunk_draws_its_layers() {
    let s = NoiseStrategies {
        continentalness_strategy: Mix::new(0, 0, 0),
        temperature_strategy: Mix::new(0, 0, 0),
        altitude_strategy: Mix::new(1, 0, 0),
    };
    // The altitude rises from 0.0 to 0.75 across the chunk; everything else is 0.
    let chunk = MacroChunk::new(4, at(0, 0), &tiling(), &s);
    let layers = chunk.noise_layers();
    let t = tiling();
    for y in 0..4u32 {
        for x in 0..4u32 {
            let altitude = 250_000 * x as i64;
            let values = NoiseValues { continentalness: 0, temperature: 0, altitude };
            assert_eq!(layers.aggregate().get_pixel(x, y), t.get_tile(&values).rbg_colour());
            assert_eq!(layers.altitude().get_pixel(x, y), t.get_grayscale_tile(altitude));
            assert_eq!(layers.continentalness().get_pixel(x, y), Rgb([0, 0, 0]));
            assert_eq!(layers.temperature().get_pixel(x, y), Rgb([0, 0, 0]));
        }
    }
    assert_eq!(layers.aggregate().get_pixel(0, 0), Tile::Sea.rbg_colour());
    assert_eq!(layers.aggregate().get_pixel(1, 0), Tile::Plains.rbg_colour());
    assert_eq!(layers.aggregate().get_pixel(3, 3), Tile::Mountain.rbg_colour());
    assert_eq!(layers.altitude().get_pixel(2, 1), Rgb([127, 127, 127]));
}

#[test]
fn layers_start_black_and_take_one_sample() {
    let mut layers = NoiseLayers::new(2);
    assert_eq!(layers.aggregate().width(), 2);
    assert_eq!(layers.altitude().height(), 2);
    let values = NoiseValues { continentalness: 700_000, temperature: 20_000_000, altitude: 300_000 };
    layers.add_at_index(1, 0, &values, &tiling());
    assert_eq!(layers.aggregate().get_pixel(1, 0), Tile::Forest.rbg_colour());
    assert_eq!(layers.continentalness().get_pixel(1, 0), Rgb([178, 178, 178]));
    assert_eq!(layers.temperature().get_pixel(1, 0), Rgb([255, 255, 255]));
    assert_eq!(layers.altitude().get_pixel(1, 0), Rgb([76, 76, 76]));
    for (x, y) in [(0u32, 0u32), (0, 1), (1, 1)] {
        assert_eq!(layers.aggregate().get_pixel(x, y), Rgb([0, 0, 0]));
        assert_eq!(layers.continentalness().get_pixel(x, y), Rgb([0, 0, 0]));
        assert_eq!(layers.temperature().get_pixel(x, y), Rgb([0, 0, 0]));
        assert_eq!(layers.altitude().get_pixel(x, y), Rgb([0, 0, 0]));
    }
}

#[test]
fn meso_chunk_samples_its_grid_at_detail_one() {
    let s = strategies();
    let chunk = MesoChunk::new(at(1, 2), at(2, 3), 4, 9, &s);
    assert_eq!(chunk.coord(), at(2, 3));
    assert_eq!(chunk.size(), 4);
    assert_eq!(chunk.last_accessed(), 9);
    assert_eq!(chunk.samples().len(), 16);
    for y in 0..4usize {
        for x in 0..4usize {
            let wx = 1_000_000 + (2_000_000 + 250_000 * x as i64) / 4;
            let wy = 2_000_000 + (3_000_000 + 250_000 * y as i64) / 4;
            let expected = NoiseValues {
                continentalness: wx + 7,
                temperature: wy + 11,
                altitude: wx + wy + 13,
            };
            assert_eq!(chunk.sample_at(x, y), expected);
        }
    }
}

#[test]
fn touch_never_moves_time_backwards() {
    let s = strategies();
    let mut meso = MesoChunk::new(at(0, 0), at(0, 0), 1, 5, &s);
    meso.touch(9);
    assert_eq!(meso.last_accessed(), 9);
    meso.touch(3);
    assert_eq!(meso.last_accessed(), 9);
    let mut chunk = MacroChunk::new(1, at(0, 0), &tiling(), &s);
    chunk.touch(4);
    assert_eq!(chunk.last_accessed(), 4);
    chunk.touch(2);
    assert_eq!(chunk.last_accessed(), 4);
    chunk.touch(4);
    assert_eq!(chunk.last_accessed(), 4);
}

#[test]
fn meso_request_generates_once_and_then_hits() {
    let s = strategies();
    let mut chunk = MacroChunk::with_meso(2, at(0, 0), &tiling(), &s, 3, 4);
    let asked_before = s.altitude_strategy.asked.get();
    let first = chunk.get_or_generate_meso(at(1, 1), 5, &s).samples().clone();
    assert_eq!(first.len(), 9);
    assert_eq!(s.altitude_strategy.asked.get(), asked_before + 9);
    assert_eq!(chunk.meso_count(), 1);
    assert_eq!(chunk.last_accessed(), 5);
    assert_eq!(chunk.find_meso(at(1, 1)), Some(0));
    assert_eq!(chunk.find_meso(at(1, 0)), None);
    let again = chunk.get_or_generate_meso(at(1, 1), 8, &s);
    assert_eq!(again.last_accessed(), 8);
    assert_eq!(again.samples(), &first);
    assert_eq!(s.altitude_strategy.asked.get(), asked_before + 9);
    assert_eq!(chunk.meso_count(), 1);
    assert_eq!(chunk.last_accessed(), 8);
}

#[test]
fn full_cache_evicts_least_recently_touched() {
    let s = strategies();
    let mut chunk = MacroChunk::with_meso(1, at(0, 0), &tiling(), &s, 2, 2);
    let (a, b, c) = (at(0, 0), at(1, 0), at(2, 0));
    chunk.get_or_generate_meso(a, 1, &s);
    chunk.get_or_generate_meso(b, 2, &s);
    assert_eq!(chunk.meso_count(), 2);
    assert_eq!(chunk.least_recently_used(), 0);
    chunk.get_or_generate_meso(c, 3, &s);
    assert_eq!(chunk.meso_count(), 2);
    assert_eq!(chunk.find_meso(a), None);
    assert_eq!(chunk.find_meso(b), Some(0));
    assert_eq!(chunk.find_meso(c), Some(1));
    assert_eq!(chunk.meso_chunk(1).coord(), c);
    assert_eq!(chunk.meso_chunk(1).last_accessed(), 3);
}

#[test]
fn a_touch_saves_a_chunk_from_eviction() {
    let s = strategies();
    let mut chunk = MacroChunk::with_meso(1, at(0, 0), &tiling(), &s, 2, 2);
    let (a, b, c) = (at(0, 0), at(1, 0), at(2, 0));
    chunk.get_or_generate_meso(a, 1, &s);
    chunk.get_or_generate_meso(b, 2, &s);
    chunk.get_or_generate_meso(a, 3, &s);
    assert_eq!(chunk.least_recently_used(), 1);
    chunk.get_or_generate_meso(c, 4, &s);
    assert_eq!(chunk.find_meso(a), Some(0));
    assert_eq!(chunk.find_meso(b), None);
    assert_eq!(chunk.find_meso(c), Some(1));
}

#[test]
fn equal_stamps_evict_the_chunk_that_stands_first() {
    let s = strategies();
    let mut chunk = MacroChunk::with_meso(1, at(0, 0), &tiling(), &s, 1, 3);
    chunk.get_or_generate_meso(at(0, 0), 7, &s);
    chunk.get_or_generate_meso(at(1, 0), 7, &s);
    chunk.get_or_generate_meso(at(2, 0), 7, &s);
    assert_eq!(chunk.least_recently_used(), 0);
    chunk.get_or_generate_meso(at(3, 0), 7, &s);
    assert_eq!(chunk.find_meso(at(0, 0)), None);
    assert_eq!(chunk.find_meso(at(1, 0)), Some(0));
    assert_eq!(chunk.find_meso(at(3, 0)), Some(2));
}

#[test]
fn cache_of_one_holds_the_last_request() {
    let s = strategies();
    let mut chunk = MacroChunk::with_meso(1, at(0, 0), &tiling(), &s, 1, 1);
    for n in 0..5 {
        let got = chunk.get_or_generate_meso(at(n, n), n as u64, &s).coord();
        assert_eq!(got, at(n, n));
        assert_eq!(chunk.meso_count(), 1);
        assert_eq!(chunk.find_meso(at(n, n)), Some(0));
    }
}

#[test]
fn cache_never_exceeds_its_bound() {
    let s = strategies();
    let mut chunk = MacroChunk::with_meso(1, at(0, 0), &tiling(), &s, 1, 3);
    for n in 0..40i32 {
        chunk.get_or_generate_meso(at(n % 7, n % 5), n as u64, &s);
        assert!(chunk.meso_count() <= 3);
    }
    assert_eq!(chunk.meso_count(), 3);
}

#[test]
fn evicted_chunk_comes_back_with_the_same_samples() {
    let s = strategies();
    let mut chunk = MacroChunk::with_meso(2, at(4, 5), &tiling(), &s, 3, 2);
    let before = chunk.get_or_generate_meso(at(1, 2), 1, &s).samples().clone();
    chunk.get_or_generate_meso(at(0, 0), 2, &s);
    chunk.get_or_generate_meso(at(3, 3), 3, &s);
    assert_eq!(chunk.find_meso(at(1, 2)), None);
    let asked = s.altitude_strategy.asked.get();
    let after = chunk.get_or_generate_meso(at(1, 2), 4, &s);
    assert_eq!(after.samples(), &before);
    assert_eq!(after.last_accessed(), 4);
    assert_eq!(s.altitude_strategy.asked.get(), asked + 9);
}

#[test]
fn texture_is_found_by_name() {
    let mut layers = NoiseLayers::new(1);
    let values = NoiseValues { continentalness: 700_000, temperature: 200_000, altitude: 300_000 };
    layers.add_at_index(0, 0, &values, &tiling());
    assert_eq!(layers.get_texture("aggregate").get_pixel(0, 0), Tile::Forest.rbg_colour());
    assert_eq!(layers.get_texture("continentalness").get_pixel(0, 0), Rgb([178, 178, 178]));
    assert_eq!(layers.get_texture("temperature").get_pixel(0, 0), Rgb([51, 51, 51]));
    assert_eq!(layers.get_texture("altitude").get_pixel(0, 0), Rgb([76, 76, 76]));
    assert_eq!(layers.get_texture("humidity").get_pixel(0, 0), Tile::Forest.rbg_colour());
    assert_eq!(layers.get_texture("").get_pixel(0, 0), Tile::Forest.rbg_colour());
}

#[test]
fn default_coordinate_is_the_origin() {
    assert_eq!(ChunkCoord::default(), at(0, 0));
}
