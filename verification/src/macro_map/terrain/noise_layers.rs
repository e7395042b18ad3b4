//! Noise strategies, the samples they produce, and the rasters that show them.

use vstd::prelude::*;
use crate::raster::{cell_index, Rgb, RgbImage};
use crate::macro_map::terrain::tiling::{classify, grey_level, TilingStrategy};

verus! {

/// The terrain attributes sampled at one point.
#[derive(Clone, Copy, Debug, PartialEq, Eq, Structural)]
pub struct NoiseValues {
    pub continentalness: i64,
    pub temperature: i64,
    pub altitude: i64,
}

impl Default for NoiseValues {
    fn default() -> (values: Self)
        ensures
            values == (NoiseValues { continentalness: 0, temperature: 0, altitude: 0 }),
    {
        NoiseValues { continentalness: 0, temperature: 0, altitude: 0 }
    }
}

/// A source of one terrain attribute: a scalar field over the plane, refined
/// by a detail level.
///
/// The library does not look inside a strategy. It relies on one thing only,
/// which an implementation has to provide and which is not proved here: that
/// `generate` is a function, returning for equal arguments the same scalar
/// every time it is asked. `value_at` is the name of that function.
pub trait NoiseStrategy: Sized {
    /// The scalar of the field at `(x, y)` for a detail level. Left
    /// unspecified by default: some fixed function of the strategy and its
    /// arguments.
    open spec fn value_at(&self, x: i64, y: i64, detail_level: u32) -> i64 {
        vstd::pervasive::arbitrary::<spec_fn(Self, i64, i64, u32) -> i64>()(
            *self,
            x,
            y,
            detail_level,
        )
    }

    /// Samples the field at `(x, y)`.
    fn generate(&self, x: i64, y: i64, detail_level: u32) -> (value: i64)
        ensures
            value == self.value_at(x, y, detail_level),
    ;
}

/// The three fields that together describe the terrain at a point.
pub struct NoiseStrategies<C: NoiseStrategy, T: NoiseStrategy, A: NoiseStrategy> {
    pub continentalness_strategy: C,
    pub temperature_strategy: T,
    pub altitude_strategy: A,
}

impl<C: NoiseStrategy, T: NoiseStrategy, A: NoiseStrategy> NoiseStrategies<C, T, A> {
    /// The terrain at `(x, y)`: each attribute taken from its own field.
    pub open spec fn values_at(&self, x: i64, y: i64, detail_level: u32) -> NoiseValues {
        NoiseValues {
            continentalness: self.continentalness_strategy.value_at(x, y, detail_level),
            temperature: self.temperature_strategy.value_at(x, y, detail_level),
            altitude: self.altitude_strategy.value_at(x, y, detail_level),
        }
    }

    /// Samples the three fields at `(x, y)`.
    pub fn generate(&self, x: i64, y: i64, detail_level: u32) -> (values: NoiseValues)
        ensures
            values == self.values_at(x, y, detail_level),
    {
        NoiseValues {
            continentalness: self.continentalness_strategy.generate(x, y, detail_level),
            temperature: self.temperature_strategy.generate(x, y, detail_level),
            altitude: self.altitude_strategy.generate(x, y, detail_level),
        }
    }
}

/// `after` is `before` with the pixel at `at` drawn anew, showing `channels`.
pub open spec fn redrawn(before: Seq<Rgb>, after: Seq<Rgb>, at: int, channels: Seq<u8>) -> bool {
    &&& after.len() == before.len()
    &&& after[at].channels() == channels
    &&& forall|i: int| 0 <= i < before.len() && i != at ==> after[i] == before[i]
}

/// The grey pixel that shows a scalar.
pub open spec fn grey_channels(noise: i64) -> Seq<u8> {
    seq![grey_level(noise as int) as u8, grey_level(noise as int) as u8, grey_level(noise as int) as u8]
}

/// Four square rasters of one size: the classified terrain, and one grey
/// rendering for each attribute.
pub struct NoiseLayers {
    aggregate: RgbImage,
    continentalness: RgbImage,
    temperature: RgbImage,
    altitude: RgbImage,
}

impl NoiseLayers {
    /// The side length shared by the four rasters.
    pub closed spec fn side(&self) -> nat {
        self.aggregate.columns() as nat
    }

    /// The pixels of the classified terrain, row by row.
    pub closed spec fn aggregate_pixels(&self) -> Seq<Rgb> {
        self.aggregate@
    }

    /// The pixels of the continentalness layer, row by row.
    pub closed spec fn continentalness_pixels(&self) -> Seq<Rgb> {
        self.continentalness@
    }

    /// The pixels of the temperature layer, row by row.
    pub closed spec fn temperature_pixels(&self) -> Seq<Rgb> {
        self.temperature@
    }

    /// The pixels of the altitude layer, row by row.
    pub closed spec fn altitude_pixels(&self) -> Seq<Rgb> {
        self.altitude@
    }

    /// The four rasters are squares of one size, with one pixel for each
    /// cell.
    pub closed spec fn wf(&self) -> bool {
        let side = self.aggregate.columns();
        &&& self.aggregate.rows() == side
        &&& self.continentalness.columns() == side
        &&& self.continentalness.rows() == side
        &&& self.temperature.columns() == side
        &&& self.temperature.rows() == side
        &&& self.altitude.columns() == side
        &&& self.altitude.rows() == side
        &&& self.aggregate@.len() == side * side
        &&& self.continentalness@.len() == side * side
        &&& self.temperature@.len() == side * side
        &&& self.altitude@.len() == side * side
    }

    /// Whether the pixel at `at` of every layer shows `values` as the
    /// classifier `tiling` sees them.
    pub open spec fn shows(&self, at: int, values: NoiseValues, tiling: TilingStrategy) -> bool {
        &&& self.aggregate_pixels()[at].channels() == classify(tiling.config(), values).palette()
        &&& self.continentalness_pixels()[at].channels() == grey_channels(values.continentalness)
        &&& self.temperature_pixels()[at].channels() == grey_channels(values.temperature)
        &&& self.altitude_pixels()[at].channels() == grey_channels(values.altitude)
    }

    /// Four all-black rasters of `size` by `size` pixels.
    pub fn new(size: usize) -> (layers: Self)
        requires
            size <= u32::MAX,
            size * size <= usize::MAX,
        ensures
            layers.wf(),
            layers.side() == size,
            layers.aggregate_pixels().len() == size * size,
            layers.continentalness_pixels().len() == size * size,
            layers.temperature_pixels().len() == size * size,
            layers.altitude_pixels().len() == size * size,
            forall|i: int|
                0 <= i < size * size ==> {
                    &&& (#[trigger] layers.aggregate_pixels()[i]).channels() == seq![0u8, 0u8, 0u8]
                    &&& layers.continentalness_pixels()[i].channels() == seq![0u8, 0u8, 0u8]
                    &&& layers.temperature_pixels()[i].channels() == seq![0u8, 0u8, 0u8]
                    &&& layers.altitude_pixels()[i].channels() == seq![0u8, 0u8, 0u8]
                },
    {
        let side: u32 = size as u32;
        Self {
            aggregate: RgbImage::new(side, side),
            continentalness: RgbImage::new(side, side),
            temperature: RgbImage::new(side, side),
            altitude: RgbImage::new(side, side),
        }
    }

    /// Draws one sample at column `x` of row `y` of every layer: the colour
    /// of its tile in the aggregate, and a grey level for each attribute.
    pub fn add_at_index(
        &mut self,
        x: usize,
        y: usize,
        noise_values: &NoiseValues,
        tiling_strategy: &TilingStrategy,
    )
        requires
            old(self).wf(),
            x < old(self).side(),
            y < old(self).side(),
        ensures
            final(self).wf(),
            final(self).side() == old(self).side(),
            final(self).shows(
                cell_index(x as int, y as int, old(self).side() as int),
                *noise_values,
                *tiling_strategy,
            ),
            redrawn(
                old(self).aggregate_pixels(),
                final(self).aggregate_pixels(),
                cell_index(x as int, y as int, old(self).side() as int),
                classify(tiling_strategy.config(), *noise_values).palette(),
            ),
            redrawn(
                old(self).continentalness_pixels(),
                final(self).continentalness_pixels(),
                cell_index(x as int, y as int, old(self).side() as int),
                grey_channels(noise_values.continentalness),
            ),
            redrawn(
                old(self).temperature_pixels(),
                final(self).temperature_pixels(),
                cell_index(x as int, y as int, old(self).side() as int),
                grey_channels(noise_values.temperature),
            ),
            redrawn(
                old(self).altitude_pixels(),
                final(self).altitude_pixels(),
                cell_index(x as int, y as int, old(self).side() as int),
                grey_channels(noise_values.altitude),
            ),
    {
        proof {
            crate::raster::lemma_cell_index(
                x as int,
                y as int,
                self.side() as int,
                self.side() as int,
            );
        }
        let column: u32 = x as u32;
        let row: u32 = y as u32;
        let tile = tiling_strategy.get_tile(noise_values);
        self.aggregate.put_pixel(column, row, tile.rbg_colour());
        self.continentalness.put_pixel(
            column,
            row,
            tiling_strategy.get_grayscale_tile(noise_values.continentalness),
        );
        self.temperature.put_pixel(
            column,
            row,
            tiling_strategy.get_grayscale_tile(noise_values.temperature),
        );
        self.altitude.put_pixel(
            column,
            row,
            tiling_strategy.get_grayscale_tile(noise_values.altitude),
        );
    }

    /// The pixels of the layer with the given name. A name that is none
    /// of `"continentalness"`, `"temperature"` and `"altitude"` stands for
    /// the classified terrain.
    pub open spec fn pixels_of(&self, layer: Seq<char>) -> Seq<Rgb> {
        if layer == "continentalness"@ {
            self.continentalness_pixels()
        } else if layer == "temperature"@ {
            self.temperature_pixels()
        } else if layer == "altitude"@ {
            self.altitude_pixels()
        } else {
            self.aggregate_pixels()
        }
    }

    /// The raster of the layer with the given name, and that of the
    /// classified terrain for a name that is not known.
    pub fn get_texture(&self, layer: &str) -> (image: &RgbImage)
        requires
            self.wf(),
        ensures
            image@ == self.pixels_of(layer@),
            image.columns() == self.side(),
            image.rows() == self.side(),
    {
        let name: String = layer.to_owned();
        if name == "continentalness".to_owned() {
            &self.continentalness
        } else if name == "temperature".to_owned() {
            &self.temperature
        } else if name == "altitude".to_owned() {
            &self.altitude
        } else {
            &self.aggregate
        }
    }

    /// The raster of the classified terrain.
    pub fn aggregate(&self) -> (image: &RgbImage)
        requires
            self.wf(),
        ensures
            image@ == self.aggregate_pixels(),
            image.columns() == self.side(),
            image.rows() == self.side(),
    {
        &self.aggregate
    }

    /// The grey raster of the continentalness field.
    pub fn continentalness(&self) -> (image: &RgbImage)
        requires
            self.wf(),
        ensures
            image@ == self.continentalness_pixels(),
            image.columns() == self.side(),
            image.rows() == self.side(),
    {
        &self.continentalness
    }

    /// The grey raster of the temperature field.
    pub fn temperature(&self) -> (image: &RgbImage)
        requires
            self.wf(),
        ensures
            image@ == self.temperature_pixels(),
            image.columns() == self.side(),
            image.rows() == self.side(),
    {
        &self.temperature
    }

    /// The grey raster of the altitude field.
    pub fn altitude(&self) -> (image: &RgbImage)
        requires
            self.wf(),
        ensures
            image@ == self.altitude_pixels(),
            image.columns() == self.side(),
            image.rows() == self.side(),
    {
        &self.altitude
    }
}

} // verus!
