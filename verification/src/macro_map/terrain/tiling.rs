//! Threshold tiling: each tile owns three closed ranges, and a sample is
//! given the first tile, in a fixed order of priority, whose ranges all
//! contain it.

use vstd::prelude::*;
use crate::raster::Rgb;
use crate::scalar::{offset, saturating_sum, UNBOUNDED_ABOVE, UNBOUNDED_BELOW, UNIT};
use crate::macro_map::terrain::noise_layers::NoiseValues;

verus! {

/// A closed range of scalars.
#[derive(Debug, Clone, Copy)]
pub struct ThresholdRange {
    pub min: i64,
    pub max: i64,
}

impl ThresholdRange {
    /// Whether `value` lies in the range, both ends included.
    pub open spec fn admits(self, value: int) -> bool {
        self.min <= value <= self.max
    }

    /// The range from `min` to `max`, both included.
    pub fn new(min: i64, max: i64) -> (range: Self)
        ensures
            range.min == min,
            range.max == max,
    {
        Self { min, max }
    }

    /// Whether `value` lies in the range.
    pub fn contains(&self, value: i64) -> (inside: bool)
        ensures
            inside == self.admits(value as int),
    {
        value >= self.min && value <= self.max
    }
}

/// The two knobs from which every tile's ranges are derived.
#[derive(Clone, Copy, Debug)]
pub struct TilingConfig {
    pub sea_level: i64,
    pub river_threshold: i64,
}

impl Default for TilingConfig {
    fn default() -> (config: Self)
        ensures
            config.sea_level == 0,
            config.river_threshold == 800_000,
    {
        Self { sea_level: 0, river_threshold: 800_000 }
    }
}

/// The ranges a sample must fall in to be given a tile.
#[derive(Debug, Clone, Copy)]
pub struct TileThresholds {
    pub altitude: ThresholdRange,
    pub temperature: ThresholdRange,
    pub continentalness: ThresholdRange,
}

impl TileThresholds {
    /// Whether all three ranges contain their attribute.
    pub open spec fn admits(self, altitude: int, temperature: int, continentalness: int) -> bool {
        &&& self.altitude.admits(altitude)
        &&& self.temperature.admits(temperature)
        &&& self.continentalness.admits(continentalness)
    }
}

/// A terrain category of the sampled world.
#[derive(Debug, Clone, Copy, PartialEq, Eq, Structural)]
pub enum Tile {
    Sea,
    White,
    Snow,
    Mountain,
    Forest,
    Plains,
    Basin,
    Plateau,
    Desert,
    Beach,
    Black,
}

/// A range given by its two ends.
pub open spec fn range(min: int, max: int) -> ThresholdRange {
    ThresholdRange { min: min as i64, max: max as i64 }
}

/// The range without bounds.
pub open spec fn everything() -> ThresholdRange {
    range(i64::MIN as int, i64::MAX as int)
}

impl Tile {
    /// The position of the tile's texture in the tile atlas. `Black` has no
    /// texture of its own and shares the first slot.
    pub open spec fn atlas_index(self) -> u8 {
        match self {
            Tile::Sea => 0,
            Tile::Plains => 1,
            Tile::White => 2,
            Tile::Snow => 3,
            Tile::Forest => 4,
            Tile::Basin => 5,
            Tile::Desert => 6,
            Tile::Mountain => 7,
            Tile::Plateau => 8,
            Tile::Beach => 9,
            Tile::Black => 0,
        }
    }

    /// The tile's colour as `[red, green, blue]`.
    pub open spec fn palette(self) -> Seq<u8> {
        match self {
            Tile::Sea => seq![0u8, 191u8, 255u8],
            Tile::Plains => seq![50u8, 205u8, 50u8],
            Tile::White => seq![255u8, 255u8, 255u8],
            Tile::Snow => seq![211u8, 211u8, 211u8],
            Tile::Forest => seq![0u8, 100u8, 0u8],
            Tile::Basin => seq![255u8, 215u8, 0u8],
            Tile::Desert => seq![255u8, 165u8, 0u8],
            Tile::Mountain => seq![105u8, 105u8, 105u8],
            Tile::Plateau => seq![139u8, 69u8, 19u8],
            Tile::Beach => seq![222u8, 184u8, 135u8],
            Tile::Black => seq![0u8, 0u8, 0u8],
        }
    }

    /// The position of the tile's texture in the tile atlas.
    pub fn index(&self) -> (i: u8)
        ensures
            i == self.atlas_index(),
    {
        match *self {
            Tile::Sea => 0,
            Tile::Plains => 1,
            Tile::White => 2,
            Tile::Snow => 3,
            Tile::Forest => 4,
            Tile::Basin => 5,
            Tile::Desert => 6,
            Tile::Mountain => 7,
            Tile::Plateau => 8,
            Tile::Beach => 9,
            _ => 0,
        }
    }

    /// The tile's colour with an opaque alpha channel.
    pub fn u8colour(&self) -> (colour: [u8; 4])
        ensures
            colour@ == self.palette().push(255u8),
    {
        match *self {
            Tile::Sea => [0, 191, 255, 255],
            Tile::Plains => [50, 205, 50, 255],
            Tile::White => [255, 255, 255, 255],
            Tile::Snow => [211, 211, 211, 255],
            Tile::Forest => [0, 100, 0, 255],
            Tile::Basin => [255, 215, 0, 255],
            Tile::Desert => [255, 165, 0, 255],
            Tile::Mountain => [105, 105, 105, 255],
            Tile::Plateau => [139, 69, 19, 255],
            Tile::Beach => [222, 184, 135, 255],
            _ => [0, 0, 0, 255],
        }
    }

    /// The tile's colour as a pixel.
    pub fn rbg_colour(&self) -> (colour: Rgb)
        ensures
            colour.channels() == self.palette(),
    {
        match *self {
            Tile::Sea => Rgb([0, 191, 255]),
            Tile::Plains => Rgb([50, 205, 50]),
            Tile::White => Rgb([255, 255, 255]),
            Tile::Snow => Rgb([211, 211, 211]),
            Tile::Forest => Rgb([0, 100, 0]),
            Tile::Basin => Rgb([255, 215, 0]),
            Tile::Desert => Rgb([255, 165, 0]),
            Tile::Mountain => Rgb([105, 105, 105]),
            Tile::Plateau => Rgb([139, 69, 19]),
            Tile::Beach => Rgb([222, 184, 135]),
            _ => Rgb([0, 0, 0]),
        }
    }

    /// The ranges of the tile under a configuration. Offsets from the sea
    /// level saturate, and the ends of the `i64` range stand for "unbounded".
    pub open spec fn bands(self, config: TilingConfig) -> TileThresholds {
        let sea = config.sea_level as int;
        let river = config.river_threshold as int;
        let shore = saturating_sum(sea, 100_000);
        let peak = saturating_sum(sea, 700_000);
        let lowest = i64::MIN as int;
        let highest = i64::MAX as int;
        match self {
            Tile::Sea => TileThresholds {
                altitude: range(lowest, sea),
                temperature: everything(),
                continentalness: range(0, river),
            },
            Tile::Mountain => TileThresholds {
                altitude: range(peak, highest),
                temperature: everything(),
                continentalness: range(0, highest),
            },
            Tile::Beach => TileThresholds {
                altitude: range(sea, shore),
                temperature: everything(),
                continentalness: range(0, river),
            },
            Tile::Basin => TileThresholds {
                altitude: range(lowest, sea),
                temperature: range(70_000_000, highest),
                continentalness: everything(),
            },
            Tile::Snow => TileThresholds {
                altitude: range(sea, peak),
                temperature: range(lowest, -30_000_000),
                continentalness: range(0, highest),
            },
            Tile::Forest => TileThresholds {
                altitude: range(shore, peak),
                temperature: range(-30_000_000, 70_000_000),
                continentalness: range(600_000, highest),
            },
            Tile::Plains => TileThresholds {
                altitude: range(shore, peak),
                temperature: range(-30_000_000, 70_000_000),
                continentalness: range(0, 600_000),
            },
            Tile::White => TileThresholds {
                altitude: range(lowest, sea),
                temperature: range(lowest, -15_000_000),
                continentalness: range(0, 600_000),
            },
            Tile::Plateau => TileThresholds {
                altitude: range(lowest, peak),
                temperature: range(70_000_000, highest),
                continentalness: everything(),
            },
            Tile::Desert => TileThresholds {
                altitude: range(sea, highest),
                temperature: range(70_000_000, highest),
                continentalness: everything(),
            },
            Tile::Black => TileThresholds {
                altitude: everything(),
                temperature: everything(),
                continentalness: everything(),
            },
        }
    }

    /// Whether the tile's ranges contain the three attributes.
    pub open spec fn admits(
        self,
        config: TilingConfig,
        altitude: int,
        temperature: int,
        continentalness: int,
    ) -> bool {
        self.bands(config).admits(altitude, temperature, continentalness)
    }

    /// The tiles in their order of priority: where the ranges of two tiles
    /// overlap, the one that stands earlier wins.
    pub open spec fn priority() -> Seq<Tile> {
        seq![
            Tile::Sea,
            Tile::White,
            Tile::Snow,
            Tile::Mountain,
            Tile::Forest,
            Tile::Plains,
            Tile::Basin,
            Tile::Plateau,
            Tile::Desert,
            Tile::Beach,
            Tile::Black,
        ]
    }

    /// The ranges of the tile under `config`.
    pub fn thresholds(&self, config: &TilingConfig) -> (bands: TileThresholds)
        ensures
            bands == self.bands(*config),
    {
        let sea: i64 = config.sea_level;
        let river: i64 = config.river_threshold;
        let everything = ThresholdRange::new(UNBOUNDED_BELOW, UNBOUNDED_ABOVE);
        match self {
            Tile::Sea => TileThresholds {
                altitude: ThresholdRange::new(UNBOUNDED_BELOW, sea),
                temperature: everything,
                continentalness: ThresholdRange::new(0, river),
            },
            Tile::Mountain => TileThresholds {
                altitude: ThresholdRange::new(offset(sea, 700_000), UNBOUNDED_ABOVE),
                temperature: everything,
                continentalness: ThresholdRange::new(0, UNBOUNDED_ABOVE),
            },
            Tile::Beach => TileThresholds {
                altitude: ThresholdRange::new(sea, offset(sea, 100_000)),
                temperature: everything,
                continentalness: ThresholdRange::new(0, river),
            },
            Tile::Basin => TileThresholds {
                altitude: ThresholdRange::new(UNBOUNDED_BELOW, sea),
                temperature: ThresholdRange::new(70_000_000, UNBOUNDED_ABOVE),
                continentalness: everything,
            },
            Tile::Snow => TileThresholds {
                altitude: ThresholdRange::new(sea, offset(sea, 700_000)),
                temperature: ThresholdRange::new(UNBOUNDED_BELOW, -30_000_000),
                continentalness: ThresholdRange::new(0, UNBOUNDED_ABOVE),
            },
            Tile::Forest => TileThresholds {
                altitude: ThresholdRange::new(offset(sea, 100_000), offset(sea, 700_000)),
                temperature: ThresholdRange::new(-30_000_000, 70_000_000),
                continentalness: ThresholdRange::new(600_000, UNBOUNDED_ABOVE),
            },
            Tile::Plains => TileThresholds {
                altitude: ThresholdRange::new(offset(sea, 100_000), offset(sea, 700_000)),
                temperature: ThresholdRange::new(-30_000_000, 70_000_000),
                continentalness: ThresholdRange::new(0, 600_000),
            },
            Tile::White => TileThresholds {
                altitude: ThresholdRange::new(UNBOUNDED_BELOW, sea),
                temperature: ThresholdRange::new(UNBOUNDED_BELOW, -15_000_000),
                continentalness: ThresholdRange::new(0, 600_000),
            },
            Tile::Plateau => TileThresholds {
                altitude: ThresholdRange::new(UNBOUNDED_BELOW, offset(sea, 700_000)),
                temperature: ThresholdRange::new(70_000_000, UNBOUNDED_ABOVE),
                continentalness: everything,
            },
            Tile::Desert => TileThresholds {
                altitude: ThresholdRange::new(sea, UNBOUNDED_ABOVE),
                temperature: ThresholdRange::new(70_000_000, UNBOUNDED_ABOVE),
                continentalness: everything,
            },
            Tile::Black => TileThresholds {
                altitude: everything,
                temperature: everything,
                continentalness: everything,
            },
        }
    }

    /// Whether the tile's ranges under `config` contain the three attributes.
    pub fn matches(&self, config: &TilingConfig, altitude: i64, temp: i64, cont: i64) -> (hit: bool)
        ensures
            hit == self.admits(*config, altitude as int, temp as int, cont as int),
    {
        let bounds = self.thresholds(config);
        bounds.altitude.contains(altitude) && bounds.temperature.contains(temp)
            && bounds.continentalness.contains(cont)
    }

    /// Every tile, in order of priority.
    pub fn all() -> (tiles: Vec<Tile>)
        ensures
            tiles@ == Self::priority(),
    {
        let tiles = vec![
            Tile::Sea,
            Tile::White,
            Tile::Snow,
            Tile::Mountain,
            Tile::Forest,
            Tile::Plains,
            Tile::Basin,
            Tile::Plateau,
            Tile::Desert,
            Tile::Beach,
            Tile::Black,
        ];
        assert(tiles@ =~= Self::priority());
        tiles
    }
}

/// The first tile at or after position `from` of the priority order whose
/// ranges contain the sample, and `Black` if there is none.
pub open spec fn first_admitting(config: TilingConfig, values: NoiseValues, from: nat) -> Tile
    decreases Tile::priority().len() - from,
{
    if from >= Tile::priority().len() {
        Tile::Black
    } else if Tile::priority()[from as int].admits(
        config,
        values.altitude as int,
        values.temperature as int,
        values.continentalness as int,
    ) {
        Tile::priority()[from as int]
    } else {
        first_admitting(config, values, from + 1)
    }
}

/// The tile of a sample: the first in priority order whose ranges contain it.
pub open spec fn classify(config: TilingConfig, values: NoiseValues) -> Tile {
    first_admitting(config, values, 0)
}

/// The grey level that shows a scalar: `255` times the scalar, cut to a
/// whole number and clamped into `0..=255`.
pub open spec fn grey_level(noise: int) -> int {
    if noise <= 0 {
        0
    } else if noise * 255 / (UNIT as int) >= 255 {
        255
    } else {
        noise * 255 / (UNIT as int)
    }
}

/// The classifier: a configuration applied to samples.
#[derive(Clone, Copy, Debug)]
pub struct TilingStrategy {
    config: TilingConfig,
}

impl TilingStrategy {
    /// The configuration the strategy was made with.
    pub closed spec fn config(&self) -> TilingConfig {
        self.config
    }

    /// The classifier for a configuration.
    pub fn new(config: TilingConfig) -> (strategy: Self)
        ensures
            strategy.config() == config,
    {
        Self { config }
    }

    /// The grey pixel that shows one attribute of a sample.
    pub fn get_grayscale_tile(&self, noise: i64) -> (pixel: Rgb)
        ensures
            pixel.channels() == seq![
                grey_level(noise as int) as u8,
                grey_level(noise as int) as u8,
                grey_level(noise as int) as u8,
            ],
    {
        let level: u8 = if noise <= 0 {
            0
        } else {
            let scaled: i128 = (noise as i128) * 255 / (UNIT as i128);
            if scaled >= 255 {
                255
            } else {
                scaled as u8
            }
        };
        Rgb::grey(level)
    }

    /// The tile of a sample.
    pub fn get_tile(&self, noise_values: &NoiseValues) -> (tile: Tile)
        ensures
            tile == classify(self.config(), *noise_values),
    {
        let tiles = Tile::all();
        let mut i: usize = 0;
        while i < tiles.len()
            invariant
                i <= tiles.len(),
                tiles@ == Tile::priority(),
                classify(self.config(), *noise_values) == first_admitting(
                    self.config(),
                    *noise_values,
                    i as nat,
                ),
            decreases tiles.len() - i,
        {
            if tiles[i].matches(
                &self.config,
                noise_values.altitude,
                noise_values.temperature,
                noise_values.continentalness,
            ) {
                return tiles[i];
            }
            i = i + 1;
        }
        Tile::Black
    }
}

/// Every sample is classified by a rule: the tile given to it is a tile of
/// the priority order whose ranges contain the sample, and no tile before
/// it in that order does. No sample is left to a default.
pub proof fn classification_is_total(config: TilingConfig, values: NoiseValues)
    ensures
        exists|k: int|
            0 <= k < Tile::priority().len() && #[trigger] Tile::priority()[k] == classify(
                config,
                values,
            ) && rule_holds(config, values, k) && forall|j: int|
                0 <= j < k ==> !rule_holds(config, values, j),
{
    lemma_first_admitting(config, values, 0);
}

/// Whether the tile at position `k` of the priority order contains the sample.
pub open spec fn rule_holds(config: TilingConfig, values: NoiseValues, k: int) -> bool {
    Tile::priority()[k].admits(
        config,
        values.altitude as int,
        values.temperature as int,
        values.continentalness as int,
    )
}

/// Where the ranges of two tiles both contain a sample, the sample is never
/// given the later of the two: its tile stands at or before the earlier one
/// in the priority order.
pub proof fn earlier_rule_wins(config: TilingConfig, values: NoiseValues, earlier: int, later: int)
    requires
        0 <= earlier < later < Tile::priority().len(),
        rule_holds(config, values, earlier),
        rule_holds(config, values, later),
    ensures
        classify(config, values) != Tile::priority()[later],
        exists|k: int| 0 <= k <= earlier && #[trigger] Tile::priority()[k] == classify(config, values),
{
    lemma_first_admitting(config, values, 0);
    let k = choose|k: int|
        0 <= k < Tile::priority().len() && #[trigger] Tile::priority()[k] == classify(
            config,
            values,
        ) && rule_holds(config, values, k) && forall|j: int|
            0 <= j < k ==> !rule_holds(config, values, j);
    assert(k <= earlier);
    assert(Tile::priority()[k] != Tile::priority()[later]);
}

/// Where no tile before position `from` contains the sample, the first that
/// contains it at or after `from` is the first that contains it at all; and
/// there is one, as the last tile contains every sample.
proof fn lemma_first_admitting(config: TilingConfig, values: NoiseValues, from: nat)
    requires
        from < Tile::priority().len(),
        forall|j: int| 0 <= j < from ==> !rule_holds(config, values, j),
    ensures
        exists|k: int|
            0 <= k < Tile::priority().len() && #[trigger] Tile::priority()[k] == first_admitting(
                config,
                values,
                from,
            ) && rule_holds(config, values, k) && forall|j: int|
                0 <= j < k ==> !rule_holds(config, values, j),
    decreases Tile::priority().len() - from,
{
    if rule_holds(config, values, from as int) {
        assert(Tile::priority()[from as int] == first_admitting(config, values, from));
    } else {
        assert(rule_holds(config, values, Tile::priority().len() - 1));
        lemma_first_admitting(config, values, from + 1);
    }
}

} // verus!
