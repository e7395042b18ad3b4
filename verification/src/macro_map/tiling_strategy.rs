//! The tiles of the coarse world map: their palette, and the banded rule
//! that picks a tile from how far a cell stands above the sea and how warm
//! it is.

use vstd::prelude::*;
use crate::raster::Rgb;
use crate::macro_map::macromap::TileLayer;

verus! {

/// A terrain category of the coarse world map.
#[derive(Copy, Clone, Debug, PartialEq, Eq, Structural)]
pub enum TileType {
    Sea,
    White,
    Snow,
    Jungle,
    Mountain,
    Forest,
    Plains,
    Desert,
    Plateau,
    Sahara,
    Beach,
    Black,
}

impl Default for TileType {
    fn default() -> (tile: TileType)
        ensures
            tile == TileType::Sea,
    {
        TileType::Sea
    }
}

impl TileType {
    /// The position of the tile's texture in the tile atlas. Tiles without a
    /// texture of their own share the first slot.
    pub open spec fn atlas_index(self) -> u8 {
        match self {
            TileType::Sea => 0,
            TileType::Plains => 1,
            TileType::White => 2,
            TileType::Snow => 3,
            TileType::Forest => 4,
            TileType::Desert => 5,
            TileType::Sahara => 6,
            TileType::Mountain => 7,
            TileType::Plateau => 8,
            TileType::Beach => 9,
            TileType::Jungle => 0,
            TileType::Black => 0,
        }
    }

    /// The tile's colour as `[red, green, blue]`. Tiles without a colour of
    /// their own are black.
    pub open spec fn palette(self) -> Seq<u8> {
        match self {
            TileType::Sea => seq![0u8, 191u8, 255u8],
            TileType::Plains => seq![50u8, 205u8, 50u8],
            TileType::White => seq![255u8, 255u8, 255u8],
            TileType::Snow => seq![211u8, 211u8, 211u8],
            TileType::Forest => seq![0u8, 100u8, 0u8],
            TileType::Desert => seq![255u8, 215u8, 0u8],
            TileType::Sahara => seq![255u8, 165u8, 0u8],
            TileType::Mountain => seq![105u8, 105u8, 105u8],
            TileType::Plateau => seq![139u8, 69u8, 19u8],
            TileType::Beach => seq![222u8, 184u8, 135u8],
            TileType::Jungle => seq![0u8, 0u8, 0u8],
            TileType::Black => seq![0u8, 0u8, 0u8],
        }
    }

    /// The position of the tile's texture in the tile atlas.
    pub fn index(&self) -> (i: u8)
        ensures
            i == self.atlas_index(),
    {
        match *self {
            TileType::Sea => 0,
            TileType::Plains => 1,
            TileType::White => 2,
            TileType::Snow => 3,
            TileType::Forest => 4,
            TileType::Desert => 5,
            TileType::Sahara => 6,
            TileType::Mountain => 7,
            TileType::Plateau => 8,
            TileType::Beach => 9,
            _ => 0,
        }
    }

    /// The tile's colour with an opaque alpha channel.
    pub fn u8colour(&self) -> (colour: [u8; 4])
        ensures
            colour@ == self.palette().push(255u8),
    {
        match *self {
            TileType::Sea => [0, 191, 255, 255],
            TileType::Plains => [50, 205, 50, 255],
            TileType::White => [255, 255, 255, 255],
            TileType::Snow => [211, 211, 211, 255],
            TileType::Forest => [0, 100, 0, 255],
            TileType::Desert => [255, 215, 0, 255],
            TileType::Sahara => [255, 165, 0, 255],
            TileType::Mountain => [105, 105, 105, 255],
            TileType::Plateau => [139, 69, 19, 255],
            TileType::Beach => [222, 184, 135, 255],
            _ => [0, 0, 0, 255],
        }
    }

    /// The tile's colour as a pixel.
    pub fn rbg_colour(&self) -> (colour: Rgb)
        ensures
            colour.channels() == self.palette(),
    {
        match *self {
            TileType::Sea => Rgb([0, 191, 255]),
            TileType::Plains => Rgb([50, 205, 50]),
            TileType::White => Rgb([255, 255, 255]),
            TileType::Snow => Rgb([211, 211, 211]),
            TileType::Forest => Rgb([0, 100, 0]),
            TileType::Desert => Rgb([255, 215, 0]),
            TileType::Sahara => Rgb([255, 165, 0]),
            TileType::Mountain => Rgb([105, 105, 105]),
            TileType::Plateau => Rgb([139, 69, 19]),
            TileType::Beach => Rgb([222, 184, 135]),
            _ => Rgb([0, 0, 0]),
        }
    }
}

/// The band in which a sample stands, counted from the sea upwards: `0`
/// below the sea level, then the shore, the lowland, the upland and the
/// highland, and `5` for everything above.
pub open spec fn band(sea_level: int, sample: int) -> int {
    if sample < sea_level {
        0
    } else if sample < sea_level + 20_000 {
        1
    } else if sample < sea_level + 100_000 {
        2
    } else if sample < sea_level + 200_000 {
        3
    } else if sample < sea_level + 300_000 {
        4
    } else {
        5
    }
}

/// The tile of a band at a temperature.
pub open spec fn tile_in_band(band: int, temperature: int) -> TileType {
    if band == 0 {
        if temperature < -15_000_000 {
            TileType::White
        } else if temperature > 50_000_000 {
            TileType::Desert
        } else {
            TileType::Sea
        }
    } else if band == 1 {
        if temperature > 3_000_000 {
            TileType::Beach
        } else {
            TileType::Snow
        }
    } else if band == 2 || band == 3 {
        if temperature < 3_000_000 {
            TileType::Snow
        } else if temperature > 60_000_000 {
            TileType::Sahara
        } else if band == 2 {
            TileType::Plains
        } else {
            TileType::Forest
        }
    } else if band == 4 {
        if temperature > 70_000_000 {
            TileType::Plateau
        } else {
            TileType::Mountain
        }
    } else {
        if temperature < 70_000_000 {
            TileType::Snow
        } else {
            TileType::Plateau
        }
    }
}

/// The tile of a sample at a temperature, for a sea level.
pub open spec fn banded_tile(sea_level: int, sample: int, temperature: int) -> TileType {
    tile_in_band(band(sea_level, sample), temperature)
}

/// The tile of a sample at a temperature, for a sea level.
pub fn create_tile(sea_level: i64, sample: i64, temperature: i64) -> (tile: TileType)
    ensures
        tile == banded_tile(sea_level as int, sample as int, temperature as int),
{
    let sea: i128 = sea_level as i128;
    let height: i128 = sample as i128;
    if height < sea {
        if temperature < -15_000_000 {
            TileType::White
        } else if temperature > 50_000_000 {
            TileType::Desert
        } else {
            TileType::Sea
        }
    } else if height < sea + 20_000 {
        if temperature > 3_000_000 {
            TileType::Beach
        } else {
            TileType::Snow
        }
    } else if height < sea + 100_000 {
        if temperature < 3_000_000 {
            TileType::Snow
        } else if temperature > 60_000_000 {
            TileType::Sahara
        } else {
            TileType::Plains
        }
    } else if height < sea + 200_000 {
        if temperature < 3_000_000 {
            TileType::Snow
        } else if temperature > 60_000_000 {
            TileType::Sahara
        } else {
            TileType::Forest
        }
    } else if height < sea + 300_000 {
        if temperature > 70_000_000 {
            TileType::Plateau
        } else {
            TileType::Mountain
        }
    } else {
        if temperature < 70_000_000 {
            TileType::Snow
        } else {
            TileType::Plateau
        }
    }
}

/// The tile of a cell of the coarse map: its continentalness picks the band,
/// its temperature the tile in the band.
pub fn get_tile(sea_level: i64, tile_layer: TileLayer) -> (tile: TileType)
    ensures
        tile == banded_tile(
            sea_level as int,
            tile_layer.continentalness as int,
            tile_layer.temperature as int,
        ),
{
    create_tile(sea_level, tile_layer.continentalness, tile_layer.temperature)
}

/// The banded rule leaves no cell without a tile of its own: whatever the
/// sea level, the sample and the temperature, the tile is one of the ten
/// that have a texture.
pub proof fn banded_tile_is_textured(sea_level: int, sample: int, temperature: int)
    ensures
        banded_tile(sea_level, sample, temperature) != TileType::Black,
        banded_tile(sea_level, sample, temperature) != TileType::Jungle,
{
}

} // verus!
