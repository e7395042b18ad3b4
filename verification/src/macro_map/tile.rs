//! The tile palette of the bulk map.

use vstd::prelude::*;
use crate::raster::Rgb;

verus! {

/// A terrain category of the bulk map.
#[derive(Copy, Clone, Debug, PartialEq, Eq, Structural)]
pub enum Tile {
    Sea,
    Ice,
    Snow,
    Jungle,
    Mountain,
    Forest,
    Plains,
    Desert,
    Plateau,
    Sahara,
    Beach,
    Blank,
}

impl Default for Tile {
    fn default() -> (tile: Tile)
        ensures
            tile == Tile::Sea,
    {
        Tile::Sea
    }
}

impl Tile {
    /// The position of the tile's texture in the tile atlas. Tiles without a
    /// texture of their own share the first slot.
    pub open spec fn atlas_index(self) -> u8 {
        match self {
            Tile::Sea => 0,
            Tile::Plains => 1,
            Tile::Ice => 2,
            Tile::Snow => 3,
            Tile::Forest => 4,
            Tile::Desert => 5,
            Tile::Sahara => 6,
            Tile::Mountain => 7,
            Tile::Plateau => 8,
            Tile::Beach => 9,
            Tile::Jungle => 0,
            Tile::Blank => 0,
        }
    }

    /// The tile's colour as `[red, green, blue]`. Tiles without a colour of
    /// their own are black.
    pub open spec fn palette(self) -> Seq<u8> {
        match self {
            Tile::Sea => seq![0u8, 191u8, 255u8],
            Tile::Plains => seq![50u8, 205u8, 50u8],
            Tile::Ice => seq![255u8, 255u8, 255u8],
            Tile::Snow => seq![211u8, 211u8, 211u8],
            Tile::Forest => seq![0u8, 100u8, 0u8],
            Tile::Desert => seq![255u8, 215u8, 0u8],
            Tile::Sahara => seq![255u8, 165u8, 0u8],
            Tile::Mountain => seq![105u8, 105u8, 105u8],
            Tile::Plateau => seq![139u8, 69u8, 19u8],
            Tile::Beach => seq![222u8, 184u8, 135u8],
            Tile::Jungle => seq![0u8, 0u8, 0u8],
            Tile::Blank => seq![0u8, 0u8, 0u8],
        }
    }

    /// The position of the tile's texture in the tile atlas.
    pub fn index(&self) -> (i: u8)
        ensures
            i == self.atlas_index(),
    {
        match *self {
            Tile::Sea => 0,
            Tile::Plains => 1,
            Tile::Ice => 2,
            Tile::Snow => 3,
            Tile::Forest => 4,
            Tile::Desert => 5,
            Tile::Sahara => 6,
            Tile::Mountain => 7,
            Tile::Plateau => 8,
            Tile::Beach => 9,
            _ => 0,
        }
    }

    /// The tile's colour with an opaque alpha channel.
    pub fn u8colour(&self) -> (colour: [u8; 4])
        ensures
            colour@ == self.palette().push(255u8),
    {
        match *self {
            Tile::Sea => [0, 191, 255, 255],
            Tile::Plains => [50, 205, 50, 255],
            Tile::Ice => [255, 255, 255, 255],
            Tile::Snow => [211, 211, 211, 255],
            Tile::Forest => [0, 100, 0, 255],
            Tile::Desert => [255, 215, 0, 255],
            Tile::Sahara => [255, 165, 0, 255],
            Tile::Mountain => [105, 105, 105, 255],
            Tile::Plateau => [139, 69, 19, 255],
            Tile::Beach => [222, 184, 135, 255],
            _ => [0, 0, 0, 255],
        }
    }

    /// The tile's colour as a pixel.
    pub fn rbg_colour(&self) -> (colour: Rgb)
        ensures
            colour.channels() == self.palette(),
    {
        match *self {
            Tile::Sea => Rgb([0, 191, 255]),
            Tile::Plains => Rgb([50, 205, 50]),
            Tile::Ice => Rgb([255, 255, 255]),
            Tile::Snow => Rgb([211, 211, 211]),
            Tile::Forest => Rgb([0, 100, 0]),
            Tile::Desert => Rgb([255, 215, 0]),
            Tile::Sahara => Rgb([255, 165, 0]),
            Tile::Mountain => Rgb([105, 105, 105]),
            Tile::Plateau => Rgb([139, 69, 19]),
            Tile::Beach => Rgb([222, 184, 135]),
            _ => Rgb([0, 0, 0]),
        }
    }
}

} // verus!
