//! The layers of the coarse world map.

use vstd::prelude::*;
use crate::raster::RgbImage;

verus! {

/// Every attribute of one cell of the coarse map.
#[derive(Clone, Copy, Debug, PartialEq, Eq, Structural)]
pub struct TileLayer {
    pub continentalness: i64,
    pub erosion: i64,
    pub peaks_and_valleys: i64,
    pub temperature: i64,
    pub humidity: i64,
    pub altitude: i64,
    pub resources: i64,
    pub wind: i64,
}

impl Default for TileLayer {
    fn default() -> (layer: Self)
        ensures
            layer == (TileLayer {
                continentalness: 0,
                erosion: 0,
                peaks_and_valleys: 0,
                temperature: 0,
                humidity: 0,
                altitude: 0,
                resources: 0,
                wind: 0,
            }),
    {
        TileLayer {
            continentalness: 0,
            erosion: 0,
            peaks_and_valleys: 0,
            temperature: 0,
            humidity: 0,
            altitude: 0,
            resources: 0,
            wind: 0,
        }
    }
}

/// One raster for each layer of a region of the coarse map.
pub struct MesoLayerImages {
    pub aggregate: RgbImage,
    pub continentalness: RgbImage,
    pub wind: RgbImage,
    pub erosion: RgbImage,
    pub peaks_and_valleys: RgbImage,
    pub temperature: RgbImage,
    pub humidity: RgbImage,
    pub altitude: RgbImage,
    pub resources: RgbImage,
}

/// The layer that is on display.
#[derive(Clone, Copy, Debug, PartialEq, Eq, Structural)]
pub enum Layer {
    Default,
    Temperature,
}

/// The layer that is on display, by name.
#[derive(Clone, Debug)]
pub struct CurrentLayer {
    pub layer: String,
}

impl CurrentLayer {
    /// The layer that the name stands for: `"default"` for the classified
    /// terrain, any other name for the temperature.
    pub open spec fn shown(&self) -> Layer {
        if self.layer@ == "default"@ {
            Layer::Default
        } else {
            Layer::Temperature
        }
    }

    /// The name of a layer.
    pub open spec fn name_of(layer: Layer) -> Seq<char> {
        match layer {
            Layer::Default => "default"@,
            Layer::Temperature => "temperature"@,
        }
    }

    /// The layer that follows `layer` when the display is switched.
    pub open spec fn other(layer: Layer) -> Layer {
        match layer {
            Layer::Default => Layer::Temperature,
            Layer::Temperature => Layer::Default,
        }
    }

    /// Switches the display between the classified terrain and the
    /// temperature, and returns the layer that is shown from now on.
    pub fn switch_layer(&mut self) -> (now_shown: Layer)
        ensures
            now_shown == Self::other(old(self).shown()),
            final(self).layer@ == Self::name_of(now_shown),
            final(self).shown() == now_shown,
    {
        proof {
            reveal_strlit("default");
            reveal_strlit("temperature");
        }
        let default_name: String = "default".to_owned();
        let on_default = self.layer == default_name;
        if on_default {
            self.layer = "temperature".to_owned();
            assert("temperature"@.len() != "default"@.len());
            Layer::Temperature
        } else {
            self.layer = "default".to_owned();
            Layer::Default
        }
    }
}

} // verus!
