//! Colours and the fixed palette of the map.

use vstd::prelude::*;

verus! {

/// One pixel: red, green and blue, eight bits each.
#[derive(Clone, Copy, Debug, PartialEq, Eq, Structural)]
pub struct Rgb {
    pub r: u8,
    pub g: u8,
    pub b: u8,
}

/// Colour of the frame that marks the tile a map is centred on.
pub open spec fn spec_accent() -> Rgb {
    Rgb { r: 28, g: 119, b: 114 }
}

/// Colour of the motif on a tile that nobody occupies.
pub open spec fn spec_neutral() -> Rgb {
    Rgb { r: 28, g: 119, b: 68 }
}

/// Colour of the motif on a tile that the viewer's faction occupies.
pub open spec fn spec_friendly() -> Rgb {
    Rgb { r: 102, g: 178, b: 255 }
}

/// Colour of the motif on a tile that another faction occupies.
pub open spec fn spec_hostile() -> Rgb {
    Rgb { r: 28, g: 172, b: 255 }
}

/// Colour of every pixel of a freshly allocated raster.
pub open spec fn spec_black() -> Rgb {
    Rgb { r: 0, g: 0, b: 0 }
}

#[verifier::when_used_as_spec(spec_accent)]
pub fn accent() -> (c: Rgb)
    ensures
        c == spec_accent(),
{
    Rgb { r: 28, g: 119, b: 114 }
}

#[verifier::when_used_as_spec(spec_neutral)]
pub fn neutral() -> (c: Rgb)
    ensures
        c == spec_neutral(),
{
    Rgb { r: 28, g: 119, b: 68 }
}

#[verifier::when_used_as_spec(spec_friendly)]
pub fn friendly() -> (c: Rgb)
    ensures
        c == spec_friendly(),
{
    Rgb { r: 102, g: 178, b: 255 }
}

#[verifier::when_used_as_spec(spec_hostile)]
pub fn hostile() -> (c: Rgb)
    ensures
        c == spec_hostile(),
{
    Rgb { r: 28, g: 172, b: 255 }
}

#[verifier::when_used_as_spec(spec_black)]
pub fn black() -> (c: Rgb)
    ensures
        c == spec_black(),
{
    Rgb { r: 0, g: 0, b: 0 }
}

/// True of the two colours that only an occupied tile is drawn with.
pub open spec fn is_occupancy_color(c: Rgb) -> bool {
    c == friendly() || c == hostile()
}

/// Whether the colour is one that only an occupied tile is drawn with.
pub fn occupancy_colored(c: Rgb) -> (yes: bool)
    ensures
        yes == is_occupancy_color(c),
{
    c == friendly() || c == hostile()
}

} // verus!
