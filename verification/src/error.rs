//! What can go wrong while a map is made.

use vstd::prelude::*;

verus! {

/// `image::ImageError`, the error of the encoder. Nothing of its inside is
/// known here.
#[verifier::external_type_specification]
#[verifier::external_body]
pub struct ExImageError(image::ImageError);

/// Why a map could not be made. No picture is handed out in any of these
/// cases.
#[derive(Debug)]
pub enum RenderError {
    /// The picture of the tile at these coordinates was not among the
    /// finished ones when the map was put together.
    MissingTile { x: i32, y: i32 },
    /// The encoder could not write the map.
    Encoding(image::ImageError),
}

} // verus!
