//! Writing a finished map as a PNG stream.

use vstd::prelude::*;
use crate::error::RenderError;
use crate::raster::Raster;

verus! {

/// The PNG stream that the encoder of the `image` crate writes for an RGB
/// image of the given size and samples, or `None` where it fails.
pub uninterp spec fn png_encoding(width: u32, height: u32, samples: Seq<u8>) -> Option<Seq<u8>>;

/// Calls `ImageBuffer::write_to` with `ImageOutputFormat::Png` on the samples,
/// taken as an RGB image of the given size, and hands back the bytes written.
/// The contract names the outcome: the bytes depend on the size and the
/// samples alone.
#[verifier::external_body]
fn write_png(width: u32, height: u32, data: &Vec<u8>) -> (out: Result<Vec<u8>, image::ImageError>)
    requires
        data@.len() == 3 * width * height,
    ensures
        out matches Ok(bytes) ==> png_encoding(width, height, data@) == Some(bytes@),
        out is Err ==> png_encoding(width, height, data@) is None,
{
    let img: image::ImageBuffer<image::Rgb<u8>, &[u8]> = image::ImageBuffer::from_raw(
        width,
        height,
        data.as_slice(),
    ).unwrap();
    let mut cursor = std::io::Cursor::new(Vec::new());
    img.write_to(&mut cursor, image::ImageOutputFormat::Png)?;
    Ok(cursor.into_inner())
}

/// What the encoder's answer means for the caller: the bytes, or the
/// encoder's error as an error of rendering.
pub fn encoded(answer: Result<Vec<u8>, image::ImageError>) -> (out: Result<Vec<u8>, RenderError>)
    ensures
        match (answer, out) {
            (Ok(written), Ok(bytes)) => bytes == written,
            (Err(cause), Err(RenderError::Encoding(e))) => e == cause,
            _ => false,
        },
{
    match answer {
        Ok(bytes) => Ok(bytes),
        Err(cause) => Err(RenderError::Encoding(cause)),
    }
}

/// Writes the raster as a PNG stream. It fails where the encoder fails, and
/// only then.
pub fn encode(canvas: &Raster) -> (out: Result<Vec<u8>, RenderError>)
    ensures
        match out {
            Ok(bytes) => png_encoding(canvas.width(), canvas.height(), canvas.samples()) == Some(bytes@),
            Err(e) => e is Encoding && png_encoding(canvas.width(), canvas.height(), canvas.samples()) is None,
        },
{
    let data = canvas.as_raw();
    encoded(write_png(canvas.width(), canvas.height(), data))
}

} // verus!
