use vstd::prelude::*;
use crate::raster::{Raster, RasterView};

verus! {

#[verifier::external_type_specification]
#[verifier::external_body]
pub struct ExImageError(image::ImageError);

/// The largest width or height that a PNG file can state.
pub const PNG_MAX_DIMENSION: u32 = 0x7fff_ffff;

/// Whether a file is a WebP image that the `image` crate decodes.
pub uninterp spec fn webp_decodes(file: Seq<u8>) -> bool;

/// The RGBA pixels that a WebP file decodes to.
pub uninterp spec fn webp_pixels(file: Seq<u8>) -> RasterView;

/// The PNG file that the `image` crate writes for a raster.
pub uninterp spec fn png_file(img: RasterView) -> Seq<u8>;

/// Relies on image::load_from_memory_with_format (WebP), whose result is
/// converted with DynamicImage::to_rgba8: the decoded pixels depend on the
/// bytes alone, whether it succeeds as much as what it gives, and an
/// `RgbaImage` holds width * height pixels.
#[verifier::external_body]
pub(crate) fn decode_webp(file: &[u8]) -> (r: Result<Raster, image::ImageError>)
    ensures
        (r is Ok) == webp_decodes(file@),
        r matches Ok(img) ==> (img.wf() && img@ == webp_pixels(file@)),
{
    let img = image::load_from_memory_with_format(file, image::ImageFormat::WebP)?.to_rgba8();
    let (width, height) = img.dimensions();
    Ok(Raster { width, height, pixels: img.pixels().map(|p| p.0).collect() })
}

/// Relies on RgbaImage::write_to with ImageFormat::Png into memory: the
/// bytes written depend on the pixels alone, and the PNG writer refuses a
/// zero width or height and nothing else within PNG's dimension limit.
#[verifier::external_body]
pub(crate) fn encode_png(img: &Raster) -> (r: Result<Vec<u8>, image::ImageError>)
    requires
        img.wf(),
    ensures
        0 < img.width <= PNG_MAX_DIMENSION && 0 < img.height <= PNG_MAX_DIMENSION ==> r is Ok,
        r matches Ok(bytes) ==> bytes@ == png_file(img@),
{
    let raw: Vec<u8> = img.pixels.iter().flatten().copied().collect();
    let buffer = image::RgbaImage::from_raw(img.width, img.height, raw).unwrap();
    let mut out = std::io::Cursor::new(Vec::new());
    buffer.write_to(&mut out, image::ImageFormat::Png)?;
    Ok(out.into_inner())
}

} // verus!
