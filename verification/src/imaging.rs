use vstd::prelude::*;

verus! {

/// The WebP file (lossless, as the `image` crate writes it) of the region at
/// `(x, y)` of size `w` by `h` of the image file `image`, cut as
/// `DynamicImage::crop` cuts (clamped to the image), or `None` where the file
/// cannot be decoded or the region cannot be written as WebP.
pub uninterp spec fn webp_region(image: Seq<u8>, x: u32, y: u32, w: u32, h: u32) -> Option<Seq<u8>>;

/// The WebP file of the whole image file `image`, or `None` where it cannot
/// be decoded or written as WebP.
pub uninterp spec fn webp_image(image: Seq<u8>) -> Option<Seq<u8>>;

/// The width, height and 8-bit gray pixels (row by row) that
/// `DynamicImage::to_luma8` gives for the image file `image`, or `None` where
/// the file cannot be decoded.
pub uninterp spec fn gray_of(image: Seq<u8>) -> Option<(u32, u32, Seq<u8>)>;

/// Decodes an image file with `image::load_from_memory`, cuts a region with
/// `DynamicImage::crop` and writes it with `write_to` as WebP. Claimed: the
/// result is the named `webp_region` of the arguments.
#[verifier::external_body]
pub(crate) fn webp_crop(image: &[u8], x: u32, y: u32, w: u32, h: u32) -> (r: Option<Vec<u8>>)
    ensures
        r is Some <==> webp_region(image@, x, y, w, h) is Some,
        r matches Some(b) ==> webp_region(image@, x, y, w, h) == Some(b@),
{
    let mut decoded = image::load_from_memory(image).ok()?;
    let mut buf: Vec<u8> = Vec::new();
    decoded.crop(x, y, w, h).write_to(&mut std::io::Cursor::new(&mut buf), image::ImageFormat::WebP).ok()?;
    Some(buf)
}

/// Decodes an image file with `image::load_from_memory` and writes it with
/// `write_to` as WebP. Claimed: the result is the named `webp_image` of the file.
#[verifier::external_body]
pub(crate) fn webp_whole(image: &[u8]) -> (r: Option<Vec<u8>>)
    ensures
        r is Some <==> webp_image(image@) is Some,
        r matches Some(b) ==> webp_image(image@) == Some(b@),
{
    let decoded = image::load_from_memory(image).ok()?;
    let mut buf: Vec<u8> = Vec::new();
    decoded.write_to(&mut std::io::Cursor::new(&mut buf), image::ImageFormat::WebP).ok()?;
    Some(buf)
}

/// Decodes an image file with `image::load_from_memory` and converts it with
/// `to_luma8`. Claimed: the width, height and pixels are the named `gray_of`
/// of the file.
#[verifier::external_body]
pub(crate) fn gray_pixels(image: &[u8]) -> (r: Option<(u32, u32, Vec<u8>)>)
    ensures
        r is Some <==> gray_of(image@) is Some,
        r matches Some(g) ==> gray_of(image@) == Some((g.0, g.1, g.2@)),
{
    let gray = image::load_from_memory(image).ok()?.to_luma8();
    let (width, height) = gray.dimensions();
    Some((width, height, gray.into_raw()))
}

} // verus!
