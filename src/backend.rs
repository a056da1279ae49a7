//! The calls into usvg, tiny-skia, resvg and image, each behind a contract.
use vstd::prelude::*;
use image::ImageEncoder;
use crate::color::Rgb;
use crate::dimensions::IntrinsicSize;

verus! {

#[verifier::external_type_specification]
#[verifier::external_body]
pub struct ExTree(usvg::Tree);

#[verifier::external_type_specification]
#[verifier::external_body]
pub struct ExSvgError(usvg::Error);

#[verifier::external_type_specification]
#[verifier::external_body]
pub struct ExPixmap(tiny_skia::Pixmap);

#[verifier::external_type_specification]
#[verifier::external_body]
pub struct ExImageError(image::ImageError);

/// The premultiplied RGBA bytes a pixmap holds, row by row.
pub uninterp spec fn pixmap_bytes(p: tiny_skia::Pixmap) -> Seq<u8>;

/// The (width, height) a pixmap was allocated with.
pub uninterp spec fn pixmap_size(p: tiny_skia::Pixmap) -> (u32, u32);

/// The PNG stream image's encoder writes for an RGBA8 buffer.
pub uninterp spec fn png_encoding(rgba: Seq<u8>, width: u32, height: u32) -> Seq<u8>;

/// The JPEG stream image's encoder writes for an RGB8 buffer at a quality.
pub uninterp spec fn jpeg_encoding(rgb: Seq<u8>, width: u32, height: u32, quality: u8) -> Seq<u8>;

/// The GIF stream image writes for an RGBA8 image.
pub uninterp spec fn gif_encoding(rgba: Seq<u8>, width: u32, height: u32) -> Seq<u8>;

/// The WebP stream image writes for an RGBA8 image.
pub uninterp spec fn webp_encoding(rgba: Seq<u8>, width: u32, height: u32) -> Seq<u8>;

/// Whether tiny-skia can allocate a pixmap of this size: both sides nonzero
/// and a row of four bytes per pixel within `i32`.
pub open spec fn pixmap_allocatable(width: u32, height: u32) -> bool {
    width > 0 && height > 0 && 4 * (width as int) <= i32::MAX
}

/// `count` pixels of the opaque color `c`, as RGBA bytes.
pub open spec fn opaque_fill(c: Rgb, count: nat) -> Seq<u8> {
    Seq::new(4 * count, |i: int| if i % 4 == 0 { c.0 } else if i % 4 == 1 { c.1 } else if i % 4 == 2 { c.2 } else { 255u8 })
}

/// Whether usvg, with default options, parses this SVG text.
pub uninterp spec fn svg_parses(text: Seq<char>) -> bool;

/// The intrinsic size usvg reports for this SVG text.
pub uninterp spec fn svg_size(text: Seq<char>) -> IntrinsicSize;

/// Relies on `usvg::Tree::from_str` with default options to parse SVG text,
/// and on `Tree::size`: a tiny-skia `Size`, whose two lengths are finite and
/// greater than zero; they are handed over as their bit patterns.
#[verifier::external_body]
pub(crate) fn parse_svg(text: &str) -> (r: Result<(usvg::Tree, IntrinsicSize), usvg::Error>)
    ensures
        r is Ok <==> svg_parses(text@),
        r matches Ok((_, s)) ==> s == svg_size(text@) && s.wf(),
{
    let tree = usvg::Tree::from_str(text, &usvg::Options::default())?;
    let size = tree.size();
    Ok((tree, IntrinsicSize { width_bits: size.width().to_bits(), height_bits: size.height().to_bits() }))
}

/// Relies on `usvg::Error`'s `Display` for the parser's message.
#[verifier::external_body]
pub(crate) fn svg_error_message(e: &usvg::Error) -> (r: String) {
    e.to_string()
}

/// Relies on `tiny_skia::Pixmap::new`: `None` unless both sides are nonzero
/// and `4 * width` fits an `i32`; otherwise a zeroed buffer of
/// `4 * width * height` bytes.
#[verifier::external_body]
pub(crate) fn new_pixmap(width: u32, height: u32) -> (r: Option<tiny_skia::Pixmap>)
    ensures
        r is Some <==> pixmap_allocatable(width, height),
        r matches Some(p) ==> pixmap_size(p) == (width, height) && pixmap_bytes(p) == Seq::new(
            4 * (width as nat) * (height as nat),
            |i: int| 0u8,
        ),
{
    tiny_skia::Pixmap::new(width, height)
}

/// Relies on `tiny_skia::Pixmap::fill` with an opaque color: every pixel
/// becomes that color, unchanged by premultiplication at full alpha.
#[verifier::external_body]
pub(crate) fn fill_opaque(p: &mut tiny_skia::Pixmap, c: Rgb)
    ensures
        pixmap_size(*final(p)) == pixmap_size(*old(p)),
        pixmap_bytes(*final(p)) == opaque_fill(c, pixmap_bytes(*old(p)).len() / 4),
{
    p.fill(tiny_skia::Color::from_rgba8(c.0, c.1, c.2, 255))
}

/// Relies on `resvg::render`, which draws the tree over the pixmap's
/// contents, clipped to it. The transform maps the document's intrinsic size
/// onto the pixmap's size: the ratios of the two sides, in the float form
/// resvg takes (a pixmap's sides are never zero). resvg works within a box five times the pixmap's size,
/// whose sides must fit an `i32`.
#[verifier::external_body]
pub(crate) fn render_scaled(tree: &usvg::Tree, p: &mut tiny_skia::Pixmap)
    requires
        5 * (pixmap_size(*old(p)).0 as int) <= i32::MAX,
        5 * (pixmap_size(*old(p)).1 as int) <= i32::MAX,
    ensures
        pixmap_size(*final(p)) == pixmap_size(*old(p)),
        pixmap_bytes(*final(p)).len() == pixmap_bytes(*old(p)).len(),
{
    let size = tree.size();
    let Some(target) = tiny_skia::IntSize::from_wh(p.width(), p.height()) else { return };
    let target = target.to_size();
    let scale = tiny_skia::Transform::from_scale(
        target.width() / size.width(),
        target.height() / size.height(),
    );
    resvg::render(tree, scale, &mut p.as_mut())
}

/// Relies on `tiny_skia::Pixmap::take`, which hands over the pixel buffer.
#[verifier::external_body]
pub(crate) fn pixmap_into_bytes(p: tiny_skia::Pixmap) -> (r: Vec<u8>)
    ensures
        r@ == pixmap_bytes(p),
{
    p.take()
}

/// Relies on `image::ImageError`'s `Display` for the codec's message.
#[verifier::external_body]
pub(crate) fn image_error_message(e: &image::ImageError) -> (r: String) {
    e.to_string()
}

/// Relies on image's `PngEncoder::write_image` with RGBA8 pixels; it panics
/// unless the buffer holds exactly `4 * width * height` bytes, and the png
/// encoder refuses only a zero width or height.
#[verifier::external_body]
pub(crate) fn write_png(rgba: &[u8], width: u32, height: u32) -> (r: Result<Vec<u8>, image::ImageError>)
    requires
        rgba@.len() == 4 * (width as int) * (height as int),
    ensures
        r matches Ok(v) ==> v@ == png_encoding(rgba@, width, height),
        width >= 1 && height >= 1 ==> r is Ok,
{
    let mut out = Vec::new();
    image::codecs::png::PngEncoder::new(std::io::Cursor::new(&mut out))
        .write_image(rgba, width, height, image::ExtendedColorType::Rgba8)
        .map(|_| out)
}

/// Relies on image's `JpegEncoder::new_with_quality` and `write_image` with
/// RGB8 pixels; it panics unless the buffer holds exactly
/// `3 * width * height` bytes, and it refuses only sides outside 1..=65535.
#[verifier::external_body]
pub(crate) fn write_jpeg(rgb: &[u8], width: u32, height: u32, quality: u8) -> (r: Result<Vec<u8>, image::ImageError>)
    requires
        rgb@.len() == 3 * (width as int) * (height as int),
    ensures
        r matches Ok(v) ==> v@ == jpeg_encoding(rgb@, width, height, quality),
        1 <= width <= 65535 && 1 <= height <= 65535 ==> r is Ok,
{
    let mut out = Vec::new();
    image::codecs::jpeg::JpegEncoder::new_with_quality(std::io::Cursor::new(&mut out), quality)
        .write_image(rgb, width, height, image::ExtendedColorType::Rgb8)
        .map(|_| out)
}

/// Relies on image's `ImageBuffer::from_raw`, which takes the buffer as an
/// RGBA8 image, and `DynamicImage::write_to` with `ImageFormat::Gif`, which
/// refuses sides that do not fit a `u16`.
#[verifier::external_body]
pub(crate) fn write_gif(rgba: Vec<u8>, width: u32, height: u32) -> (r: Result<Vec<u8>, image::ImageError>)
    requires
        rgba@.len() == 4 * (width as int) * (height as int),
    ensures
        r matches Ok(v) ==> v@ == gif_encoding(rgba@, width, height),
        1 <= width <= 65535 && 1 <= height <= 65535 ==> r is Ok,
{
    let mut out = Vec::new();
    let img = image::RgbaImage::from_raw(width, height, rgba).ok_or(image::ImageError::Parameter(
        image::error::ParameterError::from_kind(image::error::ParameterErrorKind::DimensionMismatch),
    ))?;
    image::DynamicImage::ImageRgba8(img).write_to(std::io::Cursor::new(&mut out), image::ImageFormat::Gif).map(|_| out)
}

/// Relies on image's `ImageBuffer::from_raw`, which takes the buffer as an
/// RGBA8 image, and `DynamicImage::write_to` with `ImageFormat::WebP`, whose
/// encoder refuses sides outside 1..=16384.
#[verifier::external_body]
pub(crate) fn write_webp(rgba: Vec<u8>, width: u32, height: u32) -> (r: Result<Vec<u8>, image::ImageError>)
    requires
        rgba@.len() == 4 * (width as int) * (height as int),
    ensures
        r matches Ok(v) ==> v@ == webp_encoding(rgba@, width, height),
        1 <= width <= 16384 && 1 <= height <= 16384 ==> r is Ok,
{
    let mut out = Vec::new();
    let img = image::RgbaImage::from_raw(width, height, rgba).ok_or(image::ImageError::Parameter(
        image::error::ParameterError::from_kind(image::error::ParameterErrorKind::DimensionMismatch),
    ))?;
    image::DynamicImage::ImageRgba8(img).write_to(std::io::Cursor::new(&mut out), image::ImageFormat::WebP).map(|_| out)
}

} // verus!
