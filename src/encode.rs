use vstd::prelude::*;
use crate::backend::{
    gif_encoding, image_error_message, jpeg_encoding, png_encoding, webp_encoding, write_gif,
    write_jpeg, write_png, write_webp,
};
use crate::error::ConvertError;
use crate::format::OutputFormat;
use vstd::slice::slice_to_vec;

verus! {

/// Quality of JPEG output on a 0 to 100 scale.
pub const JPEG_QUALITY: u8 = 90;

/// `data` with every fourth byte (the alpha of each RGBA pixel) removed.
pub open spec fn alpha_stripped(data: Seq<u8>) -> Seq<u8> {
    Seq::new((data.len() - data.len() / 4) as nat, |j: int| data[j + j / 3])
}

/// The bytes a format's encoder writes for an RGBA8 buffer of this size.
pub open spec fn encoding_of(format: OutputFormat, rgba: Seq<u8>, width: u32, height: u32) -> Seq<u8> {
    match format {
        OutputFormat::Png => png_encoding(rgba, width, height),
        OutputFormat::Jpeg => jpeg_encoding(alpha_stripped(rgba), width, height, JPEG_QUALITY),
        OutputFormat::Gif => gif_encoding(rgba, width, height),
        OutputFormat::WebP => webp_encoding(rgba, width, height),
    }
}

/// Drops the alpha byte of every RGBA pixel, keeping R, G, B in order.
pub fn rgba_to_rgb(rgba_data: &[u8]) -> (r: Vec<u8>)
    ensures
        r@ == alpha_stripped(rgba_data@),
{
    let n = rgba_data.len();
    let mut rgb_data: Vec<u8> = Vec::new();
    let mut i: usize = 0;
    while i < n
        invariant
            n == rgba_data@.len(),
            i <= n,
            rgb_data@.len() == i - i / 4,
            forall|j: int| 0 <= j < rgb_data@.len() ==> #[trigger] rgb_data@[j] == rgba_data@[j + j / 3],
        decreases n - i,
    {
        if i % 4 != 3 {
            proof {
                let j = i - i / 4;
                assert(j + j / 3 == i) by (nonlinear_arith)
                    requires j == i - i / 4, i % 4 != 3;
            }
            rgb_data.push(rgba_data[i]);
        }
        proof {
            assert((i + 1) - (i + 1) / 4 == if i % 4 == 3 { i - i / 4 } else { i - i / 4 + 1 }) by (nonlinear_arith);
        }
        i = i + 1;
    }
    assert(rgb_data@ == alpha_stripped(rgba_data@));
    rgb_data
}

/// The alpha bytes of an RGBA buffer have no effect on its JPEG encoding.
pub proof fn lemma_jpeg_ignores_alpha(a: Seq<u8>, b: Seq<u8>, width: u32, height: u32)
    requires
        a.len() == b.len(),
        forall|i: int| 0 <= i < a.len() && i % 4 != 3 ==> a[i] == b[i],
    ensures
        encoding_of(OutputFormat::Jpeg, a, width, height) == encoding_of(OutputFormat::Jpeg, b, width, height),
{
    assert forall|j: int| 0 <= j < alpha_stripped(a).len() implies alpha_stripped(a)[j] == alpha_stripped(b)[j] by {
        assert((j + j / 3) % 4 != 3);
    }
    assert(alpha_stripped(a) == alpha_stripped(b));
}

/// Whether a format's codec accepts an image of this size.
pub open spec fn codec_accepts(format: OutputFormat, width: u32, height: u32) -> bool {
    match format {
        OutputFormat::Png => width >= 1 && height >= 1,
        OutputFormat::Jpeg | OutputFormat::Gif => 1 <= width <= 65535 && 1 <= height <= 65535,
        OutputFormat::WebP => 1 <= width <= 16384 && 1 <= height <= 16384,
    }
}

/// Whether a buffer of `len` bytes has the shape a format's encoder needs:
/// `4 * width * height` RGBA bytes, or for JPEG that many RGB bytes once the
/// alpha bytes are dropped.
pub open spec fn buffer_fits(format: OutputFormat, len: nat, width: u32, height: u32) -> bool {
    match format {
        OutputFormat::Jpeg => len - len / 4 == 3 * (width as int) * (height as int),
        _ => len == 4 * (width as int) * (height as int),
    }
}

/// An RGBA buffer of `width * height` pixels fits every format.
pub proof fn lemma_rgba_buffer_fits(format: OutputFormat, width: u32, height: u32)
    ensures
        buffer_fits(format, (4 * (width as int) * (height as int)) as nat, width, height),
{
    let n = 4 * (width as int) * (height as int);
    assert(n >= 0) by (nonlinear_arith)
        requires n == 4 * (width as int) * (height as int), width >= 0, height >= 0;
    assert(n / 4 == (width as int) * (height as int)) by (nonlinear_arith)
        requires n == 4 * (width as int) * (height as int), width >= 0, height >= 0;
    assert(n - n / 4 == 3 * (width as int) * (height as int)) by (nonlinear_arith)
        requires n == 4 * (width as int) * (height as int), n / 4 == (width as int) * (height as int);
}

/// `width * height` as a `u128`, which cannot overflow.
fn area(width: u32, height: u32) -> (r: u128)
    ensures
        r == (width as int) * (height as int),
        r <= 0xFFFF_FFFE_0000_0001,
{
    assert((width as int) * (height as int) <= 0xFFFF_FFFE_0000_0001) by (nonlinear_arith)
        requires 0 <= width <= 0xFFFF_FFFF, 0 <= height <= 0xFFFF_FFFF;
    width as u128 * height as u128
}

/// Encodes an RGBA8 buffer of `width * height` pixels. PNG, GIF and WebP take
/// the four channels, and a buffer of another length is a `BufferShape`
/// error. JPEG takes R, G, B at quality 90, and an RGB buffer of another
/// length than `3 * width * height` is an `Encoding` error. Within the
/// codec's size limits a buffer of the right shape is always encoded.
pub fn encode_image(data: &[u8], width: u32, height: u32, format: OutputFormat) -> (r: Result<Vec<u8>, ConvertError>)
    ensures
        format != OutputFormat::Jpeg ==> (!buffer_fits(format, data@.len(), width, height) <==> r
            == Err::<Vec<u8>, ConvertError>(ConvertError::BufferShape(data@.len() as usize))),
        format == OutputFormat::Jpeg && !buffer_fits(format, data@.len(), width, height) ==> (r matches Err(
            ConvertError::Encoding(f, _),
        ) && f == OutputFormat::Jpeg),
        r matches Err(ConvertError::BufferShape(_)) ==> format != OutputFormat::Jpeg && !buffer_fits(
            format,
            data@.len(),
            width,
            height,
        ),
        buffer_fits(format, data@.len(), width, height) && codec_accepts(format, width, height) ==> r is Ok,
        r matches Ok(v) ==> v@ == encoding_of(format, data@, width, height),
        r matches Err(e) ==> (e is BufferShape || (e matches ConvertError::Encoding(f, _) && f == format)),
{
    let len: u128 = data.len() as u128;
    let pixels: u128 = area(width, height);
    assert(4 * pixels == 4 * (width as int) * (height as int) && 3 * pixels == 3 * (width as int) * (
        height as int)) by (nonlinear_arith)
        requires pixels == (width as int) * (height as int);
    let encoded = match format {
        OutputFormat::Jpeg => {
            let rgb = rgba_to_rgb(data);
            if rgb.len() as u128 != 3 * pixels {
                return Err(ConvertError::Encoding(
                    OutputFormat::Jpeg,
                    String::from_str("RGB buffer does not match the image size"),
                ));
            }
            write_jpeg(rgb.as_slice(), width, height, JPEG_QUALITY)
        },
        _ => {
            if len != 4 * pixels {
                return Err(ConvertError::BufferShape(data.len()));
            }
            match format {
                OutputFormat::Png => write_png(data, width, height),
                OutputFormat::Gif => write_gif(slice_to_vec(data), width, height),
                _ => write_webp(slice_to_vec(data), width, height),
            }
        },
    };
    match encoded {
        Ok(bytes) => Ok(bytes),
        Err(e) => Err(ConvertError::Encoding(format, image_error_message(&e))),
    }
}

/// The straight value of a channel premultiplied by alpha `a`: `c * 255 / a`
/// rounded to nearest and capped at 255; zero where `a` is zero.
pub open spec fn straight_channel(c: u8, a: u8) -> u8 {
    if a == 0 {
        0
    } else {
        let v = ((c as int) * 255 + (a as int) / 2) / (a as int);
        if v > 255 { 255 } else { v as u8 }
    }
}

/// Premultiplied RGBA bytes turned to straight alpha, pixel by pixel. Alpha
/// bytes, and the bytes of an incomplete last pixel, are kept.
pub open spec fn straight_alpha(data: Seq<u8>) -> Seq<u8> {
    Seq::new(
        data.len(),
        |i: int|
            if i % 4 == 3 || i - i % 4 + 3 >= data.len() {
                data[i]
            } else {
                straight_channel(data[i], data[i - i % 4 + 3])
            },
    )
}

fn straight_value(c: u8, a: u8) -> (r: u8)
    ensures
        r == straight_channel(c, a),
{
    if a == 0 {
        return 0;
    }
    let v: u32 = (c as u32 * 255 + a as u32 / 2) / a as u32;
    if v > 255 { 255 } else { v as u8 }
}

/// Converts premultiplied RGBA bytes to straight alpha.
pub fn demultiply(data: &[u8]) -> (r: Vec<u8>)
    ensures
        r@ == straight_alpha(data@),
{
    let n = data.len();
    let mut out: Vec<u8> = Vec::new();
    let mut i: usize = 0;
    while i < n
        invariant
            n == data@.len(),
            i <= n,
            out@ == straight_alpha(data@).take(i as int),
        decreases n - i,
    {
        let k = i % 4;
        let b = if k == 3 || n - (i - k) <= 3 {
            data[i]
        } else {
            straight_value(data[i], data[i - k + 3])
        };
        out.push(b);
        i = i + 1;
        assert(out@ == straight_alpha(data@).take(i as int));
    }
    assert(straight_alpha(data@).take(n as int) == straight_alpha(data@));
    out
}

} // verus!
