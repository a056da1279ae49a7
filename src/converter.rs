use vstd::prelude::*;
use crate::backend::{
    fill_opaque, new_pixmap, parse_svg, pixmap_into_bytes, render_scaled, svg_error_message,
    pixmap_bytes, svg_parses, svg_size,
};
use crate::color::{hex_color, parse_hex_color, Rgb};
use crate::dimensions::{resolve_dimensions, resolved_dimensions, IntrinsicSize};
use crate::encode::{
    codec_accepts, demultiply, encode_image, encoding_of, lemma_rgba_buffer_fits, straight_alpha,
};
use crate::error::ConvertError;
use crate::format::{format_named, parse_format, OutputFormat};
use crate::text::{apply_replacements, apply_substitutions, substitutions_view};

verus! {

/// The pixel surface a conversion renders into, and the opaque color it is
/// filled with first, if any.
#[derive(Clone, Copy, Debug, PartialEq, Eq)]
pub struct SurfacePlan {
    pub width: u32,
    pub height: u32,
    pub background: Option<Rgb>,
}

/// Whether a surface of this size can be allocated and rendered into: both
/// sides nonzero, and five times each side within `i32` (the renderer works in
/// a box five times the surface, which also bounds a row of RGBA bytes).
pub open spec fn surface_fits(width: u32, height: u32) -> bool {
    width > 0 && height > 0 && 5 * (width as int) <= i32::MAX && 5 * (height as int) <= i32::MAX
}

/// The background color text in force: the caller's, or white.
pub open spec fn background_text(background_color: Option<String>) -> Seq<char> {
    match background_color {
        Some(s) => s@,
        None => seq!['F', 'F', 'F', 'F', 'F', 'F'],
    }
}

/// The surface for a conversion, or `None` when the resolved size does not
/// fit or the background color is invalid. Only a non-PNG target gets an
/// opaque background.
pub open spec fn planned_surface(
    width: Option<u32>,
    height: Option<u32>,
    background: Seq<char>,
    size: IntrinsicSize,
    format: OutputFormat,
) -> Option<SurfacePlan> {
    let (w, h) = resolved_dimensions(width, height, size);
    if !surface_fits(w, h) {
        None
    } else if format.keeps_transparency() {
        Some(SurfacePlan { width: w, height: h, background: None })
    } else {
        match hex_color(background) {
            Some(c) => Some(SurfacePlan { width: w, height: h, background: Some(c) }),
            None => None,
        }
    }
}

/// A target that cannot hold transparency, converted without a background
/// color, is rendered over opaque white: no transparency reaches it.
pub proof fn lemma_lossy_target_gets_white_background(
    width: Option<u32>,
    height: Option<u32>,
    size: IntrinsicSize,
    format: OutputFormat,
)
    requires
        size.wf(),
        !format.keeps_transparency(),
        surface_fits(resolved_dimensions(width, height, size).0, resolved_dimensions(width, height, size).1),
    ensures
        planned_surface(width, height, background_text(None), size, format) == Some(
            SurfacePlan {
                width: resolved_dimensions(width, height, size).0,
                height: resolved_dimensions(width, height, size).1,
                background: Some((255u8, 255u8, 255u8)),
            },
        ),
{
}

/// A PNG target keeps its transparency: the surface starts fully transparent.
pub proof fn lemma_png_target_gets_no_background(
    width: Option<u32>,
    height: Option<u32>,
    background: Seq<char>,
    size: IntrinsicSize,
)
    requires
        size.wf(),
        surface_fits(resolved_dimensions(width, height, size).0, resolved_dimensions(width, height, size).1),
    ensures
        planned_surface(width, height, background, size, OutputFormat::Png) matches Some(p)
            && p.background is None,
{
}

/// Resolves the output size and the background policy for a document of
/// intrinsic size `size`. A size that does not fit is a `SurfaceAllocation`
/// error; for a non-PNG target an invalid background color is an
/// `InvalidColor` error.
pub fn plan_surface(
    width: Option<u32>,
    height: Option<u32>,
    background_color: &Option<String>,
    size: IntrinsicSize,
    format: OutputFormat,
) -> (r: Result<SurfacePlan, ConvertError>)
    requires
        size.wf(),
    ensures
        ({
            let (w, h) = resolved_dimensions(width, height, size);
            let bg = background_text(*background_color);
            match planned_surface(width, height, bg, size, format) {
                Some(p) => r == Ok::<SurfacePlan, ConvertError>(p),
                None => if !surface_fits(w, h) {
                    r == Err::<SurfacePlan, ConvertError>(ConvertError::SurfaceAllocation(w, h))
                } else {
                    r matches Err(ConvertError::InvalidColor(v)) && v@ == bg
                },
            }
        }),
{
    let (w, h) = resolve_dimensions(width, height, size);
    if w == 0 || h == 0 || w > 429_496_729 || h > 429_496_729 {
        return Err(ConvertError::SurfaceAllocation(w, h));
    }
    match format {
        OutputFormat::Png => Ok(SurfacePlan { width: w, height: h, background: None }),
        _ => {
            let parsed = match background_color {
                Some(s) => parse_hex_color(s.as_str()),
                None => {
                    proof {
                        reveal_strlit("FFFFFF");
                    }
                    parse_hex_color("FFFFFF")
                },
            };
            match parsed {
                Ok(c) => Ok(SurfacePlan { width: w, height: h, background: Some(c) }),
                Err(e) => Err(e),
            }
        },
    }
}

/// The SVG text a conversion parses: the source after the substitutions.
pub open spec fn substituted_text(svg_data: String, replacements: Seq<(String, String)>) -> Seq<char> {
    apply_substitutions(svg_data@, substitutions_view(replacements))
}

/// Converts SVG text to an encoded raster image. The format name is checked
/// first, case-insensitively; then the substitutions are applied in order, the
/// text is parsed, the surface planned, filled, rendered, turned to straight
/// alpha and encoded. The first failure is returned: an unsupported format,
/// text that does not parse, a size that does not fit, an invalid background
/// color for a format without transparency, or the codec's refusal. Within
/// the codec's size limits the conversion succeeds.
pub fn convert_svg_to_image(
    svg_data: String,
    format: String,
    width: Option<u32>,
    height: Option<u32>,
    background_color: Option<String>,
    replacements: Vec<(String, String)>,
) -> (r: Result<Vec<u8>, ConvertError>)
    ensures
        format_named(format@) is None <==> r matches Err(ConvertError::UnsupportedFormat(_)),
        format_named(format@) is None ==> (r matches Err(ConvertError::UnsupportedFormat(v)) && v@
            == format@),
        ({
            let t = substituted_text(svg_data, replacements@);
            format_named(format@) is Some ==> (!svg_parses(t) <==> r matches Err(ConvertError::Parse(_)))
        }),
        ({
            let t = substituted_text(svg_data, replacements@);
            let bg = background_text(background_color);
            let (w, h) = resolved_dimensions(width, height, svg_size(t));
            let f = format_named(format@).unwrap();
            format_named(format@) is Some && svg_parses(t) ==> match planned_surface(
                width,
                height,
                bg,
                svg_size(t),
                f,
            ) {
                Some(p) => (codec_accepts(f, p.width, p.height) ==> r is Ok) && (r is Ok || (r matches Err(
                    ConvertError::Encoding(g, _),
                ) && g == f)),
                None => if !surface_fits(w, h) {
                    r == Err::<Vec<u8>, ConvertError>(ConvertError::SurfaceAllocation(w, h))
                } else {
                    r matches Err(ConvertError::InvalidColor(v)) && v@ == bg
                },
            }
        }),
        ({
            let t = substituted_text(svg_data, replacements@);
            let f = format_named(format@).unwrap();
            r matches Ok(bytes) ==> format_named(format@) is Some && svg_parses(t) && match planned_surface(
                width,
                height,
                background_text(background_color),
                svg_size(t),
                f,
            ) {
                Some(p) => exists|pixels: Seq<u8>|
                    #![trigger encoding_of(f, straight_alpha(pixels), p.width, p.height)]
                    pixels.len() == 4 * (p.width as int) * (p.height as int) && bytes@ == encoding_of(
                        f,
                        straight_alpha(pixels),
                        p.width,
                        p.height,
                    ),
                None => false,
            }
        }),
{
    let target = match parse_format(format.as_str()) {
        Ok(f) => f,
        Err(e) => return Err(e),
    };
    let text = apply_replacements(svg_data.as_str(), &replacements);
    let (tree, size) = match parse_svg(text.as_str()) {
        Ok(parsed) => parsed,
        Err(e) => return Err(ConvertError::Parse(svg_error_message(&e))),
    };
    let plan = match plan_surface(width, height, &background_color, size, target) {
        Ok(p) => p,
        Err(e) => return Err(e),
    };
    let mut pixmap = match new_pixmap(plan.width, plan.height) {
        Some(p) => p,
        None => return Err(ConvertError::SurfaceAllocation(plan.width, plan.height)),
    };
    let ghost n: int = 4 * (plan.width as int) * (plan.height as int);
    proof {
        let m = (plan.width as int) * (plan.height as int);
        assert(n == 4 * m && m >= 0) by (nonlinear_arith)
            requires n == 4 * (plan.width as int) * (plan.height as int), m == (plan.width as int) * (
                plan.height as int), plan.width >= 0, plan.height >= 0;
        vstd::arithmetic::div_mod::lemma_div_multiples_vanish(m, 4);
    }
    if let Some(c) = plan.background {
        fill_opaque(&mut pixmap, c);
    }
    assert(pixmap_bytes(pixmap).len() == n);
    render_scaled(&tree, &mut pixmap);
    let premultiplied = pixmap_into_bytes(pixmap);
    let pixels = demultiply(premultiplied.as_slice());
    proof {
        lemma_rgba_buffer_fits(target, plan.width, plan.height);
        assert(pixels@.len() == n);
        assert(crate::encode::buffer_fits(target, pixels@.len(), plan.width, plan.height));
    }
    let r = encode_image(pixels.as_slice(), plan.width, plan.height, target);
    assert(r matches Ok(bytes) ==> bytes@ == encoding_of(target, straight_alpha(premultiplied@), plan.width, plan.height));
    r
}

} // verus!
