//! SVG to raster conversion: template substitution, dimension resolution,
//! background policy and per-format encoding around usvg, resvg, tiny-skia
//! and image.
pub mod error;
pub mod dimensions;
pub mod text;
pub mod color;
pub mod format;
pub mod backend;
pub mod encode;
pub mod converter;

pub use color::{parse_hex_color, Rgb};
pub use converter::{convert_svg_to_image, plan_surface, SurfacePlan};
pub use dimensions::{resolve_dimensions, IntrinsicSize};
pub use encode::{demultiply, encode_image, rgba_to_rgb};
pub use error::ConvertError;
pub use format::{parse_format, OutputFormat};
pub use text::apply_replacements;
