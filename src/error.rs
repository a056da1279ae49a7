use vstd::prelude::*;
use crate::format::OutputFormat;
use crate::text::string_of;

verus! {

/// Every way a conversion can fail. Each variant carries the value that
/// triggered it, or the underlying library's message.
#[derive(Clone, Debug)]
pub enum ConvertError {
    /// The SVG text is not well-formed; holds the parser's message.
    Parse(String),
    /// The background color is not six hex digits; holds the offending value.
    InvalidColor(String),
    /// The pixel surface cannot be allocated for this width and height.
    SurfaceAllocation(u32, u32),
    /// A pixel buffer's length does not match width * height * 4; holds it.
    BufferShape(usize),
    /// The target format is not one of png, jpg, jpeg, gif, webp; holds it.
    UnsupportedFormat(String),
    /// The codec of a format rejected the pixel data; holds its message.
    Encoding(OutputFormat, String),
}

/// The character of a decimal digit.
pub open spec fn digit_char(d: nat) -> char {
    if d == 0 { '0' } else if d == 1 { '1' } else if d == 2 { '2' } else if d == 3 { '3' }
    else if d == 4 { '4' } else if d == 5 { '5' } else if d == 6 { '6' } else if d == 7 { '7' }
    else if d == 8 { '8' } else { '9' }
}

/// `n` written in decimal, without leading zeros.
pub open spec fn decimal_text(n: nat) -> Seq<char>
    decreases n,
{
    if n < 10 {
        seq![digit_char(n)]
    } else {
        decimal_text(n / 10) + seq![digit_char(n % 10)]
    }
}

/// The name a message gives a format.
pub open spec fn format_label(f: OutputFormat) -> Seq<char> {
    match f {
        OutputFormat::Png => "PNG"@,
        OutputFormat::Jpeg => "JPEG"@,
        OutputFormat::Gif => "GIF"@,
        OutputFormat::WebP => "WebP"@,
    }
}

fn digit(d: u64) -> (r: char)
    requires
        d < 10,
    ensures
        r == digit_char(d as nat),
{
    if d == 0 { '0' } else if d == 1 { '1' } else if d == 2 { '2' } else if d == 3 { '3' }
    else if d == 4 { '4' } else if d == 5 { '5' } else if d == 6 { '6' } else if d == 7 { '7' }
    else if d == 8 { '8' } else { '9' }
}

fn decimal_chars(n: u64) -> (r: Vec<char>)
    ensures
        r@ == decimal_text(n as nat),
    decreases n,
{
    if n < 10 {
        let mut v: Vec<char> = Vec::new();
        v.push(digit(n));
        v
    } else {
        let mut v = decimal_chars(n / 10);
        v.push(digit(n % 10));
        v
    }
}

/// `n` written in decimal.
pub fn decimal(n: u64) -> (r: String)
    ensures
        r@ == decimal_text(n as nat),
{
    string_of(&decimal_chars(n))
}

fn format_name(f: OutputFormat) -> (r: &'static str)
    ensures
        r@ == format_label(f),
{
    match f {
        OutputFormat::Png => "PNG",
        OutputFormat::Jpeg => "JPEG",
        OutputFormat::Gif => "GIF",
        OutputFormat::WebP => "WebP",
    }
}

impl ConvertError {
    /// A sentence that names the failing stage and the value that triggered it.
    pub fn message(&self) -> (r: String)
        ensures
            r@ == match self {
                ConvertError::Parse(m) => "Failed to parse SVG: "@ + m@,
                ConvertError::InvalidColor(v) => "Invalid hex color: must be 6 hex digits (RRGGBB), got "@ + v@,
                ConvertError::SurfaceAllocation(w, h) => "Failed to create pixmap of "@ + decimal_text(*w as nat)
                    + "x"@ + decimal_text(*h as nat),
                ConvertError::BufferShape(n) => "Failed to create image buffer from "@ + decimal_text(*n as nat)
                    + " bytes"@,
                ConvertError::UnsupportedFormat(f) => "Unsupported format: "@ + f@,
                ConvertError::Encoding(f, m) => "Failed to encode "@ + format_label(*f) + ": "@ + m@,
            },
    {
        match self {
            ConvertError::Parse(m) => String::from_str("Failed to parse SVG: ").concat(m.as_str()),
            ConvertError::InvalidColor(v) => String::from_str(
                "Invalid hex color: must be 6 hex digits (RRGGBB), got ",
            ).concat(v.as_str()),
            ConvertError::SurfaceAllocation(w, h) => {
                let ws = decimal(*w as u64);
                let hs = decimal(*h as u64);
                String::from_str("Failed to create pixmap of ").concat(ws.as_str()).concat("x").concat(hs.as_str())
            },
            ConvertError::BufferShape(n) => {
                let ns = decimal(*n as u64);
                String::from_str("Failed to create image buffer from ").concat(ns.as_str()).concat(" bytes")
            },
            ConvertError::UnsupportedFormat(f) => String::from_str("Unsupported format: ").concat(f.as_str()),
            ConvertError::Encoding(f, m) => String::from_str("Failed to encode ").concat(format_name(*f)).concat(
                ": ",
            ).concat(m.as_str()),
        }
    }
}

} // verus!
