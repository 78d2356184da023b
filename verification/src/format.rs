//! Format resolution: mapping declared MIME types to the closed set of
//! decodable input formats and encodable output container formats.

use vstd::prelude::*;
use crate::error::StitchError;

verus! {

/// The closed set of formats a source may declare and the decoder accepts.
#[derive(Debug, Clone, Copy, PartialEq, Eq, Structural)]
pub enum ImageFormat {
    Jpeg,
    Png,
    Gif,
    Bmp,
    Webp,
}

/// The closed set of output container formats. JPEG carries its own
/// compression quality, already clamped to 0-100.
#[derive(Debug, Clone, Copy, PartialEq, Eq, Structural)]
pub enum OutputFormat {
    Jpeg(u8),
    Png,
    Gif,
    Bmp,
}

/// The input format a declared MIME string maps to, if any.
pub open spec fn spec_infer_format(mime: Seq<char>) -> Option<ImageFormat> {
    if mime == "image/jpeg"@ {
        Some(ImageFormat::Jpeg)
    } else if mime == "image/png"@ {
        Some(ImageFormat::Png)
    } else if mime == "image/gif"@ {
        Some(ImageFormat::Gif)
    } else if mime == "image/bmp"@ {
        Some(ImageFormat::Bmp)
    } else if mime == "image/webp"@ {
        Some(ImageFormat::Webp)
    } else {
        None
    }
}

fn string_eq_lit(s: &String, lit: &str) -> (r: bool)
    ensures
        r == (s@ == lit@),
{
    let other: String = lit.to_owned();
    s.eq(&other)
}

/// Maps a declared MIME type to its decode format; `None` for any MIME
/// outside the supported set.
pub fn infer_format(mime: &String) -> (r: Option<ImageFormat>)
    ensures
        r == spec_infer_format(mime@),
{
    if string_eq_lit(mime, "image/jpeg") {
        Some(ImageFormat::Jpeg)
    } else if string_eq_lit(mime, "image/png") {
        Some(ImageFormat::Png)
    } else if string_eq_lit(mime, "image/gif") {
        Some(ImageFormat::Gif)
    } else if string_eq_lit(mime, "image/bmp") {
        Some(ImageFormat::Bmp)
    } else if string_eq_lit(mime, "image/webp") {
        Some(ImageFormat::Webp)
    } else {
        None
    }
}

/// Quality as the encoder takes it: unchanged up to 100, larger values
/// clamped to 100.
pub open spec fn spec_clamp_quality(q: u32) -> u8 {
    if q <= 100 { q as u8 } else { 100u8 }
}

/// The container format an output MIME string and quality resolve to:
/// exactly JPEG (carrying the clamped quality), PNG, GIF or BMP; every
/// other MIME, Webp included, is unsupported as output.
pub open spec fn spec_resolve_output(mime: Seq<char>, quality: u32) -> Result<
    OutputFormat,
    StitchError,
> {
    match spec_infer_format(mime) {
        Some(ImageFormat::Jpeg) => Ok(OutputFormat::Jpeg(spec_clamp_quality(quality))),
        Some(ImageFormat::Png) => Ok(OutputFormat::Png),
        Some(ImageFormat::Gif) => Ok(OutputFormat::Gif),
        Some(ImageFormat::Bmp) => Ok(OutputFormat::Bmp),
        _ => Err(StitchError::UnsupportedOutputFormat),
    }
}

/// Resolves the destination's declared MIME to an output container format,
/// folding the caller's quality option into the JPEG variant. Fails with
/// `UnsupportedOutputFormat` if and only if the MIME maps to none of the
/// four containers.
pub fn resolve_output_format(mime: &String, quality: u32) -> (r: Result<
    OutputFormat,
    StitchError,
>)
    ensures
        r == spec_resolve_output(mime@, quality),
        (r is Err) <==> !(spec_infer_format(mime@) matches Some(f) && f != ImageFormat::Webp),
{
    let clamped: u8 = if quality <= 100 {
        quality as u8
    } else {
        100u8
    };
    match infer_format(mime) {
        Some(ImageFormat::Jpeg) => Ok(OutputFormat::Jpeg(clamped)),
        Some(ImageFormat::Png) => Ok(OutputFormat::Png),
        Some(ImageFormat::Gif) => Ok(OutputFormat::Gif),
        Some(ImageFormat::Bmp) => Ok(OutputFormat::Bmp),
        _ => Err(StitchError::UnsupportedOutputFormat),
    }
}

} // verus!
