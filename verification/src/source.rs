//! The source resolver: validates a declared MIME type against the
//! supported decode formats and takes ownership of the source's bytes.

use vstd::prelude::*;
use crate::error::StitchError;
use crate::format::{infer_format, spec_infer_format, ImageFormat};

verus! {

/// One validated image source: its declared format and its raw bytes.
/// The byte length of the resource is `bytes.len()`.
#[derive(Debug, Clone)]
pub struct ImageSource {
    pub format: ImageFormat,
    pub bytes: Vec<u8>,
}

/// Validates a source's declared MIME type and wraps its bytes. Fails
/// with `UnsupportedFormat` if and only if the MIME maps to none of the
/// supported decode formats.
pub fn resolve_source(bytes: Vec<u8>, mime: &String) -> (r: Result<ImageSource, StitchError>)
    ensures
        (r is Err) <==> spec_infer_format(mime@) is None,
        r matches Err(e) ==> e is UnsupportedFormat,
        r matches Ok(s) ==> Some(s.format) == spec_infer_format(mime@) && s.bytes@ == bytes@,
{
    match infer_format(mime) {
        Some(format) => Ok(ImageSource { format, bytes }),
        None => Err(StitchError::UnsupportedFormat),
    }
}

} // verus!
