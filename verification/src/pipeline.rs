//! The whole pipeline for one invocation: check the parallel input
//! lists, validate and collect the sources, resolve the output container
//! format, stitch, and encode. Every stage fails fast with the error of
//! the first failing stage; the output format is resolved before any
//! decoding or canvas work begins.

use vstd::prelude::*;
use crate::compose::StitchOutput;
use crate::config::StitchConfig;
use crate::error::StitchError;
use crate::files::ImageFilesBuilder;
use crate::format::{
    infer_format,
    resolve_output_format,
    spec_infer_format,
    spec_resolve_output,
    OutputFormat,
};
use crate::imgio::{
    bmp_bytes_of,
    decode_rgba,
    decoded_of,
    encode_bmp,
    encode_gif,
    encode_jpeg,
    encode_png,
    gif_bytes_of,
    jpeg_bytes_of,
    png_bytes_of,
};
use crate::layout::{layout_infeasible, spec_canvas_height, spec_canvas_width};
use crate::source::resolve_source;
use crate::stitch::{all_decodable, decoded_dims, stitch, usable_decode};

verus! {

/// Whether two byte buffers hold the same bytes.
pub fn bytes_eq(a: &Vec<u8>, b: &Vec<u8>) -> (r: bool)
    ensures
        r == (a@ == b@),
{
    if a.len() != b.len() {
        proof {
            assert(a@ != b@);
        }
        return false;
    }
    let n = a.len();
    let mut i: usize = 0;
    while i < n
        invariant
            n == a@.len(),
            n == b@.len(),
            0 <= i <= n,
            forall|k: int| 0 <= k < i ==> a@[k] == b@[k],
        decreases n - i,
    {
        if a[i] != b[i] {
            proof {
                assert(a@[i as int] != b@[i as int]);
            }
            return false;
        }
        i = i + 1;
    }
    proof {
        assert(a@ =~= b@);
    }
    true
}

/// The bytes `encode` owes for each container format.
pub open spec fn encoded_bytes(out: StitchOutput, format: OutputFormat) -> Seq<u8> {
    match format {
        OutputFormat::Jpeg(q) => jpeg_bytes_of(out.width, out.height, out.data@, q),
        OutputFormat::Png => png_bytes_of(out.width, out.height, out.data@),
        OutputFormat::Gif => gif_bytes_of(out.width, out.height, out.data@),
        OutputFormat::Bmp => bmp_bytes_of(out.width, out.height, out.data@),
    }
}

/// Whether a container format is sure to take a canvas of this size:
/// GIF and JPEG cap each side at 16 bits, and every container is held to
/// one conservative pixel-buffer bound that keeps both encoding and a
/// default-limits decode inside the codec's documented caps.
pub open spec fn format_accepts(f: OutputFormat, w: int, h: int) -> bool {
    match f {
        OutputFormat::Jpeg(_) => w <= 0xFFFF && h <= 0xFFFF && w * h * 4 <= 0x1000_0000,
        OutputFormat::Png => w * h * 4 <= 0x1000_0000,
        OutputFormat::Gif => w <= 0xFFFF && h <= 0xFFFF,
        OutputFormat::Bmp => w * h * 4 <= 0x1000_0000,
    }
}

/// Serializes the finished canvas in the resolved container format.
/// On success the bytes are exactly the container's serialization of the
/// canvas; success is owed whenever the container accepts the canvas's
/// size; an encoder failure surfaces as `WriteError` with its cause.
pub fn encode(out: &StitchOutput, format: &OutputFormat) -> (r: Result<Vec<u8>, StitchError>)
    requires
        out.wf(),
    ensures
        r matches Ok(v) ==> v@ == encoded_bytes(*out, *format),
        format_accepts(*format, out.width as int, out.height as int) ==> r is Ok,
        r matches Err(e) ==> e is WriteError,
{
    let res = match format {
        OutputFormat::Jpeg(q) => encode_jpeg(out, *q),
        OutputFormat::Png => encode_png(out),
        OutputFormat::Gif => encode_gif(out),
        OutputFormat::Bmp => encode_bmp(out),
    };
    match res {
        Ok(v) => Ok(v),
        Err(cause) => Err(StitchError::WriteError(cause)),
    }
}

/// Encoding a canvas as PNG and decoding the bytes back yields the very
/// same dimensions and pixel data: PNG is lossless. The `true` verdict
/// is owed for every canvas whose buffer stays within the decoder's
/// default allocation cap; beyond it nothing is claimed and the check
/// is not attempted.
pub fn png_round_trip(out: &StitchOutput) -> (r: Option<bool>)
    requires
        out.wf(),
    ensures
        r matches Some(b) ==> b,
        out.width as int * out.height as int * 4 <= 0x1000_0000 ==> r == Some(true),
{
    proof {
        vstd::arithmetic::mul::lemma_mul_upper_bound(
            out.width as int,
            0xFFFF_FFFF,
            out.height as int,
            0xFFFF_FFFF,
        );
    }
    if (out.width as u128) * (out.height as u128) * 4 > 0x1000_0000u128 {
        return None;
    }
    let bytes = match encode_png(out) {
        Ok(v) => v,
        Err(_) => {
            proof {
                assert(false);
            }
            return None;
        },
    };
    match decode_rgba(&bytes) {
        Some(p) => {
            let same = p.width == out.width && p.height == out.height && bytes_eq(
                &p.data,
                &out.data,
            );
            proof {
                assert(same);
            }
            Some(same)
        },
        None => {
            proof {
                assert(false);
            }
            None
        },
    }
}

/// Encoding a canvas as JPEG and decoding the bytes back preserves the
/// pixel dimensions, though not the samples: JPEG is lossy. The `true`
/// verdict is owed for every canvas the JPEG container accepts whose
/// buffer stays within the decoder's default allocation cap; beyond
/// those bounds nothing is claimed and the check is not attempted.
pub fn jpeg_round_trip_dims(out: &StitchOutput, quality: u8) -> (r: Option<bool>)
    requires
        out.wf(),
    ensures
        r matches Some(b) ==> b,
        out.width <= 0xFFFF && out.height <= 0xFFFF && out.width as int * out.height as int * 4
            <= 0x1000_0000 ==> r == Some(true),
{
    proof {
        vstd::arithmetic::mul::lemma_mul_upper_bound(
            out.width as int,
            0xFFFF_FFFF,
            out.height as int,
            0xFFFF_FFFF,
        );
    }
    if out.width > 0xFFFF || out.height > 0xFFFF || (out.width as u128) * (out.height as u128) * 4
        > 0x1000_0000u128 {
        return None;
    }
    let bytes = match encode_jpeg(out, quality) {
        Ok(v) => v,
        Err(_) => {
            proof {
                assert(false);
            }
            return None;
        },
    };
    match decode_rgba(&bytes) {
        Some(p) => {
            let same = p.width == out.width && p.height == out.height;
            proof {
                assert(same);
            }
            Some(same)
        },
        None => {
            proof {
                assert(false);
            }
            None
        },
    }
}

/// Reads the pixel dimensions of an image byte buffer, or nothing when
/// the bytes are no decodable image.
pub fn probe_dimensions(bytes: &Vec<u8>) -> (r: Option<(u32, u32)>)
    ensures
        r matches Some(d) ==> (decoded_of(bytes@) matches Some(p) && p.0 == d.0 && p.1 == d.1),
        r is None ==> decoded_of(bytes@) is None,
{
    match decode_rgba(bytes) {
        Some(p) => Some((p.width, p.height)),
        None => None,
    }
}

/// Whether every input buffer decodes to a usable image.
pub open spec fn decodable_inputs(inputs: Seq<Vec<u8>>) -> bool {
    forall|i: int| 0 <= i < inputs.len() ==> usable_decode((#[trigger] inputs[i])@)
}

/// The decoded dimensions of each input buffer, in order.
pub open spec fn input_dims(inputs: Seq<Vec<u8>>) -> Seq<crate::layout::Dims> {
    Seq::new(
        inputs.len(),
        |i: int|
            match decoded_of(inputs[i]@) {
                Some(d) => crate::layout::Dims { w: d.0, h: d.1 },
                None => crate::layout::Dims { w: 0, h: 0 },
            },
    )
}

/// Whether every declared input MIME maps to a supported decode format.
pub open spec fn supported_inputs(mimes: Seq<String>) -> bool {
    forall|i: int| 0 <= i < mimes.len() ==> spec_infer_format((#[trigger] mimes[i])@) is Some
}

/// Runs the whole pipeline on plain values: input byte buffers with
/// their parallel MIME list, the destination MIME, and the configuration.
/// Returns the encoded output bytes, or the first failing stage's error,
/// in stage order: `InputMismatch` exactly when the parallel lists
/// disagree in length; `UnsupportedFormat` when an input MIME maps to no
/// decode format; `EmptyInput` for zero sources; then the destination is
/// resolved, `UnsupportedOutputFormat` exactly when its MIME maps to no
/// container - before any decoding or canvas work; then `DecodeError`
/// and `LayoutInfeasible`. On inputs that pass every stage, success is
/// owed whenever the container accepts the computed canvas size, and the
/// returned bytes are that container's serialization of a canvas of
/// exactly the computed size; an encoder refusal is `WriteError`.
pub fn run_stitch(
    inputs: Vec<Vec<u8>>,
    mimes: &Vec<String>,
    output_mime: &String,
    config: &StitchConfig,
) -> (r: Result<Vec<u8>, StitchError>)
    ensures
        (r matches Err(e) && e is InputMismatch) <==> inputs@.len() != mimes@.len(),
        (r matches Err(e) && e is UnsupportedFormat) <==> (inputs@.len() == mimes@.len()
            && !supported_inputs(mimes@)),
        (r matches Err(e) && e is EmptyInput) <==> (inputs@.len() == mimes@.len()
            && supported_inputs(mimes@) && inputs@.len() == 0),
        (r matches Err(e) && e is UnsupportedOutputFormat) <==> (inputs@.len() == mimes@.len()
            && supported_inputs(mimes@) && inputs@.len() >= 1 && spec_resolve_output(
            output_mime@,
            config.quality,
        ) is Err),
        (r matches Err(e) && e is DecodeError) <==> (inputs@.len() == mimes@.len()
            && supported_inputs(mimes@) && inputs@.len() >= 1 && spec_resolve_output(
            output_mime@,
            config.quality,
        ) is Ok && !decodable_inputs(inputs@)),
        (r matches Err(e) && e is LayoutInfeasible) <==> (inputs@.len() == mimes@.len()
            && supported_inputs(mimes@) && inputs@.len() >= 1 && spec_resolve_output(
            output_mime@,
            config.quality,
        ) is Ok && decodable_inputs(inputs@) && layout_infeasible(input_dims(inputs@), *config)),
        (inputs@.len() == mimes@.len() && supported_inputs(mimes@) && inputs@.len() >= 1
            && spec_resolve_output(output_mime@, config.quality) is Ok && decodable_inputs(
            inputs@,
        ) && !layout_infeasible(input_dims(inputs@), *config)) ==> (r is Ok || (r matches Err(e)
            && e is WriteError)),
        inputs@.len() == mimes@.len() && supported_inputs(mimes@) && inputs@.len() >= 1
            && decodable_inputs(inputs@) && !layout_infeasible(input_dims(inputs@), *config) && (
        spec_resolve_output(output_mime@, config.quality) matches Ok(f) && format_accepts(
            f,
            spec_canvas_width(input_dims(inputs@), *config),
            spec_canvas_height(input_dims(inputs@), *config),
        )) ==> r is Ok,
        r matches Ok(v) ==> inputs@.len() == mimes@.len() && supported_inputs(mimes@)
            && inputs@.len() >= 1 && decodable_inputs(inputs@) && !layout_infeasible(
            input_dims(inputs@),
            *config,
        ) && (spec_resolve_output(output_mime@, config.quality) matches Ok(f) && (exists|
            o: StitchOutput,
        |
            o.wf() && o.width as int == spec_canvas_width(input_dims(inputs@), *config)
                && o.height as int == spec_canvas_height(input_dims(inputs@), *config) && v@
                == #[trigger] encoded_bytes(o, f))),
{
    if inputs.len() != mimes.len() {
        return Err(StitchError::InputMismatch);
    }
    let ghost ginputs = inputs@;
    let n = inputs.len();
    // Validate every declared input MIME before moving any bytes.
    let mut i: usize = 0;
    while i < n
        invariant
            inputs@.len() == n,
            mimes@.len() == n,
            inputs@ == ginputs,
            0 <= i <= n,
            forall|k: int| 0 <= k < i ==> spec_infer_format((#[trigger] mimes@[k])@) is Some,
        decreases n - i,
    {
        if infer_format(&mimes[i]).is_none() {
            proof {
                assert(spec_infer_format(mimes@[i as int]@) is None);
                assert(!supported_inputs(mimes@));
            }
            return Err(StitchError::UnsupportedFormat);
        }
        i = i + 1;
    }
    proof {
        assert(supported_inputs(mimes@));
    }
    // Collect the validated sources, in order.
    let mut builder = ImageFilesBuilder::new();
    let mut remaining = inputs;
    let mut i: usize = 0;
    while i < n
        invariant
            ginputs.len() == n,
            mimes@.len() == n,
            0 <= i <= n,
            remaining@.len() == n - i,
            forall|k: int| 0 <= k < n - i ==> (#[trigger] remaining@[k])@ == ginputs[i + k]@,
            forall|k: int| 0 <= k < n ==> spec_infer_format((#[trigger] mimes@[k])@) is Some,
            builder.sources().len() == i,
            forall|k: int|
                0 <= k < i ==> (#[trigger] builder.sources()[k]).bytes@ == ginputs[k]@,
        decreases n - i,
    {
        let bytes = remaining.remove(0);
        let source = match resolve_source(bytes, &mimes[i]) {
            Ok(s) => s,
            Err(_) => {
                proof {
                    assert(spec_infer_format(mimes@[i as int]@) is Some);
                    assert(false);
                }
                return Err(StitchError::UnsupportedFormat);
            },
        };
        builder = builder.add(source);
        i = i + 1;
    }
    // Seal the collection: zero sources fail here, before the
    // destination is even looked at, as EmptyInput.
    let files = match builder.build() {
        Ok(f) => f,
        Err(e) => {
            return Err(e);
        },
    };
    // Resolve the output container next, before any decoding or canvas
    // work begins.
    let format = match resolve_output_format(output_mime, config.quality) {
        Ok(f) => f,
        Err(e) => {
            return Err(e);
        },
    };
    proof {
        assert(files.sources().len() == n && n >= 1);
        assert forall|k: int| 0 <= k < n implies decoded_of(
            (#[trigger] files.sources()[k]).bytes@,
        ) == decoded_of(ginputs[k]@) by {
            assert(files.sources()[k].bytes@ == ginputs[k]@);
        }
        assert(decoded_dims(files.sources()) =~= input_dims(ginputs));
        if all_decodable(files.sources()) {
            assert forall|k: int| 0 <= k < n implies usable_decode((#[trigger] ginputs[k])@) by {
                assert(usable_decode(files.sources()[k].bytes@));
            }
        }
        if decodable_inputs(ginputs) {
            assert forall|k: int| 0 <= k < n implies usable_decode(
                (#[trigger] files.sources()[k]).bytes@,
            ) by {
                assert(usable_decode(ginputs[k]@));
            }
        }
        assert(all_decodable(files.sources()) == decodable_inputs(ginputs));
    }
    let output = match stitch(&files, config) {
        Ok(o) => o,
        Err(e) => {
            return Err(e);
        },
    };
    match encode(&output, &format) {
        Ok(v) => {
            proof {
                assert(output.wf() && output.width as int == spec_canvas_width(
                    input_dims(ginputs),
                    *config,
                ) && output.height as int == spec_canvas_height(input_dims(ginputs), *config)
                    && v@ == encoded_bytes(output, format));
            }
            Ok(v)
        },
        Err(e) => Err(e),
    }
}

} // verus!
