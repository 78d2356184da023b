//! The trusted boundary to the image codec crate: decoding, resampling
//! and container encoding. Each wrapper makes one call into the codec;
//! its contract names the call's result, which is a function of the
//! arguments alone, and states only what the codec's own source and
//! documentation show.

use vstd::prelude::*;
use crate::compose::Pixels;

verus! {

/// What decoding a byte buffer yields: the pixel dimensions and the
/// RGBA8 samples, or nothing when the bytes are no decodable image.
pub uninterp spec fn decoded_of(bytes: Seq<u8>) -> Option<(u32, u32, Seq<u8>)>;

/// The RGBA8 samples of a buffer resampled to a new size.
pub uninterp spec fn resized_of(data: Seq<u8>, w: u32, h: u32, nw: u32, nh: u32) -> Seq<u8>;

/// The PNG serialization of an RGBA8 buffer.
pub uninterp spec fn png_bytes_of(w: u32, h: u32, data: Seq<u8>) -> Seq<u8>;

/// The JPEG serialization of an RGBA8 buffer at a given quality.
pub uninterp spec fn jpeg_bytes_of(w: u32, h: u32, data: Seq<u8>, q: u8) -> Seq<u8>;

/// The GIF serialization of an RGBA8 buffer.
pub uninterp spec fn gif_bytes_of(w: u32, h: u32, data: Seq<u8>) -> Seq<u8>;

/// The BMP serialization of an RGBA8 buffer.
pub uninterp spec fn bmp_bytes_of(w: u32, h: u32, data: Seq<u8>) -> Seq<u8>;

/// Relies on image::load_from_memory: decoding is a pure function of the
/// input bytes, and to_rgba8 yields exactly width * height * 4 samples.
/// Nothing is claimed of the dimensions themselves: one of the accepted
/// formats admits a header that declares zero pixels, so callers must
/// check for a degenerate image.
#[verifier::external_body]
pub(crate) fn decode_rgba(bytes: &Vec<u8>) -> (r: Option<Pixels>)
    ensures
        r matches Some(p) ==> decoded_of(bytes@) == Some((p.width, p.height, p.data@))
            && p.data@.len() == p.width as int * p.height as int * 4,
        r is None ==> decoded_of(bytes@) is None,
{
    match image::load_from_memory(bytes.as_slice()) {
        Ok(img) => {
            let buf = img.to_rgba8();
            let width = buf.width();
            let height = buf.height();
            Some(Pixels { width, height, data: buf.into_raw() })
        },
        Err(_) => None,
    }
}

/// Relies on image::imageops::resize with the Lanczos3 filter: the
/// resampled buffer is a pure function of the source buffer and the
/// target size, in RGBA8 with exactly nw * nh * 4 samples.
#[verifier::external_body]
pub(crate) fn resize_rgba(p: &Pixels, nw: u32, nh: u32) -> (r: Pixels)
    requires
        1 <= p.width,
        1 <= p.height,
        1 <= nw,
        1 <= nh,
        p.data@.len() == p.width as int * p.height as int * 4,
        nw as int * nh as int * 4 <= usize::MAX,
    ensures
        r.width == nw,
        r.height == nh,
        r.data@.len() == nw as int * nh as int * 4,
        r.data@ == resized_of(p.data@, p.width, p.height, nw, nh),
{
    let rgba = image::RgbaImage::from_raw(p.width, p.height, p.data.clone())
        .expect("length fixed by the caller");
    let out = image::imageops::resize(&rgba, nw, nh, image::imageops::FilterType::Lanczos3);
    Pixels { width: nw, height: nh, data: out.into_raw() }
}

/// Relies on image::write_buffer_with_format with the PNG container.
/// Encoding is a pure function of the pixel buffer; the encoder refuses
/// only zero dimensions and mismatched buffer lengths, both excluded
/// here, so a buffer up to the stated bound always encodes. PNG stores
/// RGBA8 losslessly, so decoding the produced bytes restores the very
/// same dimensions and samples - claimed only for buffers up to 256 MiB,
/// comfortably inside the decoder's default 512 MiB allocation cap,
/// which a larger canvas can exceed.
#[verifier::external_body]
pub(crate) fn encode_png(p: &Pixels) -> (r: Result<Vec<u8>, String>)
    requires
        1 <= p.width,
        1 <= p.height,
        p.data@.len() == p.width as int * p.height as int * 4,
    ensures
        r matches Ok(v) ==> v@ == png_bytes_of(p.width, p.height, p.data@),
        p.width as int * p.height as int * 4 <= 0x1000_0000 ==> r is Ok,
        r matches Ok(v) ==> (p.width as int * p.height as int * 4 <= 0x1000_0000 ==> decoded_of(
            v@,
        ) == Some((p.width, p.height, p.data@))),
{
    let mut out: Vec<u8> = Vec::new();
    let res = image::write_buffer_with_format(
        &mut std::io::Cursor::new(&mut out),
        p.data.as_slice(),
        p.width,
        p.height,
        image::ExtendedColorType::Rgba8,
        image::ImageFormat::Png,
    );
    match res {
        Ok(()) => Ok(out),
        Err(e) => Err(format!("{}", e)),
    }
}

/// Relies on image::codecs::jpeg::JpegEncoder: encoding at a given
/// quality is a pure function of the pixel buffer; the encoder refuses
/// only a side above 65535, so smaller images always encode. The JPEG
/// container records the exact pixel dimensions, which decoding
/// restores - claimed only for buffers up to 256 MiB, comfortably inside
/// the decoder's default 512 MiB allocation cap, which a larger canvas
/// can exceed.
#[verifier::external_body]
pub(crate) fn encode_jpeg(p: &Pixels, quality: u8) -> (r: Result<Vec<u8>, String>)
    requires
        1 <= p.width,
        1 <= p.height,
        p.data@.len() == p.width as int * p.height as int * 4,
    ensures
        r matches Ok(v) ==> v@ == jpeg_bytes_of(p.width, p.height, p.data@, quality),
        p.width <= 0xFFFF && p.height <= 0xFFFF && p.width as int * p.height as int * 4
            <= 0x1000_0000 ==> r is Ok,
        r matches Ok(v) ==> (p.width as int * p.height as int * 4 <= 0x1000_0000 ==> (decoded_of(
            v@,
        ) matches Some(d) && d.0 == p.width && d.1 == p.height)),
{
    let rgba = image::RgbaImage::from_raw(p.width, p.height, p.data.clone())
        .expect("length fixed by the caller");
    let rgb = image::DynamicImage::ImageRgba8(rgba).to_rgb8();
    let mut out: Vec<u8> = Vec::new();
    let mut enc = image::codecs::jpeg::JpegEncoder::new_with_quality(
        std::io::Cursor::new(&mut out),
        quality,
    );
    match enc.encode(rgb.as_raw(), p.width, p.height, image::ExtendedColorType::Rgb8) {
        Ok(()) => Ok(out),
        Err(e) => Err(format!("{}", e)),
    }
}

/// Relies on image::write_buffer_with_format with the GIF container:
/// encoding is a pure function of the pixel buffer, and the encoder
/// refuses only a side above 65535, the container's dimension cap.
#[verifier::external_body]
pub(crate) fn encode_gif(p: &Pixels) -> (r: Result<Vec<u8>, String>)
    requires
        1 <= p.width,
        1 <= p.height,
        p.data@.len() == p.width as int * p.height as int * 4,
    ensures
        r matches Ok(v) ==> v@ == gif_bytes_of(p.width, p.height, p.data@),
        p.width <= 0xFFFF && p.height <= 0xFFFF ==> r is Ok,
{
    let mut out: Vec<u8> = Vec::new();
    let res = image::write_buffer_with_format(
        &mut std::io::Cursor::new(&mut out),
        p.data.as_slice(),
        p.width,
        p.height,
        image::ExtendedColorType::Rgba8,
        image::ImageFormat::Gif,
    );
    match res {
        Ok(()) => Ok(out),
        Err(e) => Err(format!("{}", e)),
    }
}

/// Relies on image::write_buffer_with_format with the BMP container:
/// encoding is a pure function of the pixel buffer, and the encoder
/// fails only when the container's 32-bit size fields would overflow,
/// which a buffer within the stated bound cannot make them do.
#[verifier::external_body]
pub(crate) fn encode_bmp(p: &Pixels) -> (r: Result<Vec<u8>, String>)
    requires
        1 <= p.width,
        1 <= p.height,
        p.data@.len() == p.width as int * p.height as int * 4,
    ensures
        r matches Ok(v) ==> v@ == bmp_bytes_of(p.width, p.height, p.data@),
        p.width as int * p.height as int * 4 <= 0x1000_0000 ==> r is Ok,
{
    let mut out: Vec<u8> = Vec::new();
    let res = image::write_buffer_with_format(
        &mut std::io::Cursor::new(&mut out),
        p.data.as_slice(),
        p.width,
        p.height,
        image::ExtendedColorType::Rgba8,
        image::ImageFormat::Bmp,
    );
    match res {
        Ok(()) => Ok(out),
        Err(e) => Err(format!("{}", e)),
    }
}

} // verus!
