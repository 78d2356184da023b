use stitchy::compose::Pixels;
use stitchy::config::{Alignment, StitchConfig, NO_LIMIT};
use stitchy::error::StitchError;
use stitchy::format::OutputFormat;
use stitchy::pipeline::{encode, probe_dimensions, run_stitch};

fn cfg(alignment: Alignment, width_limit: u32, height_limit: u32, quality: u32) -> StitchConfig {
    StitchConfig { alignment, width_limit, height_limit, quality }
}

fn png_input(width: u32, height: u32, rgba: [u8; 4]) -> Vec<u8> {
    let mut data = Vec::new();
    for _ in 0..(width as usize * height as usize) {
        data.extend_from_slice(&rgba);
    }
    let p = Pixels { width, height, data };
    encode(&p, &OutputFormat::Png).unwrap()
}

fn mimes(list: &[&str]) -> Vec<String> {
    list.iter().map(|s| s.to_string()).collect()
}

#[test]
fn mismatched_lists_fail_with_input_mismatch() {
    let inputs = vec![png_input(4, 4, [1, 2, 3, 255]); 3];
    let m = mimes(&["image/png", "image/png"]);
    let r = run_stitch(
        inputs,
        &m,
        &"image/png".to_string(),
        &cfg(Alignment::Grid, NO_LIMIT, NO_LIMIT, 100),
    );
    assert!(matches!(r, Err(StitchError::InputMismatch)));
}

#[test]
fn unsupported_output_mime_fails_before_decoding() {
    // The output format is resolved before any decoding or canvas work:
    // even with undecodable input bytes the output MIME decides.
    let inputs = vec![vec![0u8; 3]];
    let m = mimes(&["image/png"]);
    let r = run_stitch(
        inputs,
        &m,
        &"image/tiff".to_string(),
        &cfg(Alignment::Grid, NO_LIMIT, NO_LIMIT, 100),
    );
    assert!(matches!(r, Err(StitchError::UnsupportedOutputFormat)));
}

#[test]
fn empty_input_beats_unsupported_output_mime() {
    // Zero sources fail when the collection is sealed, before the
    // destination's MIME is even looked at.
    let inputs: Vec<Vec<u8>> = Vec::new();
    let m = mimes(&[]);
    let r = run_stitch(
        inputs,
        &m,
        &"image/tiff".to_string(),
        &cfg(Alignment::Grid, NO_LIMIT, NO_LIMIT, 100),
    );
    assert!(matches!(r, Err(StitchError::EmptyInput)));
}

#[test]
fn bad_input_mime_beats_unsupported_output_mime() {
    // Source validation precedes output-format resolution.
    let inputs = vec![vec![0u8; 3]];
    let m = mimes(&["text/plain"]);
    let r = run_stitch(
        inputs,
        &m,
        &"image/tiff".to_string(),
        &cfg(Alignment::Grid, NO_LIMIT, NO_LIMIT, 100),
    );
    assert!(matches!(r, Err(StitchError::UnsupportedFormat)));
}

#[test]
fn zero_pixel_image_fails_with_decode_error() {
    // A format whose header can declare zero pixels: the bytes decode,
    // but a degenerate image cannot be laid out and is rejected.
    let mut bytes = b"farbfeld".to_vec();
    bytes.extend_from_slice(&[0u8; 8]);
    let inputs = vec![bytes];
    let m = mimes(&["image/png"]);
    let r = run_stitch(
        inputs,
        &m,
        &"image/png".to_string(),
        &cfg(Alignment::Grid, NO_LIMIT, NO_LIMIT, 100),
    );
    assert!(matches!(r, Err(StitchError::DecodeError(_))));
}

#[test]
fn webp_output_unsupported() {
    let inputs = vec![png_input(4, 4, [1, 2, 3, 255])];
    let m = mimes(&["image/png"]);
    let r = run_stitch(
        inputs,
        &m,
        &"image/webp".to_string(),
        &cfg(Alignment::Grid, NO_LIMIT, NO_LIMIT, 100),
    );
    assert!(matches!(r, Err(StitchError::UnsupportedOutputFormat)));
}

#[test]
fn zero_sources_fail_with_empty_input() {
    let inputs: Vec<Vec<u8>> = Vec::new();
    let m = mimes(&[]);
    let r = run_stitch(
        inputs,
        &m,
        &"image/png".to_string(),
        &cfg(Alignment::Grid, NO_LIMIT, NO_LIMIT, 100),
    );
    assert!(matches!(r, Err(StitchError::EmptyInput)));
}

#[test]
fn unsupported_input_mime_rejected() {
    let inputs = vec![png_input(4, 4, [1, 2, 3, 255])];
    let m = mimes(&["text/plain"]);
    let r = run_stitch(
        inputs,
        &m,
        &"image/png".to_string(),
        &cfg(Alignment::Grid, NO_LIMIT, NO_LIMIT, 100),
    );
    assert!(matches!(r, Err(StitchError::UnsupportedFormat)));
}

#[test]
fn corrupt_input_fails_with_decode_error() {
    let inputs = vec![vec![1u8, 2, 3, 4, 5]];
    let m = mimes(&["image/png"]);
    let r = run_stitch(
        inputs,
        &m,
        &"image/png".to_string(),
        &cfg(Alignment::Grid, NO_LIMIT, NO_LIMIT, 100),
    );
    assert!(matches!(r, Err(StitchError::DecodeError(_))));
}

#[test]
fn zero_limit_fails_with_layout_infeasible() {
    let inputs = vec![png_input(4, 4, [1, 2, 3, 255])];
    let m = mimes(&["image/png"]);
    let r = run_stitch(
        inputs,
        &m,
        &"image/png".to_string(),
        &cfg(Alignment::Grid, 0, NO_LIMIT, 100),
    );
    assert!(matches!(r, Err(StitchError::LayoutInfeasible)));
}

#[test]
fn four_squares_stitch_into_bounded_grid() {
    // Four 100x100 inputs under 180x180 limits: a 2x2 grid, every cell
    // downscaled to 90x90, and a 180x180 canvas.
    let inputs = vec![
        png_input(100, 100, [255, 0, 0, 255]),
        png_input(100, 100, [0, 255, 0, 255]),
        png_input(100, 100, [0, 0, 255, 255]),
        png_input(100, 100, [255, 255, 0, 255]),
    ];
    let m = mimes(&["image/png", "image/png", "image/png", "image/png"]);
    let out = run_stitch(
        inputs,
        &m,
        &"image/png".to_string(),
        &cfg(Alignment::Grid, 180, 180, 100),
    )
    .unwrap();
    assert_eq!(probe_dimensions(&out), Some((180, 180)));
}

#[test]
fn single_source_stitch_keeps_its_size() {
    let inputs = vec![png_input(50, 40, [10, 20, 30, 255])];
    let m = mimes(&["image/png"]);
    let out = run_stitch(
        inputs,
        &m,
        &"image/png".to_string(),
        &cfg(Alignment::Grid, NO_LIMIT, NO_LIMIT, 100),
    )
    .unwrap();
    assert_eq!(probe_dimensions(&out), Some((50, 40)));
}

#[test]
fn horizontal_stitch_concatenates_widths() {
    let inputs = vec![
        png_input(30, 20, [1, 1, 1, 255]),
        png_input(30, 20, [2, 2, 2, 255]),
    ];
    let m = mimes(&["image/png", "image/png"]);
    let out = run_stitch(
        inputs,
        &m,
        &"image/png".to_string(),
        &cfg(Alignment::Horizontal, NO_LIMIT, NO_LIMIT, 100),
    )
    .unwrap();
    assert_eq!(probe_dimensions(&out), Some((60, 20)));
}

#[test]
fn jpeg_output_with_clamped_quality() {
    let inputs = vec![png_input(16, 16, [9, 9, 9, 255])];
    let m = mimes(&["image/png"]);
    let out = run_stitch(
        inputs,
        &m,
        &"image/jpeg".to_string(),
        &cfg(Alignment::Grid, NO_LIMIT, NO_LIMIT, 150),
    )
    .unwrap();
    assert_eq!(&out[..2], &[0xFF, 0xD8]);
    assert_eq!(probe_dimensions(&out), Some((16, 16)));
}
