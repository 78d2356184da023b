use stitchy::compose::Pixels;
use stitchy::format::OutputFormat;
use stitchy::pipeline::{encode, jpeg_round_trip_dims, png_round_trip, probe_dimensions};

fn solid(width: u32, height: u32, rgba: [u8; 4]) -> Pixels {
    let mut data = Vec::new();
    for _ in 0..(width as usize * height as usize) {
        data.extend_from_slice(&rgba);
    }
    Pixels { width, height, data }
}

#[test]
fn png_round_trip_restores_pixels() {
    let p = solid(7, 5, [10, 200, 30, 255]);
    assert_eq!(png_round_trip(&p), Some(true));
}

#[test]
fn png_round_trip_on_single_pixel() {
    let p = solid(1, 1, [0, 0, 0, 255]);
    assert_eq!(png_round_trip(&p), Some(true));
}

#[test]
fn jpeg_round_trip_keeps_dimensions() {
    let p = solid(9, 4, [120, 120, 120, 255]);
    assert_eq!(jpeg_round_trip_dims(&p, 80), Some(true));
}

#[test]
fn png_encoding_is_a_real_container() {
    let p = solid(3, 3, [1, 2, 3, 255]);
    let v = encode(&p, &OutputFormat::Png).unwrap();
    assert_ne!(v, p.data);
    assert_eq!(&v[..4], &[0x89, b'P', b'N', b'G']);
}

#[test]
fn jpeg_encoding_is_a_real_container() {
    let p = solid(3, 3, [1, 2, 3, 255]);
    let v = encode(&p, &OutputFormat::Jpeg(90)).unwrap();
    assert_ne!(v, p.data);
    assert_eq!(&v[..2], &[0xFF, 0xD8]);
}

#[test]
fn gif_encoding_is_a_real_container() {
    let p = solid(3, 3, [1, 2, 3, 255]);
    let v = encode(&p, &OutputFormat::Gif).unwrap();
    assert_ne!(v, p.data);
    assert_eq!(&v[..4], b"GIF8");
}

#[test]
fn bmp_encoding_is_a_real_container() {
    let p = solid(3, 3, [1, 2, 3, 255]);
    let v = encode(&p, &OutputFormat::Bmp).unwrap();
    assert_ne!(v, p.data);
    assert_eq!(&v[..2], b"BM");
    assert_eq!(probe_dimensions(&v), Some((3, 3)));
}

#[test]
fn probe_rejects_garbage() {
    assert_eq!(probe_dimensions(&vec![1, 2, 3, 4]), None);
}

#[test]
fn gif_output_too_wide_gives_write_error() {
    // The GIF container caps dimensions at 16 bits; the encoder refuses
    // a wider canvas and the failure surfaces as WriteError.
    let p = solid(70000, 1, [5, 5, 5, 255]);
    let r = encode(&p, &stitchy::format::OutputFormat::Gif);
    assert!(matches!(r, Err(stitchy::error::StitchError::WriteError(_))));
}
