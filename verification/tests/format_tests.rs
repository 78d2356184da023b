use stitchy::config::StitchConfig;
use stitchy::error::StitchError;
use stitchy::format::{infer_format, resolve_output_format, ImageFormat, OutputFormat};

#[test]
fn infer_known_mimes() {
    assert_eq!(infer_format(&"image/jpeg".to_string()), Some(ImageFormat::Jpeg));
    assert_eq!(infer_format(&"image/png".to_string()), Some(ImageFormat::Png));
    assert_eq!(infer_format(&"image/gif".to_string()), Some(ImageFormat::Gif));
    assert_eq!(infer_format(&"image/bmp".to_string()), Some(ImageFormat::Bmp));
    assert_eq!(infer_format(&"image/webp".to_string()), Some(ImageFormat::Webp));
}

#[test]
fn infer_unknown_mimes() {
    assert_eq!(infer_format(&"image/tiff".to_string()), None);
    assert_eq!(infer_format(&"text/plain".to_string()), None);
    assert_eq!(infer_format(&"".to_string()), None);
    assert_eq!(infer_format(&"image/PNG".to_string()), None);
}

#[test]
fn output_format_jpeg_carries_quality() {
    let r = resolve_output_format(&"image/jpeg".to_string(), 80);
    assert!(matches!(r, Ok(OutputFormat::Jpeg(80))));
}

#[test]
fn output_format_jpeg_quality_clamped() {
    let r = resolve_output_format(&"image/jpeg".to_string(), 150);
    assert!(matches!(r, Ok(OutputFormat::Jpeg(100))));
}

#[test]
fn output_format_lossless_containers() {
    assert!(matches!(resolve_output_format(&"image/png".to_string(), 50), Ok(OutputFormat::Png)));
    assert!(matches!(resolve_output_format(&"image/gif".to_string(), 50), Ok(OutputFormat::Gif)));
    assert!(matches!(resolve_output_format(&"image/bmp".to_string(), 50), Ok(OutputFormat::Bmp)));
}

#[test]
fn output_format_webp_rejected() {
    let r = resolve_output_format(&"image/webp".to_string(), 50);
    assert!(matches!(r, Err(StitchError::UnsupportedOutputFormat)));
}

#[test]
fn output_format_tiff_rejected() {
    let r = resolve_output_format(&"image/tiff".to_string(), 50);
    assert!(matches!(r, Err(StitchError::UnsupportedOutputFormat)));
}

#[test]
fn config_holds_fields() {
    let c = StitchConfig {
        alignment: stitchy::config::Alignment::Grid,
        width_limit: 10,
        height_limit: 20,
        quality: 90,
    };
    assert_eq!(c.width_limit, 10);
    assert_eq!(c.height_limit, 20);
    assert_eq!(c.quality, 90);
}
