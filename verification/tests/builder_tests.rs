use stitchy::error::StitchError;
use stitchy::files::ImageFilesBuilder;
use stitchy::format::ImageFormat;
use stitchy::source::resolve_source;

#[test]
fn empty_build_fails_with_empty_input() {
    let r = ImageFilesBuilder::new().build();
    assert!(matches!(r, Err(StitchError::EmptyInput)));
}

#[test]
fn single_source_builds() {
    let s = resolve_source(vec![1, 2, 3], &"image/png".to_string()).unwrap();
    let files = ImageFilesBuilder::new().add(s).build().unwrap();
    assert_eq!(files.count(), 1);
}

#[test]
fn build_keeps_count_and_order() {
    let a = resolve_source(vec![1], &"image/png".to_string()).unwrap();
    let b = resolve_source(vec![2], &"image/jpeg".to_string()).unwrap();
    let files = ImageFilesBuilder::new().add(a).add(b).build().unwrap();
    assert_eq!(files.count(), 2);
    assert_eq!(files.get(0).format, ImageFormat::Png);
    assert_eq!(files.get(1).format, ImageFormat::Jpeg);
    assert_eq!(files.get(0).bytes, vec![1]);
    assert_eq!(files.get(1).bytes, vec![2]);
}

#[test]
fn unsupported_source_mime_rejected() {
    let r = resolve_source(vec![1, 2, 3], &"text/plain".to_string());
    assert!(matches!(r, Err(StitchError::UnsupportedFormat)));
}

#[test]
fn supported_source_mime_accepted() {
    let r = resolve_source(vec![9, 9], &"image/webp".to_string()).unwrap();
    assert_eq!(r.format, ImageFormat::Webp);
    assert_eq!(r.bytes, vec![9, 9]);
}
