use filebase::imaging::{
    assemble_processed, choose_format, extension_for_format, mime_for_format, output_quality,
    process_image,
    validate_dimensions, validate_transformations_json, ImageOutputFormat, ImageProcessingError,
    ImageProcessingPreset, ResizeMode, ResizeOptions, ThumbnailOptions,
};
use filebase::json::JsonValue;
use std::io::Cursor;

fn png(width: u32, height: u32) -> Vec<u8> {
    let img = image::RgbaImage::from_pixel(width, height, image::Rgba([10, 200, 30, 255]));
    let mut out = Cursor::new(Vec::new());
    image::DynamicImage::ImageRgba8(img)
        .write_to(&mut out, image::ImageFormat::Png)
        .unwrap();
    out.into_inner()
}

fn invalid(r: Result<(), ImageProcessingError>) -> String {
    match r {
        Err(ImageProcessingError::InvalidTransformations(m)) => m,
        other => panic!("{:?}", other),
    }
}

fn enabled() -> ImageProcessingPreset {
    ImageProcessingPreset { enabled: true, ..Default::default() }
}

fn get<'a>(v: &'a JsonValue, key: &str) -> &'a JsonValue {
    match v {
        JsonValue::Object(f) => &f.iter().find(|(k, _)| k == key).expect(key).1,
        other => panic!("not an object: {:?}", other),
    }
}

fn num(v: &JsonValue) -> u64 {
    match v {
        JsonValue::Number(n) => n.parse().unwrap(),
        other => panic!("not a number: {:?}", other),
    }
}

fn text(v: &JsonValue) -> &str {
    match v {
        JsonValue::Str(s) => s,
        other => panic!("not a string: {:?}", other),
    }
}

#[test]
fn defaults() {
    let r = ResizeOptions::default();
    assert!(r.width.is_none() && r.height.is_none() && r.mode == ResizeMode::Fit);
    let t = ThumbnailOptions::default();
    assert!(!t.enabled && t.width == 320 && t.height == 320 && t.format.is_none() && t.quality.is_none());
    let p = ImageProcessingPreset::default();
    assert!(!p.enabled && !p.preserve_original && p.resize.is_none());
}

#[test]
fn resize_checks() {
    assert!(validate_dimensions(None).is_ok());
    let ok = ResizeOptions { width: Some(10), height: None, mode: ResizeMode::Fit };
    assert!(validate_dimensions(Some(&ok)).is_ok());
    let zero = ResizeOptions { width: Some(0), height: Some(10), mode: ResizeMode::Fit };
    assert_eq!(invalid(validate_dimensions(Some(&zero))), "resize width and height must be greater than zero");
    let none = ResizeOptions { width: None, height: None, mode: ResizeMode::Fill };
    assert_eq!(invalid(validate_dimensions(Some(&none))), "resize requires width or height");
}

#[test]
fn preset_checks() {
    let mut p = enabled();
    p.thumbnail = Some(ThumbnailOptions { enabled: true, width: 0, ..Default::default() });
    assert_eq!(invalid(validate_transformations_json(&p)), "thumbnail width and height must be greater than zero");
    p.thumbnail = Some(ThumbnailOptions { enabled: false, width: 0, ..Default::default() });
    assert!(validate_transformations_json(&p).is_ok());
}

#[test]
fn formats() {
    assert_eq!(choose_format(Some(ImageOutputFormat::Webp), "image/png", "png"), ImageOutputFormat::Webp);
    assert_eq!(choose_format(None, "image/png", "jpg"), ImageOutputFormat::Png);
    assert_eq!(choose_format(Some(ImageOutputFormat::Original), "image/jpeg", "png"), ImageOutputFormat::Jpeg);
    assert_eq!(choose_format(None, "image/webp", "x"), ImageOutputFormat::Webp);
    assert_eq!(choose_format(None, "application/octet-stream", "jpeg"), ImageOutputFormat::Jpeg);
    assert_eq!(choose_format(None, "application/octet-stream", "png"), ImageOutputFormat::Png);
    assert_eq!(choose_format(None, "application/octet-stream", "webp"), ImageOutputFormat::Webp);
    assert_eq!(choose_format(None, "image/gif", "gif"), ImageOutputFormat::Jpeg);
    assert_eq!(mime_for_format(ImageOutputFormat::Original), "application/octet-stream");
    assert_eq!(mime_for_format(ImageOutputFormat::Jpeg), "image/jpeg");
    assert_eq!(extension_for_format(ImageOutputFormat::Original), "bin");
    assert_eq!(extension_for_format(ImageOutputFormat::Webp), "webp");
    assert_eq!(extension_for_format(ImageOutputFormat::Png), "png");
    assert_eq!(extension_for_format(ImageOutputFormat::Jpeg), "jpg");
}

#[test]
fn qualities() {
    assert_eq!(output_quality(None), 82);
    assert_eq!(output_quality(Some(0)), 1);
    assert_eq!(output_quality(Some(200)), 100);
    assert_eq!(output_quality(Some(55)), 55);
}

#[test]
fn nothing_happens_when_off_or_not_an_image() {
    let bytes = png(4, 2);
    assert!(process_image(&bytes, "image/png", "png", &ImageProcessingPreset::default()).unwrap().is_none());
    assert!(process_image(&bytes, "application/pdf", "pdf", &enabled()).unwrap().is_none());
}

#[test]
fn bad_presets_and_bytes_are_refused() {
    let mut p = enabled();
    p.resize = Some(ResizeOptions { width: None, height: None, mode: ResizeMode::Fit });
    assert!(matches!(
        process_image(&png(2, 2), "image/png", "png", &p),
        Err(ImageProcessingError::InvalidTransformations(m)) if m == "resize requires width or height"
    ));
    let e = process_image(b"not an image", "image/png", "png", &enabled()).err().unwrap();
    assert!(matches!(e, ImageProcessingError::Decode(_)));
    assert!(e.message().starts_with("image decode failed: "));
}

#[test]
fn processes_resizes_and_describes() {
    let bytes = png(40, 20);
    let mut p = enabled();
    p.format = Some(ImageOutputFormat::Webp);
    p.quality = Some(90);
    p.resize = Some(ResizeOptions { width: Some(20), height: None, mode: ResizeMode::Fit });
    p.thumbnail = Some(ThumbnailOptions { enabled: true, width: 8, height: 8, format: Some(ImageOutputFormat::Jpeg), quality: None });
    p.preserve_original = true;
    let out = process_image(&bytes, "image/png", "png", &p).unwrap().unwrap();
    assert_eq!(out.mime_type, "image/webp");
    assert_eq!(out.extension, "webp");
    assert!(out.bytes.starts_with(b"RIFF"));
    let original = out.original.as_ref().unwrap();
    assert_eq!(original.bytes, bytes);
    assert_eq!(original.size, bytes.len() as u64);
    assert_eq!(original.mime_type, "image/png");
    let thumb = out.thumbnail.as_ref().unwrap();
    assert_eq!((thumb.width, thumb.height), (8, 8));
    assert_eq!(thumb.mime_type, "image/jpeg");
    assert_eq!(thumb.extension, "jpg");
    assert_eq!(thumb.size, thumb.bytes.len() as u64);
    assert!(thumb.bytes.starts_with(&[0xff, 0xd8, 0xff]));

    let image = get(&out.metadata, "image");
    let source = get(image, "source");
    assert_eq!(text(get(source, "mimeType")), "image/png");
    assert_eq!(num(get(source, "width")), 40);
    assert_eq!(num(get(source, "height")), 20);
    assert_eq!(num(get(source, "size")), bytes.len() as u64);
    let output = get(image, "output");
    assert_eq!(text(get(output, "extension")), "webp");
    assert_eq!(num(get(output, "width")), 20);
    assert_eq!(num(get(output, "height")), 10);
    assert_eq!(num(get(output, "quality")), 90);
    assert_eq!(num(get(output, "size")), out.bytes.len() as u64);
    let t = get(image, "thumbnail");
    assert_eq!(num(get(t, "width")), 8);
    assert!(matches!(get(image, "preservedOriginal"), JsonValue::Bool(true)));
}

#[test]
fn fill_crops_to_the_box_and_original_format_is_kept() {
    let bytes = png(30, 10);
    let mut p = enabled();
    p.resize = Some(ResizeOptions { width: Some(10), height: Some(10), mode: ResizeMode::Fill });
    let out = process_image(&bytes, "image/png", "png", &p).unwrap().unwrap();
    assert_eq!(out.mime_type, "image/png");
    assert!(out.thumbnail.is_none());
    assert!(out.original.is_none());
    let decoded = image::load_from_memory(&out.bytes).unwrap();
    assert_eq!((decoded.width(), decoded.height()), (10, 10));
    let image = get(&out.metadata, "image");
    assert!(matches!(get(image, "thumbnail"), JsonValue::Null));
    assert!(matches!(get(image, "preservedOriginal"), JsonValue::Bool(false)));
    assert_eq!(num(get(get(image, "output"), "quality")), 82);
}

#[test]
fn error_messages() {
    assert_eq!(
        ImageProcessingError::InvalidTransformations("x".into()).message(),
        "invalid image transformations: x"
    );
    assert_eq!(ImageProcessingError::Encode("y".into()).message(), "image encode failed: y");
}

#[test]
fn assembles_the_result_from_decoded_and_encoded_parts() {
    let mut p = enabled();
    p.format = Some(ImageOutputFormat::Jpeg);
    p.quality = Some(70);
    p.preserve_original = true;
    let source = vec![1u8, 2, 3, 4];
    let out = assemble_processed(&source, "image/png", "png", &p, (400, 300), (200, 150), vec![9u8, 9, 9], None);
    assert_eq!(out.bytes, vec![9u8, 9, 9]);
    assert_eq!(out.mime_type, "image/jpeg");
    assert_eq!(out.extension, "jpg");
    let original = out.original.as_ref().unwrap();
    assert_eq!(original.bytes, source);
    assert_eq!(original.size, 4);
    assert!(out.thumbnail.is_none());
    let image = get(&out.metadata, "image");
    let src = get(image, "source");
    assert_eq!(num(get(src, "width")), 400);
    assert_eq!(num(get(src, "size")), 4);
    let output = get(image, "output");
    assert_eq!(num(get(output, "width")), 200);
    assert_eq!(num(get(output, "height")), 150);
    assert_eq!(num(get(output, "size")), 3);
    assert_eq!(num(get(output, "quality")), 70);
    assert_eq!(text(get(output, "mimeType")), "image/jpeg");
    assert!(matches!(get(image, "thumbnail"), JsonValue::Null));
    assert!(matches!(get(image, "preservedOriginal"), JsonValue::Bool(true)));

    p.preserve_original = false;
    p.format = None;
    let kept = assemble_processed(&source, "image/webp", "webp", &p, (1, 1), (1, 1), vec![], None);
    assert_eq!(kept.mime_type, "image/webp");
    assert!(kept.original.is_none());
}

#[test]
fn encoded_output_is_recognised_as_its_format() {
    let bytes = png(12, 9);
    for (format, mime) in [
        (ImageOutputFormat::Jpeg, "image/jpeg"),
        (ImageOutputFormat::Png, "image/png"),
        (ImageOutputFormat::Webp, "image/webp"),
    ] {
        let mut p = enabled();
        p.format = Some(format);
        let out = process_image(&bytes, "image/png", "png", &p).unwrap().unwrap();
        assert_eq!(filebase::uploads::magic_mime(&out.bytes), Some(mime));
        assert_eq!(out.mime_type, mime);
    }
}

#[test]
fn encoders_refuse_exactly_the_sizes_they_cannot_write() {
    let wide = png(16385, 1);
    let mut p = enabled();
    p.format = Some(ImageOutputFormat::Webp);
    let e = process_image(&wide, "image/png", "png", &p).err().unwrap();
    assert!(matches!(e, ImageProcessingError::Encode(_)));
    p.format = Some(ImageOutputFormat::Jpeg);
    assert!(process_image(&wide, "image/png", "png", &p).unwrap().is_some());
    p.thumbnail = Some(ThumbnailOptions {
        enabled: true,
        width: 16385,
        height: 1,
        format: Some(ImageOutputFormat::Webp),
        quality: None,
    });
    assert!(matches!(
        process_image(&wide, "image/png", "png", &p).err().unwrap(),
        ImageProcessingError::Encode(_)
    ));
}

#[test]
fn output_is_the_encoding_at_the_preset_quality() {
    let bytes = png(16, 16);
    let mut p = enabled();
    p.format = Some(ImageOutputFormat::Jpeg);
    p.quality = Some(30);
    let low = process_image(&bytes, "image/png", "png", &p).unwrap().unwrap();
    p.quality = Some(100);
    let high = process_image(&bytes, "image/png", "png", &p).unwrap().unwrap();
    assert_ne!(low.bytes, high.bytes);
    let again = process_image(&bytes, "image/png", "png", &p).unwrap().unwrap();
    assert_eq!(high.bytes, again.bytes);
}
