use vstd::prelude::*;
use image::{ColorType, DynamicImage, ImageEncoder};
use crate::json::{field_views, lemma_field_views, member, number_json, object, string_json, JsonValue, JsonView};
use crate::text::{chars_of, decimal, has_prefix, slice_bytes, starts_with, str_eq};
use crate::uploads::{bytes_start, spec_magic_mime};

verus! {

/// The formats an image can be written in; `Original` keeps the source's.
#[derive(Debug, Clone, Copy, PartialEq, Eq, Structural)]
pub enum ImageOutputFormat {
    Original,
    Jpeg,
    Png,
    Webp,
}

/// How a resize meets the requested box: inside it, or covering it and cropped.
#[derive(Debug, Clone, Copy, PartialEq, Eq, Structural)]
pub enum ResizeMode {
    Fit,
    Fill,
}

/// A requested resize; a side left out keeps the source's length.
pub struct ResizeOptions {
    pub width: Option<u32>,
    pub height: Option<u32>,
    pub mode: ResizeMode,
}

impl Default for ResizeOptions {
    /// No sides given, fitting inside the box.
    fn default() -> (r: Self)
        ensures
            r.width is None,
            r.height is None,
            r.mode == ResizeMode::Fit,
    {
        ResizeOptions { width: None, height: None, mode: ResizeMode::Fit }
    }
}

/// A requested thumbnail.
pub struct ThumbnailOptions {
    pub enabled: bool,
    pub width: u32,
    pub height: u32,
    pub format: Option<ImageOutputFormat>,
    pub quality: Option<u8>,
}

impl Default for ThumbnailOptions {
    /// Off, 320 by 320, with the image's own format and quality.
    fn default() -> (r: Self)
        ensures
            !r.enabled,
            r.width == 320,
            r.height == 320,
            r.format is None,
            r.quality is None,
    {
        ThumbnailOptions { enabled: false, width: 320, height: 320, format: None, quality: None }
    }
}

/// What an upload preset asks of an image.
pub struct ImageProcessingPreset {
    pub enabled: bool,
    pub format: Option<ImageOutputFormat>,
    pub quality: Option<u8>,
    pub resize: Option<ResizeOptions>,
    pub thumbnail: Option<ThumbnailOptions>,
    pub preserve_original: bool,
}

impl Default for ImageProcessingPreset {
    /// Nothing asked: processing off.
    fn default() -> (r: Self)
        ensures
            !r.enabled,
            r.format is None,
            r.quality is None,
            r.resize is None,
            r.thumbnail is None,
            !r.preserve_original,
    {
        ImageProcessingPreset {
            enabled: false,
            format: None,
            quality: None,
            resize: None,
            thumbnail: None,
            preserve_original: false,
        }
    }
}

/// The source file, kept beside the processed one.
pub struct OriginalImage {
    pub bytes: Vec<u8>,
    pub mime_type: String,
    pub extension: String,
    pub size: u64,
}

/// A thumbnail made from the processed image.
pub struct ThumbnailImage {
    pub bytes: Vec<u8>,
    pub mime_type: String,
    pub extension: String,
    pub width: u32,
    pub height: u32,
    pub size: u64,
}

/// The result of processing an image.
pub struct ProcessedImage {
    pub bytes: Vec<u8>,
    pub mime_type: String,
    pub extension: String,
    pub metadata: JsonValue,
    pub original: Option<OriginalImage>,
    pub thumbnail: Option<ThumbnailImage>,
}

/// Why an image could not be processed.
#[derive(Debug)]
pub enum ImageProcessingError {
    InvalidTransformations(String),
    Decode(String),
    Encode(String),
}

impl ImageProcessingError {
    /// The text that describes the error.
    pub open spec fn text(self) -> Seq<char> {
        match self {
            ImageProcessingError::InvalidTransformations(m) => "invalid image transformations: "@ + m@,
            ImageProcessingError::Decode(m) => "image decode failed: "@ + m@,
            ImageProcessingError::Encode(m) => "image encode failed: "@ + m@,
        }
    }

    /// The text that describes the error.
    pub fn message(&self) -> (r: String)
        ensures
            r@ == self.text(),
    {
        match self {
            ImageProcessingError::InvalidTransformations(m) => crate::text::concat2("invalid image transformations: ", m.as_str()),
            ImageProcessingError::Decode(m) => crate::text::concat2("image decode failed: ", m.as_str()),
            ImageProcessingError::Encode(m) => crate::text::concat2("image encode failed: ", m.as_str()),
        }
    }

    /// This is an invalid-transformations error carrying exactly `msg`.
    pub open spec fn is_invalid(self, msg: Seq<char>) -> bool {
        self matches ImageProcessingError::InvalidTransformations(m) && m@ == msg
    }
}

/// The preset's resize, by value.
pub open spec fn opt_resize(r: Option<&ResizeOptions>) -> Option<ResizeOptions> {
    match r {
        Some(x) => Some(*x),
        None => None,
    }
}

/// What is wrong with a requested resize, if anything: a side of zero, or no side at all.
pub open spec fn resize_fault(resize: Option<ResizeOptions>) -> Option<Seq<char>> {
    match resize {
        None => None,
        Some(r) => if r.width == Some(0u32) || r.height == Some(0u32) {
            Some("resize width and height must be greater than zero"@)
        } else if r.width is None && r.height is None {
            Some("resize requires width or height"@)
        } else {
            None
        },
    }
}

/// Checks a requested resize.
pub fn validate_dimensions(resize: Option<&ResizeOptions>) -> (r: Result<(), ImageProcessingError>)
    ensures
        r is Ok <==> resize_fault(opt_resize(resize)) is None,
        r matches Err(e) ==> resize_fault(opt_resize(resize)) matches Some(m) && e.is_invalid(m),
{
    let resize = match resize {
        None => return Ok(()),
        Some(r) => r,
    };
    let w_zero = match resize.width { Some(w) => w == 0, None => false };
    let h_zero = match resize.height { Some(h) => h == 0, None => false };
    if w_zero || h_zero {
        return Err(ImageProcessingError::InvalidTransformations(
            "resize width and height must be greater than zero".to_owned(),
        ));
    }
    if resize.width.is_none() && resize.height.is_none() {
        return Err(ImageProcessingError::InvalidTransformations(
            "resize requires width or height".to_owned(),
        ));
    }
    Ok(())
}

/// What is wrong with a preset, if anything: its resize, then an enabled
/// thumbnail with a side of zero.
pub open spec fn preset_fault(p: ImageProcessingPreset) -> Option<Seq<char>> {
    match resize_fault(p.resize) {
        Some(m) => Some(m),
        None => match p.thumbnail {
            Some(t) => if t.enabled && (t.width == 0 || t.height == 0) {
                Some("thumbnail width and height must be greater than zero"@)
            } else {
                None
            },
            None => None,
        },
    }
}

/// Checks a preset that has been read from its JSON form.
pub fn validate_transformations_json(preset: &ImageProcessingPreset) -> (r: Result<(), ImageProcessingError>)
    ensures
        r is Ok <==> preset_fault(*preset) is None,
        r matches Err(e) ==> preset_fault(*preset) matches Some(m) && e.is_invalid(m),
{
    validate_dimensions(preset.resize.as_ref())?;
    if let Some(thumbnail) = &preset.thumbnail {
        if thumbnail.enabled && (thumbnail.width == 0 || thumbnail.height == 0) {
            return Err(ImageProcessingError::InvalidTransformations(
                "thumbnail width and height must be greater than zero".to_owned(),
            ));
        }
    }
    Ok(())
}

/// The format an image is written in: the requested one, or for `Original`
/// (or none) the source's, by MIME type and then by extension, JPEG otherwise.
pub open spec fn spec_choose_format(
    requested: Option<ImageOutputFormat>,
    source_mime: Seq<char>,
    source_extension: Seq<char>,
) -> ImageOutputFormat {
    let wanted = match requested {
        Some(f) => f,
        None => ImageOutputFormat::Original,
    };
    if wanted != ImageOutputFormat::Original {
        wanted
    } else if source_mime == "image/jpeg"@ {
        ImageOutputFormat::Jpeg
    } else if source_mime == "image/png"@ {
        ImageOutputFormat::Png
    } else if source_mime == "image/webp"@ {
        ImageOutputFormat::Webp
    } else if source_extension == "jpg"@ || source_extension == "jpeg"@ {
        ImageOutputFormat::Jpeg
    } else if source_extension == "png"@ {
        ImageOutputFormat::Png
    } else if source_extension == "webp"@ {
        ImageOutputFormat::Webp
    } else {
        ImageOutputFormat::Jpeg
    }
}

/// The format an image is written in.
pub fn choose_format(
    requested: Option<ImageOutputFormat>,
    source_mime: &str,
    source_extension: &str,
) -> (r: ImageOutputFormat)
    ensures
        r == spec_choose_format(requested, source_mime@, source_extension@),
        r != ImageOutputFormat::Original,
{
    let wanted = match requested {
        Some(f) => f,
        None => ImageOutputFormat::Original,
    };
    match wanted {
        ImageOutputFormat::Original => {
            if str_eq(source_mime, "image/jpeg") {
                ImageOutputFormat::Jpeg
            } else if str_eq(source_mime, "image/png") {
                ImageOutputFormat::Png
            } else if str_eq(source_mime, "image/webp") {
                ImageOutputFormat::Webp
            } else if str_eq(source_extension, "jpg") || str_eq(source_extension, "jpeg") {
                ImageOutputFormat::Jpeg
            } else if str_eq(source_extension, "png") {
                ImageOutputFormat::Png
            } else if str_eq(source_extension, "webp") {
                ImageOutputFormat::Webp
            } else {
                ImageOutputFormat::Jpeg
            }
        },
        format => format,
    }
}

/// The MIME type of a format.
pub open spec fn spec_mime_for_format(format: ImageOutputFormat) -> Seq<char> {
    match format {
        ImageOutputFormat::Original => "application/octet-stream"@,
        ImageOutputFormat::Jpeg => "image/jpeg"@,
        ImageOutputFormat::Png => "image/png"@,
        ImageOutputFormat::Webp => "image/webp"@,
    }
}

/// The MIME type of a format.
pub fn mime_for_format(format: ImageOutputFormat) -> (r: &'static str)
    ensures
        r@ == spec_mime_for_format(format),
{
    match format {
        ImageOutputFormat::Original => "application/octet-stream",
        ImageOutputFormat::Jpeg => "image/jpeg",
        ImageOutputFormat::Png => "image/png",
        ImageOutputFormat::Webp => "image/webp",
    }
}

/// The file extension of a format.
pub open spec fn spec_extension_for_format(format: ImageOutputFormat) -> Seq<char> {
    match format {
        ImageOutputFormat::Original => "bin"@,
        ImageOutputFormat::Jpeg => "jpg"@,
        ImageOutputFormat::Png => "png"@,
        ImageOutputFormat::Webp => "webp"@,
    }
}

/// The file extension of a format.
pub fn extension_for_format(format: ImageOutputFormat) -> (r: &'static str)
    ensures
        r@ == spec_extension_for_format(format),
{
    match format {
        ImageOutputFormat::Original => "bin",
        ImageOutputFormat::Jpeg => "jpg",
        ImageOutputFormat::Png => "png",
        ImageOutputFormat::Webp => "webp",
    }
}

/// The encoding quality: the requested one, 82 by default, kept within 1 to 100.
pub open spec fn spec_quality(q: Option<u8>) -> u8 {
    let v = match q {
        Some(v) => v,
        None => 82u8,
    };
    if v < 1 { 1 } else if v > 100 { 100 } else { v }
}

/// The encoding quality.
pub fn output_quality(q: Option<u8>) -> (r: u8)
    ensures
        r == spec_quality(q),
        1 <= r <= 100,
{
    let v = match q {
        Some(v) => v,
        None => 82,
    };
    if v < 1 { 1 } else if v > 100 { 100 } else { v }
}

/// A decoded image.
#[verifier::external_type_specification]
#[verifier::external_body]
pub struct ExDynamicImage(image::DynamicImage);

/// An image as a plain value: width, height, the kind of its pixels (the
/// position of its `ColorType` among the ten that `DynamicImage` holds,
/// counting from 0) and its raw pixel bytes as `DynamicImage::as_bytes` gives
/// them. These four fix the image.
pub type ImageValue = (u32, u32, u8, Seq<u8>);

/// What `image::load_from_memory` decodes the bytes to, or `None` when the
/// bytes are not an image it reads.
pub uninterp spec fn decoded_image(bytes: Seq<u8>) -> Option<ImageValue>;

/// The size `DynamicImage::resize` gives an image of the first two sides asked
/// to fit the last two (worked out with plain floating-point division,
/// multiplication and rounding).
pub uninterp spec fn fit_size(width: u32, height: u32, nwidth: u32, nheight: u32) -> (u32, u32);

/// The size `DynamicImage::resize_to_fill` gives an image of the first two
/// sides asked to fill the last two (worked out as for `fit_size`, then
/// cropped).
pub uninterp spec fn fill_size(width: u32, height: u32, nwidth: u32, nheight: u32) -> (u32, u32);

/// The bytes `JpegEncoder` writes for an image (converted to 8-bit RGB) at a quality.
pub uninterp spec fn jpeg_encoding(img: ImageValue, quality: u8) -> Seq<u8>;

/// The bytes `PngEncoder` writes for an image (converted to 8-bit RGBA).
pub uninterp spec fn png_encoding(img: ImageValue) -> Seq<u8>;

/// The bytes the lossless `WebPEncoder` writes for an image (converted to 8-bit RGBA).
pub uninterp spec fn webp_encoding(img: ImageValue) -> Seq<u8>;

/// The width and height of an image value.
pub open spec fn size_of(img: ImageValue) -> (u32, u32) {
    (img.0, img.1)
}

/// The size of the image that `bytes` decode to, if they decode.
pub open spec fn decoded_size(bytes: Seq<u8>) -> Option<(u32, u32)> {
    match decoded_image(bytes) {
        Some(img) => Some(size_of(img)),
        None => None,
    }
}

/// An image with its size, the kind of its pixels and its raw pixel bytes.
pub struct Picture {
    image: DynamicImage,
    width: u32,
    height: u32,
    kind: u8,
    raw: Vec<u8>,
}

impl Picture {
    /// The width and height.
    pub closed spec fn size(&self) -> (u32, u32) {
        (self.width, self.height)
    }

    /// The image as a plain value.
    pub closed spec fn value(&self) -> ImageValue {
        (self.width, self.height, self.kind, self.raw@)
    }

    /// The size is that of the value.
    pub proof fn lemma_size_of_value(&self)
        ensures
            self.size() == size_of(self.value()),
    {
    }

    /// The width and height.
    pub fn dimensions(&self) -> (r: (u32, u32))
        ensures
            r == self.size(),
            r == size_of(self.value()),
    {
        (self.width, self.height)
    }
}

/// Reads an image's width, height, pixel kind (`DynamicImage::color`, by the
/// position of its variant) and raw bytes (`DynamicImage::as_bytes`) and keeps
/// them beside it.
#[verifier::external_body]
fn picture_of(image: DynamicImage) -> Picture {
    let kind: u8 = match image.color() {
        ColorType::L8 => 0, ColorType::La8 => 1, ColorType::Rgb8 => 2, ColorType::Rgba8 => 3,
        ColorType::L16 => 4, ColorType::La16 => 5, ColorType::Rgb16 => 6, ColorType::Rgba16 => 7,
        ColorType::Rgb32F => 8, ColorType::Rgba32F => 9, _ => 255,
    };
    let raw = image.as_bytes().to_vec();
    Picture { width: image.width(), height: image.height(), kind, raw, image }
}

/// Calls `image::load_from_memory`, which guesses the format from the bytes
/// and decodes them. The error is the crate's message; what the bytes decode
/// to, and which fail, is the named result.
#[verifier::external_body]
fn decode(bytes: &[u8]) -> (r: Result<Picture, String>)
    ensures
        r matches Ok(p) ==> decoded_image(bytes@) == Some(p.value()),
        r is Err ==> decoded_image(bytes@) is None,
{
    match image::load_from_memory(bytes) {
        Ok(image) => Ok(picture_of(image)),
        Err(e) => Err(e.to_string()),
    }
}

/// Calls `DynamicImage::resize` with the Lanczos filter: the image scaled,
/// keeping its aspect ratio, to the largest size within the box. The filter
/// uses `f32::sin`, whose precision std leaves open, so only the size is
/// stated, not the pixels.
#[verifier::external_body]
fn resize_fit(p: &Picture, nwidth: u32, nheight: u32) -> (r: Picture)
    ensures
        r.size() == fit_size(p.size().0, p.size().1, nwidth, nheight),
{
    picture_of(p.image.resize(nwidth, nheight, image::imageops::FilterType::Lanczos3))
}

/// Calls `DynamicImage::resize_to_fill` with the Lanczos filter: the image
/// scaled, keeping its aspect ratio, to cover the box, then cropped to it. As
/// for `resize_fit`, only the size is stated, not the pixels.
#[verifier::external_body]
fn resize_fill(p: &Picture, nwidth: u32, nheight: u32) -> (r: Picture)
    ensures
        r.size() == fill_size(p.size().0, p.size().1, nwidth, nheight),
{
    picture_of(p.image.resize_to_fill(nwidth, nheight, image::imageops::FilterType::Lanczos3))
}

/// Writes the image as JPEG at the given quality, through `JpegEncoder`. The
/// encoder refuses an image with a side of 0 or over 65535; any other image is
/// written, and with a `Vec` as the sink nothing else fails. It writes the
/// start-of-image marker and then the first segment's marker before anything
/// else, so written bytes begin `FF D8 FF`; all of them are the named result.
#[verifier::external_body]
fn encode_jpeg(p: &Picture, quality: u8) -> (r: Result<Vec<u8>, String>)
    ensures
        r is Ok <==> encodable(ImageOutputFormat::Jpeg, p.size()),
        r matches Ok(b) ==> bytes_start(b@, jpeg_signature()),
        r matches Ok(b) ==> b@ == jpeg_encoding(p.value(), quality),
{
    let rgb = p.image.to_rgb8();
    let mut out: Vec<u8> = Vec::new();
    let mut encoder = image::codecs::jpeg::JpegEncoder::new_with_quality(&mut out, quality);
    encoder
        .encode(&rgb, rgb.width(), rgb.height(), image::ExtendedColorType::Rgb8)
        .map_err(|e| e.to_string())?;
    Ok(out)
}

/// Writes the image as PNG, through `PngEncoder`. The encoder refuses an
/// image with a side of 0; any other image is written, and with a `Vec` as the
/// sink nothing else fails. It writes the PNG signature first; all the bytes
/// are the named result.
#[verifier::external_body]
fn encode_png(p: &Picture) -> (r: Result<Vec<u8>, String>)
    ensures
        r is Ok <==> encodable(ImageOutputFormat::Png, p.size()),
        r matches Ok(b) ==> bytes_start(b@, png_signature()),
        r matches Ok(b) ==> b@ == png_encoding(p.value()),
{
    let rgba = p.image.to_rgba8();
    let mut out: Vec<u8> = Vec::new();
    image::codecs::png::PngEncoder::new(&mut out)
        .write_image(&rgba, rgba.width(), rgba.height(), image::ExtendedColorType::Rgba8)
        .map_err(|e| e.to_string())?;
    Ok(out)
}

/// Writes the image as lossless WebP, through `WebPEncoder`. The encoder
/// refuses an image with a side of 0 or over 16384; any other image is
/// written, and with a `Vec` as the sink nothing else fails. It writes the
/// RIFF header (`RIFF`, the length, `WEBP`) first; all the bytes are the named
/// result.
#[verifier::external_body]
fn encode_webp(p: &Picture) -> (r: Result<Vec<u8>, String>)
    ensures
        r is Ok <==> encodable(ImageOutputFormat::Webp, p.size()),
        r matches Ok(b) ==> is_riff_webp(b@),
        r matches Ok(b) ==> b@ == webp_encoding(p.value()),
{
    let rgba = p.image.to_rgba8();
    let mut out: Vec<u8> = Vec::new();
    image::codecs::webp::WebPEncoder::new_lossless(&mut out)
        .encode(&rgba, rgba.width(), rgba.height(), image::ExtendedColorType::Rgba8)
        .map_err(|e| e.to_string())?;
    Ok(out)
}

/// The size of an image of the given size after the requested resize: the
/// box takes the image's own length for a side not given.
pub open spec fn resized_size(size: (u32, u32), resize: Option<ResizeOptions>) -> (u32, u32) {
    match resize {
        None => size,
        Some(r) => {
            let w = match r.width { Some(w) => w, None => size.0 };
            let h = match r.height { Some(h) => h, None => size.1 };
            match r.mode {
                ResizeMode::Fit => fit_size(size.0, size.1, w, h),
                ResizeMode::Fill => fill_size(size.0, size.1, w, h),
            }
        },
    }
}

/// Applies the requested resize, if any: the result has the resized size, and
/// without a resize it is the image itself.
pub fn apply_resize(p: Picture, resize: Option<&ResizeOptions>) -> (r: Picture)
    ensures
        r.size() == resized_size(p.size(), opt_resize(resize)),
        resize is None ==> r.value() == p.value(),
{
    let resize = match resize {
        None => return p,
        Some(r) => r,
    };
    let (width, height) = p.dimensions();
    let target_width = match resize.width { Some(w) => w, None => width };
    let target_height = match resize.height { Some(h) => h, None => height };
    match resize.mode {
        ResizeMode::Fit => resize_fit(&p, target_width, target_height),
        ResizeMode::Fill => resize_fill(&p, target_width, target_height),
    }
}

/// Whether the encoder of a format writes an image of the given size: JPEG
/// takes sides from 1 to 65535, WebP from 1 to 16384, PNG any side from 1.
pub open spec fn encodable(format: ImageOutputFormat, size: (u32, u32)) -> bool {
    match format {
        ImageOutputFormat::Jpeg => 1 <= size.0 <= 65535 && 1 <= size.1 <= 65535,
        ImageOutputFormat::Webp => 1 <= size.0 <= 16384 && 1 <= size.1 <= 16384,
        _ => 1 <= size.0 && 1 <= size.1,
    }
}

/// The bytes an image is written as in a format: JPEG at the quality, PNG or
/// lossless WebP.
pub open spec fn encoding(format: ImageOutputFormat, img: ImageValue, quality: u8) -> Seq<u8> {
    match format {
        ImageOutputFormat::Jpeg => jpeg_encoding(img, quality),
        ImageOutputFormat::Png => png_encoding(img),
        _ => webp_encoding(img),
    }
}

/// The leading bytes of every JPEG file.
pub open spec fn jpeg_signature() -> Seq<u8> {
    seq![0xffu8, 0xd8u8, 0xffu8]
}

/// The signature of every PNG file.
pub open spec fn png_signature() -> Seq<u8> {
    seq![0x89u8, 0x50u8, 0x4eu8, 0x47u8, 0x0du8, 0x0au8, 0x1au8, 0x0au8]
}

/// Bytes that open with a RIFF header of the WebP kind.
pub open spec fn is_riff_webp(b: Seq<u8>) -> bool {
    &&& b.len() >= 12
    &&& b.subrange(0, 4) == seq![0x52u8, 0x49u8, 0x46u8, 0x46u8]
    &&& b.subrange(8, 12) == seq![0x57u8, 0x45u8, 0x42u8, 0x50u8]
}

/// Bytes that open with the signature of a format's encoder are recognised as
/// that format.
proof fn lemma_signature_reveals(b: Seq<u8>, format: ImageOutputFormat)
    requires
        format != ImageOutputFormat::Original,
        format == ImageOutputFormat::Jpeg ==> bytes_start(b, jpeg_signature()),
        format == ImageOutputFormat::Png ==> bytes_start(b, png_signature()),
        format == ImageOutputFormat::Webp ==> is_riff_webp(b),
    ensures
        spec_magic_mime(b) == Some(spec_mime_for_format(format)),
{
    match format {
        ImageOutputFormat::Jpeg => {
            assert(b[0] == b.take(3)[0]);
            assert(b[0] == 0xffu8);
            assert(b.len() >= 4 ==> b.take(4)[0] == b[0]);
        },
        ImageOutputFormat::Png => {
            assert(b.take(4) =~= b.take(8).take(4));
            assert(b.take(4) =~= seq![0x89u8, 0x50u8, 0x4eu8, 0x47u8]);
        },
        ImageOutputFormat::Webp => {
            assert(b[0] == b.subrange(0, 4)[0]);
            assert(b[0] == 0x52u8);
            assert(b.take(4)[0] == b[0]);
            assert(b.take(3)[0] == b[0]);
            assert(b.len() >= 6 ==> b.take(6)[0] == b[0]);
            assert(b.take(5)[0] == b[0]);
        },
        ImageOutputFormat::Original => {},
    }
}

/// Writes an image in a format that has been resolved, with the encoder of
/// that format: what is written is recognised, by its leading bytes, as that
/// format. An encoder's failure is reported with its message.
pub fn encode_image(p: &Picture, format: ImageOutputFormat, quality: u8) -> (r: Result<Vec<u8>, ImageProcessingError>)
    requires
        format != ImageOutputFormat::Original,
    ensures
        r is Ok <==> encodable(format, p.size()),
        r matches Err(e) ==> e is Encode,
        r matches Ok(b) ==> b@ == encoding(format, p.value(), quality),
        r matches Ok(b) ==> spec_magic_mime(b@) == Some(spec_mime_for_format(format)),
{
    let out = match format {
        ImageOutputFormat::Jpeg => encode_jpeg(p, quality),
        ImageOutputFormat::Png => encode_png(p),
        _ => encode_webp(p),
    };
    proof {
        if out is Ok {
            lemma_signature_reveals(out->Ok_0@, format);
        }
    }
    match out {
        Ok(bytes) => Ok(bytes),
        Err(m) => Err(ImageProcessingError::Encode(m)),
    }
}

/// The first of two optional formats that is given.
pub open spec fn or_format(a: Option<ImageOutputFormat>, b: Option<ImageOutputFormat>) -> Option<ImageOutputFormat> {
    if a is Some { a } else { b }
}

/// A JSON number for a natural number.
pub open spec fn num(n: nat) -> JsonView {
    JsonView::Number(decimal(n))
}

/// The metadata of a written image: its MIME type, extension, size in bytes,
/// width and height.
pub open spec fn picture_fields(mime: Seq<char>, ext: Seq<char>, size: nat, dims: (u32, u32)) -> Seq<(Seq<char>, JsonView)> {
    seq![
        ("mimeType"@, JsonView::Str(mime)),
        ("extension"@, JsonView::Str(ext)),
        ("size"@, num(size)),
        ("width"@, num(dims.0 as nat)),
        ("height"@, num(dims.1 as nat)),
    ]
}

/// The metadata recorded for a processed image: the source, the output (with
/// its quality), the thumbnail if one was made, and whether the original was
/// kept; all under `image`.
pub open spec fn image_metadata(
    source: Seq<(Seq<char>, JsonView)>,
    output: Seq<(Seq<char>, JsonView)>,
    quality: u8,
    thumbnail: Option<Seq<(Seq<char>, JsonView)>>,
    preserved: bool,
) -> JsonView {
    JsonView::Object(seq![
        ("image"@, JsonView::Object(seq![
            ("source"@, JsonView::Object(source)),
            ("output"@, JsonView::Object(output.push(("quality"@, num(quality as nat))))),
            ("thumbnail"@, match thumbnail {
                Some(t) => JsonView::Object(t),
                None => JsonView::Null,
            }),
            ("preservedOriginal"@, JsonView::Bool(preserved)),
        ])),
    ])
}

/// What processing `bytes`, decoded at `source` size, gives when the image
/// after the resize is `resized` and the thumbnail picture, if one is wanted,
/// is `thumb`: the resized image written in the chosen format at the chosen
/// quality; a thumbnail exactly when one is enabled, written from `thumb` in
/// its own format (else the preset's); the original exactly when it is to be
/// kept; and the metadata describing them.
pub open spec fn describes(
    img: ProcessedImage,
    preset: ImageProcessingPreset,
    bytes: Seq<u8>,
    mime: Seq<char>,
    ext: Seq<char>,
    source: (u32, u32),
    resized: ImageValue,
    thumb: Option<ImageValue>,
) -> bool {
    let format = spec_choose_format(preset.format, mime, ext);
    let quality = spec_quality(preset.quality);
    &&& img.mime_type@ == spec_mime_for_format(format)
    &&& img.extension@ == spec_extension_for_format(format)
    &&& img.bytes@ == encoding(format, resized, quality)
    &&& (if preset.preserve_original {
        img.original matches Some(o) && o.bytes@ == bytes && o.mime_type@ == mime && o.extension@ == ext
            && o.size == bytes.len()
    } else {
        img.original is None
    })
    &&& img.thumbnail is Some <==> thumbnail_wanted(preset) is Some
    &&& (img.thumbnail matches Some(t) ==> thumbnail_wanted(preset) matches Some(opts)
        && thumb matches Some(tv) && describes_thumbnail(t, opts, preset, mime, ext, tv))
    &&& img.metadata@ == image_metadata(
        picture_fields(mime, ext, bytes.len(), source),
        picture_fields(img.mime_type@, img.extension@, img.bytes@.len(), size_of(resized)),
        quality,
        thumbnail_fields(img.thumbnail),
        preset.preserve_original,
    )
}

/// The shapes of the pictures that processing made from a source of the given
/// size: the resized picture has the resized size (and is the source itself
/// without a resize), and the thumbnail picture, present exactly when a
/// thumbnail is wanted, has the size of the resized picture filled to the
/// thumbnail's box. The pixels of a resized picture are not stated.
pub open spec fn shaped(
    preset: ImageProcessingPreset,
    source: ImageValue,
    resized: ImageValue,
    thumb: Option<ImageValue>,
) -> bool {
    &&& size_of(resized) == resized_size(size_of(source), preset.resize)
    &&& preset.resize is None ==> resized == source
    &&& thumb is Some <==> thumbnail_wanted(preset) is Some
    &&& (thumbnail_wanted(preset) matches Some(opts) ==> thumb matches Some(tv) && size_of(tv) == fill_size(
        resized.0,
        resized.1,
        opts.width,
        opts.height,
    ))
}

/// What processing makes of `bytes`, decoded to `source`: the description of
/// some pictures of the shapes that the resizes give.
pub open spec fn processed_from(
    img: ProcessedImage,
    preset: ImageProcessingPreset,
    bytes: Seq<u8>,
    mime: Seq<char>,
    ext: Seq<char>,
    source: ImageValue,
) -> bool {
    exists|resized: ImageValue, thumb: Option<ImageValue>|
        #![trigger describes(img, preset, bytes, mime, ext, size_of(source), resized, thumb)]
        shaped(preset, source, resized, thumb) && describes(img, preset, bytes, mime, ext, size_of(source), resized, thumb)
}

/// The thumbnail options of a preset, when a thumbnail is enabled.
pub open spec fn thumbnail_wanted(preset: ImageProcessingPreset) -> Option<ThumbnailOptions> {
    match preset.thumbnail {
        Some(t) => if t.enabled { Some(t) } else { None },
        None => None,
    }
}

/// The first of two optional qualities that is given.
pub open spec fn or_quality(a: Option<u8>, b: Option<u8>) -> Option<u8> {
    if a is Some { a } else { b }
}

/// The format a thumbnail is written in: its own, else the preset's, resolved
/// against the source.
pub open spec fn thumbnail_format(
    opts: ThumbnailOptions,
    preset: ImageProcessingPreset,
    mime: Seq<char>,
    ext: Seq<char>,
) -> ImageOutputFormat {
    spec_choose_format(or_format(opts.format, preset.format), mime, ext)
}

/// The quality a thumbnail is written at: its own, else the preset's.
pub open spec fn thumbnail_quality(opts: ThumbnailOptions, preset: ImageProcessingPreset) -> u8 {
    spec_quality(or_quality(opts.quality, preset.quality))
}

/// A thumbnail written from the picture `thumb` in its format at its quality.
pub open spec fn describes_thumbnail(
    t: ThumbnailImage,
    opts: ThumbnailOptions,
    preset: ImageProcessingPreset,
    mime: Seq<char>,
    ext: Seq<char>,
    thumb: ImageValue,
) -> bool {
    let tf = thumbnail_format(opts, preset, mime, ext);
    &&& t.mime_type@ == spec_mime_for_format(tf)
    &&& t.extension@ == spec_extension_for_format(tf)
    &&& t.width == opts.width
    &&& t.height == opts.height
    &&& t.bytes@ == encoding(tf, thumb, thumbnail_quality(opts, preset))
    &&& t.size == t.bytes@.len()
}

/// Whether the encoders write the resized image, and its thumbnail when one
/// is wanted, at their sizes and in their formats, for a source of the given
/// size.
pub open spec fn writable(preset: ImageProcessingPreset, mime: Seq<char>, ext: Seq<char>, source: (u32, u32)) -> bool {
    let resized = resized_size(source, preset.resize);
    &&& encodable(spec_choose_format(preset.format, mime, ext), resized)
    &&& (thumbnail_wanted(preset) matches Some(opts) ==> encodable(
        thumbnail_format(opts, preset, mime, ext),
        fill_size(resized.0, resized.1, opts.width, opts.height),
    ))
}

/// The metadata of a thumbnail, if there is one.
pub open spec fn thumbnail_fields(t: Option<ThumbnailImage>) -> Option<Seq<(Seq<char>, JsonView)>> {
    match t {
        Some(t) => Some(picture_fields(t.mime_type@, t.extension@, t.size as nat, (t.width, t.height))),
        None => None,
    }
}

/// The JSON object of a written image's metadata.
fn picture_json(mime: &str, ext: &str, size: u64, width: u32, height: u32) -> (r: Vec<(String, JsonValue)>)
    ensures
        field_views(r@) == picture_fields(mime@, ext@, size as nat, (width, height)),
{
    let r = vec![
        member("mimeType", string_json(mime)),
        member("extension", string_json(ext)),
        member("size", number_json(size)),
        member("width", number_json(width as u64)),
        member("height", number_json(height as u64)),
    ];
    proof {
        lemma_field_views(r@);
        assert(field_views(r@) =~= picture_fields(mime@, ext@, size as nat, (width, height)));
    }
    r
}

/// Writes the thumbnail picture in the thumbnail's format at its quality.
fn encode_thumbnail(
    thumb: &Picture,
    options: &ThumbnailOptions,
    preset: &ImageProcessingPreset,
    source_mime: &str,
    source_extension: &str,
) -> (r: Result<ThumbnailImage, ImageProcessingError>)
    ensures
        r is Ok <==> encodable(thumbnail_format(*options, *preset, source_mime@, source_extension@), thumb.size()),
        r matches Ok(t) ==> describes_thumbnail(t, *options, *preset, source_mime@, source_extension@, thumb.value()),
        r matches Err(e) ==> e is Encode,
{
    let requested = match options.format {
        Some(f) => Some(f),
        None => preset.format,
    };
    let format = choose_format(requested, source_mime, source_extension);
    let wanted_quality = match options.quality {
        Some(q) => Some(q),
        None => preset.quality,
    };
    let quality = output_quality(wanted_quality);
    let bytes = encode_image(thumb, format, quality)?;
    Ok(ThumbnailImage {
        size: bytes.len() as u64,
        bytes,
        mime_type: mime_for_format(format).to_owned(),
        extension: extension_for_format(format).to_owned(),
        width: options.width,
        height: options.height,
    })
}

/// Writes the pictures that processing made and describes the result: the
/// resized picture in the chosen format at the chosen quality and, when a
/// thumbnail is wanted, the thumbnail picture in its own format and quality.
/// It fails, with an encoder error, exactly when an encoder refuses a
/// picture's size.
pub fn encode_processed(
    bytes: &[u8],
    source_mime: &str,
    source_extension: &str,
    preset: &ImageProcessingPreset,
    source: (u32, u32),
    resized: &Picture,
    thumb: Option<&Picture>,
) -> (r: Result<ProcessedImage, ImageProcessingError>)
    requires
        thumb is Some <==> thumbnail_wanted(*preset) is Some,
    ensures
        r is Ok <==> encodable(spec_choose_format(preset.format, source_mime@, source_extension@), resized.size())
            && (thumbnail_wanted(*preset) matches Some(opts) ==> encodable(
            thumbnail_format(opts, *preset, source_mime@, source_extension@),
            thumb->Some_0.size(),
        )),
        r matches Err(e) ==> e is Encode,
        r matches Ok(img) ==> describes(
            img,
            *preset,
            bytes@,
            source_mime@,
            source_extension@,
            source,
            resized.value(),
            match thumb { Some(t) => Some(t.value()), None => None },
        ),
{
    let output_format = choose_format(preset.format, source_mime, source_extension);
    let quality = output_quality(preset.quality);
    let output_bytes = encode_image(resized, output_format, quality)?;
    let thumbnail = match (&preset.thumbnail, thumb) {
        (Some(options), Some(picture)) => if options.enabled {
            Some(encode_thumbnail(picture, options, preset, source_mime, source_extension)?)
        } else {
            None
        },
        _ => None,
    };
    let (width, height) = resized.dimensions();
    let img = assemble_processed(
        bytes,
        source_mime,
        source_extension,
        preset,
        source,
        (width, height),
        output_bytes,
        thumbnail,
    );
    Ok(img)
}

/// Puts together the result of processing an image from what the image
/// library produced: the source's size, the size after the resize, the
/// encoded bytes and the thumbnail, if one was made. The format and quality
/// are the preset's choice; the original is kept when asked; the metadata
/// describes all of it.
pub fn assemble_processed(
    bytes: &[u8],
    source_mime: &str,
    source_extension: &str,
    preset: &ImageProcessingPreset,
    source: (u32, u32),
    resized: (u32, u32),
    output_bytes: Vec<u8>,
    thumbnail: Option<ThumbnailImage>,
) -> (img: ProcessedImage)
    ensures
        ({
            let format = spec_choose_format(preset.format, source_mime@, source_extension@);
            &&& img.bytes == output_bytes
            &&& img.mime_type@ == spec_mime_for_format(format)
            &&& img.extension@ == spec_extension_for_format(format)
            &&& (if preset.preserve_original {
                img.original matches Some(o) && o.bytes@ == bytes@ && o.mime_type@ == source_mime@
                    && o.extension@ == source_extension@ && o.size == bytes@.len()
            } else {
                img.original is None
            })
            &&& img.thumbnail == thumbnail
            &&& img.metadata@ == image_metadata(
                picture_fields(source_mime@, source_extension@, bytes@.len(), source),
                picture_fields(img.mime_type@, img.extension@, img.bytes@.len(), resized),
                spec_quality(preset.quality),
                thumbnail_fields(img.thumbnail),
                preset.preserve_original,
            )
        }),
{
    let output_format = choose_format(preset.format, source_mime, source_extension);
    let quality = output_quality(preset.quality);
    let original = if preset.preserve_original {
        let copy = slice_bytes(bytes, 0, bytes.len());
        assert(copy@ == bytes@);
        Some(OriginalImage {
            bytes: copy,
            mime_type: source_mime.to_owned(),
            extension: source_extension.to_owned(),
            size: bytes.len() as u64,
        })
    } else {
        None
    };

    let source_json = picture_json(source_mime, source_extension, bytes.len() as u64, source.0, source.1);
    let mut output_json = picture_json(
        mime_for_format(output_format),
        extension_for_format(output_format),
        output_bytes.len() as u64,
        resized.0,
        resized.1,
    );
    let ghost output_fields = output_json@;
    let ghost output_fields_view = picture_fields(
        spec_mime_for_format(output_format),
        spec_extension_for_format(output_format),
        output_bytes@.len(),
        resized,
    );
    output_json.push(member("quality", number_json(quality as u64)));
    proof {
        lemma_field_views(output_json@);
        lemma_field_views(output_fields);
        assert(field_views(output_json@) =~= output_fields_view.push(("quality"@, num(quality as nat))));
    }
    let thumbnail_json = match &thumbnail {
        Some(t) => object(picture_json(t.mime_type.as_str(), t.extension.as_str(), t.size, t.width, t.height)),
        None => JsonValue::Null,
    };
    let ghost thumb_view = thumbnail_fields(thumbnail);
    assert(thumbnail_json@ == match thumb_view {
        Some(f) => JsonView::Object(f),
        None => JsonView::Null,
    });
    let source_obj = object(source_json);
    let output_obj = object(output_json);
    let inner = vec![
        member("source", source_obj),
        member("output", output_obj),
        member("thumbnail", thumbnail_json),
        member("preservedOriginal", JsonValue::Bool(preset.preserve_original)),
    ];
    let ghost inner_view = seq![
        ("source"@, JsonView::Object(picture_fields(source_mime@, source_extension@, bytes@.len(), source))),
        ("output"@, JsonView::Object(output_fields_view.push(("quality"@, num(quality as nat))))),
        ("thumbnail"@, match thumb_view {
            Some(f) => JsonView::Object(f),
            None => JsonView::Null,
        }),
        ("preservedOriginal"@, JsonView::Bool(preset.preserve_original)),
    ];
    proof {
        lemma_field_views(inner@);
        assert(field_views(inner@) =~= inner_view);
    }
    let inner_obj = object(inner);
    let outer_members = vec![member("image", inner_obj)];
    proof {
        lemma_field_views(outer_members@);
        assert(field_views(outer_members@) =~= seq![("image"@, JsonView::Object(inner_view))]);
    }
    let metadata = object(outer_members);
    let img = ProcessedImage {
        metadata,
        bytes: output_bytes,
        mime_type: mime_for_format(output_format).to_owned(),
        extension: extension_for_format(output_format).to_owned(),
        original,
        thumbnail,
    };
    img
}

/// The formats that processing writes in: the image in the preset's format
/// when it names one other than `Original`; a thumbnail in its own format when
/// it names one, and otherwise in the preset's format when that names one
/// (other than `Original`).
pub proof fn law_output_formats(
    img: ProcessedImage,
    preset: ImageProcessingPreset,
    bytes: Seq<u8>,
    mime: Seq<char>,
    ext: Seq<char>,
    source: ImageValue,
)
    requires
        processed_from(img, preset, bytes, mime, ext, source),
    ensures
        preset.format is Some && preset.format->Some_0 != ImageOutputFormat::Original ==> img.mime_type@
            == spec_mime_for_format(preset.format->Some_0) && img.extension@ == spec_extension_for_format(
            preset.format->Some_0,
        ),
        img.thumbnail matches Some(t) ==> (preset.thumbnail matches Some(opts) && {
            &&& (opts.format is Some && opts.format->Some_0 != ImageOutputFormat::Original) ==> t.mime_type@
                == spec_mime_for_format(opts.format->Some_0) && t.extension@ == spec_extension_for_format(
                opts.format->Some_0,
            )
            &&& (opts.format is None && preset.format is Some && preset.format->Some_0
                != ImageOutputFormat::Original) ==> t.mime_type@ == spec_mime_for_format(preset.format->Some_0) && t.extension@
                == spec_extension_for_format(preset.format->Some_0)
        }),
{
    let (resized, thumb) = choose|resized: ImageValue, thumb: Option<ImageValue>|
        #![trigger describes(img, preset, bytes, mime, ext, size_of(source), resized, thumb)]
        shaped(preset, source, resized, thumb) && describes(img, preset, bytes, mime, ext, size_of(source), resized, thumb);
    assert(describes(img, preset, bytes, mime, ext, size_of(source), resized, thumb));
}

/// Processes an uploaded image as its preset asks (the preset as read from
/// its JSON form). Nothing is done, and `None` returned, when processing is
/// off or the file is not an image by its MIME type; a faulty preset, bytes
/// that do not decode, or an encoder failure are errors. The result is what
/// `encode_processed` makes of the pictures that the resizes gave back.
pub fn process_image(
    bytes: &[u8],
    source_mime: &str,
    source_extension: &str,
    preset: &ImageProcessingPreset,
) -> (r: Result<Option<ProcessedImage>, ImageProcessingError>)
    ensures
        !preset.enabled || !starts_with(source_mime@, "image/"@) ==> (r matches Ok(o) && o is None),
        preset.enabled && starts_with(source_mime@, "image/"@) && preset_fault(*preset) is Some ==> (
        r matches Err(e) && e.is_invalid(preset_fault(*preset)->Some_0)),
        preset.enabled && starts_with(source_mime@, "image/"@) && preset_fault(*preset) is None
            && decoded_image(bytes@) is None ==> (r matches Err(e) && e is Decode),
        preset.enabled && starts_with(source_mime@, "image/"@) && preset_fault(*preset) is None
            && decoded_image(bytes@) is Some ==> (r is Ok <==> writable(
            *preset,
            source_mime@,
            source_extension@,
            size_of(decoded_image(bytes@)->Some_0),
        )),
        preset.enabled && starts_with(source_mime@, "image/"@) && preset_fault(*preset) is None
            && decoded_image(bytes@) is Some ==> (r matches Err(e) ==> e is Encode),
        preset.enabled && starts_with(source_mime@, "image/"@) && preset_fault(*preset) is None
            && decoded_image(bytes@) is Some ==> (r matches Ok(o) ==> (o matches Some(img) && processed_from(
            img,
            *preset,
            bytes@,
            source_mime@,
            source_extension@,
            decoded_image(bytes@)->Some_0,
        ))),
{
    if !preset.enabled || !has_prefix(&chars_of(source_mime), &chars_of("image/")) {
        return Ok(None);
    }
    validate_transformations_json(preset)?;
    let decoded = match decode(bytes) {
        Ok(p) => p,
        Err(m) => return Err(ImageProcessingError::Decode(m)),
    };
    let ghost src = decoded.value();
    let source = decoded.dimensions();
    let resized = apply_resize(decoded, preset.resize.as_ref());
    let thumb = match &preset.thumbnail {
        Some(options) => if options.enabled {
            Some(resize_fill(&resized, options.width, options.height))
        } else {
            None
        },
        None => None,
    };
    let ghost tv: Option<ImageValue> = if thumb is Some { Some(thumb->Some_0.value()) } else { None };
    proof {
        resized.lemma_size_of_value();
        assert(shaped(*preset, src, resized.value(), tv));
        if thumbnail_wanted(*preset) is Some {
            assert(thumb is Some);
        }
    }
    let out = encode_processed(
        bytes,
        source_mime,
        source_extension,
        preset,
        source,
        &resized,
        match &thumb { Some(t) => Some(t), None => None },
    );
    assert(decoded_image(bytes@) == Some(src));
    assert(source == size_of(src));
    match out {
        Ok(img) => {
            assert(writable(*preset, source_mime@, source_extension@, size_of(src)));
            assert(describes(img, *preset, bytes@, source_mime@, source_extension@, size_of(src), resized.value(), tv));
            assert(processed_from(img, *preset, bytes@, source_mime@, source_extension@, src));
            Ok(Some(img))
        },
        Err(e) => {
            assert(!writable(*preset, source_mime@, source_extension@, size_of(src)));
            Err(e)
        },
    }
}

} // verus!
