//! Screenshots for the vision heartbeat: a coarse fingerprint that tells a
//! new scene from cursor blinks, and the JPEG data URL sent to the model.

use std::hash::{DefaultHasher, Hash, Hasher};
use base64::Engine;
use image::codecs::jpeg::JpegEncoder;
use image::{DynamicImage, ImageError, RgbaImage};
use vstd::prelude::*;
use crate::text::{chars_of, push_all, push_str_chars, string_of};

verus! {

#[verifier::external_type_specification]
#[verifier::external_body]
pub struct ExImageError(ImageError);

/// A captured screen: `width` × `height` pixels of four bytes (red, green,
/// blue, alpha), row by row from the top.
pub struct ScreenImage {
    pub width: u32,
    pub height: u32,
    pub rgba: Vec<u8>,
}

impl ScreenImage {
    pub open spec fn wf(&self) -> bool {
        self.rgba@.len() == self.width * self.height * 4
    }
}

/// `image::DynamicImage::thumbnail`: the image scaled to fit `limit` by
/// `limit`, as width, height and pixels.
pub uninterp spec fn thumbnail_pixels(width: u32, height: u32, rgba: Seq<u8>, limit: u32) -> (u32, u32, Seq<u8>);

/// `image::codecs::jpeg::JpegEncoder` at `quality`: the JPEG file of the pixels.
pub uninterp spec fn jpeg_bytes(width: u32, height: u32, rgba: Seq<u8>, quality: u8) -> Seq<u8>;

/// `base64::engine::general_purpose::STANDARD`: the padded base64 text of the bytes.
pub uninterp spec fn base64_standard(bytes: Seq<u8>) -> Seq<char>;

/// `std::hash::DefaultHasher::new()`, fed each triple in order: its `finish`.
/// std documents that every hasher made by `new` starts alike, so equal
/// samples hash equally; the algorithm itself is left unspecified.
pub uninterp spec fn default_hash_of(samples: Seq<(u8, u8, u8)>) -> u64;

/// Scales the image with `DynamicImage::thumbnail(limit, limit)`. The
/// source computes each side as the old side times `limit` over the longer
/// side, rounded and at least 1, so both sides end within `1..=limit`.
#[verifier::external_body]
fn thumbnail(image: &ScreenImage, limit: u32) -> (r: ScreenImage)
    requires
        image.wf(),
        limit >= 1,
    ensures
        (r.width, r.height, r.rgba@) == thumbnail_pixels(image.width, image.height, image.rgba@, limit),
        1 <= r.width <= limit,
        1 <= r.height <= limit,
        r.wf(),
{
    let buffer = RgbaImage::from_raw(image.width, image.height, image.rgba.clone()).unwrap();
    let small = DynamicImage::ImageRgba8(buffer).thumbnail(limit, limit).to_rgba8();
    ScreenImage { width: small.width(), height: small.height(), rgba: small.into_raw() }
}

/// Encodes the image with `JpegEncoder::encode_image`. The source refuses
/// only a side of 0 or above 65535; writing into a `Vec` does not fail.
#[verifier::external_body]
fn encode_jpeg(image: &ScreenImage, quality: u8) -> (r: Result<Vec<u8>, ImageError>)
    requires
        image.wf(),
    ensures
        r is Ok <==> (1 <= image.width <= 65535 && 1 <= image.height <= 65535),
        r matches Ok(bytes) ==> bytes@ == jpeg_bytes(image.width, image.height, image.rgba@, quality),
{
    let buffer = RgbaImage::from_raw(image.width, image.height, image.rgba.clone()).unwrap();
    let mut bytes = Vec::new();
    let result = JpegEncoder::new_with_quality(&mut bytes, quality).encode_image(&DynamicImage::ImageRgba8(buffer));
    result.map(|()| bytes)
}

/// The message of an `image::ImageError`, from its `Display`.
#[verifier::external_body]
fn image_error_message(error: &ImageError) -> String {
    error.to_string()
}

/// `base64::engine::general_purpose::STANDARD.encode`.
#[verifier::external_body]
fn base64_encode(bytes: &Vec<u8>) -> (r: String)
    ensures
        r@ == base64_standard(bytes@),
{
    base64::engine::general_purpose::STANDARD.encode(bytes)
}

/// Hashes the triples, in order, with a `DefaultHasher::new()`.
#[verifier::external_body]
fn hash_samples(samples: &Vec<(u8, u8, u8)>) -> (r: u64)
    ensures
        r == default_hash_of(samples@),
{
    let mut hasher = DefaultHasher::new();
    Hash::hash_slice(samples.as_slice(), &mut hasher);
    hasher.finish()
}

/// `a * b` saturated at `u32::MAX`.
pub open spec fn sat_mul32(a: int, b: int) -> int {
    if a * b > u32::MAX { u32::MAX as int } else { a * b }
}

/// The pixel a fingerprint samples at cell `k` of a 32 by 18 grid spread
/// over the whole image, row by row.
pub open spec fn sample_point(width: u32, height: u32, k: int) -> (u32, u32) {
    let w = if width < 1 { 1 } else { width as int };
    let h = if height < 1 { 1 } else { height as int };
    ((sat_mul32(k % 32, w - 1) / 31) as u32, (sat_mul32(k / 32, h - 1) / 17) as u32)
}

/// The colour of a sampled pixel with each channel in eight steps, so that
/// cursors and blinking carets do not change it.
pub open spec fn sample_colour(image: ScreenImage, k: int) -> (u8, u8, u8) {
    let (x, y) = sample_point(image.width, image.height, k);
    let i = (y * image.width + x) * 4;
    ((image.rgba@[i] / 32) as u8, (image.rgba@[i + 1] / 32) as u8, (image.rgba@[i + 2] / 32) as u8)
}

pub open spec fn sample_colours(image: ScreenImage) -> Seq<(u8, u8, u8)> {
    Seq::new(576, |k: int| sample_colour(image, k))
}

/// The fingerprint of a screenshot.
pub open spec fn fingerprint_of(image: ScreenImage) -> u64 {
    default_hash_of(sample_colours(image))
}

fn scaled(i: u32, extent: u32, parts: u32) -> (r: u32)
    requires
        (parts == 31 && i <= 31) || (parts == 17 && i <= 17),
        extent >= 1,
    ensures
        r == sat_mul32(i as int, extent - 1) / parts as int,
        r <= extent - 1,
{
    let ghost a: int = i as int;
    let ghost b: int = extent - 1;
    let ghost q: int = parts as int;
    assert(a * b <= 31 * 0xffff_ffff) by (nonlinear_arith)
        requires
            0 <= a <= 31,
            0 <= b <= 0xffff_ffff,
    ;
    assert(sat_mul32(a, b) / q <= b) by (nonlinear_arith)
        requires
            0 <= a <= q,
            0 <= b,
            q >= 17,
            sat_mul32(a, b) <= a * b,
            sat_mul32(a, b) >= 0,
    ;
    let p: u64 = (i as u64) * ((extent - 1) as u64);
    let m: u64 = if p > 0xffff_ffff { 0xffff_ffff } else { p };
    (m / (parts as u64)) as u32
}

/// The quantized colours at the 576 sample points, row by row.
pub fn sample_colours_of(image: &ScreenImage) -> (r: Vec<(u8, u8, u8)>)
    requires
        image.wf(),
        image.width >= 1,
        image.height >= 1,
    ensures
        r@ == sample_colours(*image),
{
    let mut r: Vec<(u8, u8, u8)> = Vec::new();
    let mut row: u32 = 0;
    while row < 18
        invariant
            row <= 18,
            image.wf(),
            image.width >= 1,
            image.height >= 1,
            r@.len() == row * 32,
            forall|k: int| 0 <= k < r@.len() ==> #[trigger] r@[k] == sample_colour(*image, k),
        decreases 18 - row,
    {
        let mut column: u32 = 0;
        while column < 32
            invariant
                row < 18,
                column <= 32,
                image.wf(),
                image.width >= 1,
                image.height >= 1,
                r@.len() == row * 32 + column,
                forall|k: int| 0 <= k < r@.len() ==> #[trigger] r@[k] == sample_colour(*image, k),
            decreases 32 - column,
        {
            let x = scaled(column, image.width, 31);
            let y = scaled(row, image.height, 17);
            let ghost k = (row * 32 + column) as int;
            assert(k % 32 == column as int && k / 32 == row as int) by (nonlinear_arith)
                requires
                    k == row * 32 + column,
                    column < 32,
            ;
            let ghost w = image.width as int;
            let ghost h = image.height as int;
            assert((y * w + x) * 4 + 2 < w * h * 4 && 0 <= y * w) by (nonlinear_arith)
                requires
                    0 <= x < w,
                    0 <= y < h,
            ;
            let len = image.rgba.len();
            assert(len == w * h * 4);
            let i: usize = ((y as usize) * (image.width as usize) + (x as usize)) * 4;
            r.push((image.rgba[i] / 32, image.rgba[i + 1] / 32, image.rgba[i + 2] / 32));
            column = column + 1;
        }
        row = row + 1;
    }
    assert(r@ =~= sample_colours(*image));
    r
}

/// The fingerprint of a screenshot: the hash of its quantized sample
/// colours, which changes with the scene on screen and not with a cursor.
pub fn screen_fingerprint(image: &ScreenImage) -> (r: u64)
    requires
        image.wf(),
        image.width >= 1,
        image.height >= 1,
    ensures
        r == fingerprint_of(*image),
{
    hash_samples(&sample_colours_of(image))
}

/// Two screenshots of one size whose sampled pixels agree channel by
/// channel in eight steps have the same fingerprint.
pub proof fn law_fingerprint_ignores_small_changes(a: ScreenImage, b: ScreenImage)
    requires
        a.width == b.width,
        a.height == b.height,
        forall|k: int| 0 <= k < 576 ==> #[trigger] sample_colour(a, k) == sample_colour(b, k),
    ensures
        fingerprint_of(a) == fingerprint_of(b),
{
    assert(sample_colours(a) =~= sample_colours(b));
}

/// The side a screenshot is shrunk to before it is sent.
pub const SCREENSHOT_MAX_SIDE: u32 = 1280;

/// The quality of the JPEG sent to the model.
pub const SCREENSHOT_QUALITY: u8 = 70;

/// The picture sent for a screenshot: shrunk to fit 1280 by 1280 when a
/// side is longer, else as captured.
pub open spec fn sent_pixels(image: ScreenImage) -> (u32, u32, Seq<u8>) {
    if image.width > 1280 || image.height > 1280 {
        thumbnail_pixels(image.width, image.height, image.rgba@, 1280)
    } else {
        (image.width, image.height, image.rgba@)
    }
}

/// The JPEG sent for a screenshot.
pub open spec fn sent_jpeg(image: ScreenImage) -> Seq<u8> {
    let (w, h, px) = sent_pixels(image);
    jpeg_bytes(w, h, px, 70)
}

pub open spec fn jpeg_data_url(jpeg: Seq<u8>) -> Seq<char> {
    "data:image/jpeg;base64,"@ + base64_standard(jpeg)
}

/// The data URL of a JPEG.
fn data_url(jpeg: &Vec<u8>) -> (r: String)
    ensures
        r@ == jpeg_data_url(jpeg@),
{
    let mut out: Vec<char> = Vec::new();
    push_str_chars(&mut out, "data:image/jpeg;base64,");
    push_all(&mut out, &chars_of(base64_encode(jpeg).as_str()));
    string_of(&out)
}

/// A screenshot ready for the model: its JPEG data URL (shrunk to fit 1280
/// by 1280, quality 70) and its fingerprint.
pub fn encode_screenshot(image: ScreenImage) -> (r: Result<(String, u64), String>)
    requires
        image.wf(),
        image.width >= 1,
        image.height >= 1,
    ensures
        r matches Ok((url, fingerprint)) && fingerprint == fingerprint_of(image) && url@ == jpeg_data_url(sent_jpeg(image)),
{
    let fingerprint = screen_fingerprint(&image);
    let sent = if image.width > SCREENSHOT_MAX_SIDE || image.height > SCREENSHOT_MAX_SIDE {
        thumbnail(&image, SCREENSHOT_MAX_SIDE)
    } else {
        image
    };
    match encode_jpeg(&sent, SCREENSHOT_QUALITY) {
        Ok(bytes) => Ok((data_url(&bytes), fingerprint)),
        Err(error) => {
            let mut message: Vec<char> = Vec::new();
            push_str_chars(&mut message, "压缩桌面截图失败: ");
            push_all(&mut message, &chars_of(image_error_message(&error).as_str()));
            Err(string_of(&message))
        },
    }
}

/// The pixels of the picture a provider test sends: two by two of the
/// colour (157, 218, 228), opaque.
pub open spec fn test_pixels() -> Seq<u8> {
    Seq::new(16, |i: int| if i % 4 == 0 { 157u8 } else if i % 4 == 1 { 218u8 } else if i % 4 == 2 { 228u8 } else { 255u8 })
}

/// The data URL of the small picture sent to test a vision model.
pub fn test_image_data_url() -> (r: Result<String, String>)
    ensures
        r matches Ok(url) && url@ == jpeg_data_url(jpeg_bytes(2, 2, test_pixels(), 70)),
{
    let mut rgba: Vec<u8> = Vec::new();
    let mut i: usize = 0;
    while i < 4
        invariant
            i <= 4,
            rgba@ =~= test_pixels().take(4 * i as int),
        decreases 4 - i,
    {
        rgba.push(157);
        rgba.push(218);
        rgba.push(228);
        rgba.push(255);
        i = i + 1;
    }
    assert(rgba@ =~= test_pixels());
    let image = ScreenImage { width: 2, height: 2, rgba };
    match encode_jpeg(&image, SCREENSHOT_QUALITY) {
        Ok(bytes) => Ok(data_url(&bytes)),
        Err(error) => Err(image_error_message(&error)),
    }
}

} // verus!
