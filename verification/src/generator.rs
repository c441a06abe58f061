//! The generator: from the content of a source file to the bytes of its
//! thumbnail or preview.
//!
//! Standard images are decoded, scaled and encoded with the `image` crate.
//! A RAW file reaches the generator already developed, as an 8-bit RGB raster;
//! the generator checks the raster and treats it like any decoded image from
//! there on. Nothing here reads or writes a file: the caller writes the bytes
//! it gets, and so never leaves a half-written thumbnail behind.

use vstd::prelude::*;
use crate::error::{ErrorView, GlimpseError};
use crate::formats::{classify_file, ImageKind};
use crate::thumbnails::{is_raw_file, PREVIEW_QUALITY, PREVIEW_SIZE, THUMBNAIL_SIZE};

verus! {

// ---------------------------------------------------------------------------
// The `image` crate
// ---------------------------------------------------------------------------

/// `image::DynamicImage`: a decoded image. Opaque to the proofs.
#[verifier::external_type_specification]
#[verifier::external_body]
pub struct ExDynamicImage(image::DynamicImage);

/// `image::ImageFormat`: the name of an encoding. Opaque to the proofs.
#[verifier::external_type_specification]
#[verifier::external_body]
pub struct ExImageFormat(image::ImageFormat);

/// `image::ImageError`: why decoding or encoding failed. Opaque to the proofs.
#[verifier::external_type_specification]
#[verifier::external_body]
pub struct ExImageError(image::ImageError);

// What the `image` crate computes is named below, step by step. Each step is
// a function of what it is given: the same bytes decode to the same image,
// and the same image scales and encodes to the same bytes. The names say no
// more than that; what is known beyond it is stated with each call.

/// Width and height of an image, in pixels.
pub uninterp spec fn image_extent(image: image::DynamicImage) -> (u32, u32);

/// The samples that an image holds: its pixels row by row, channel by channel.
pub uninterp spec fn image_samples(image: image::DynamicImage) -> Seq<u8>;

/// The encoding that the extension of a path stands for, if it stands for one.
pub uninterp spec fn format_named(path: Seq<char>) -> Option<image::ImageFormat>;

/// The image that bytes decode to under an encoding, if they decode.
pub uninterp spec fn decoded(bytes: Seq<u8>, format: image::ImageFormat) -> Option<
    image::DynamicImage,
>;

/// The RGB image of a given size over a buffer of samples, if the buffer
/// holds enough of them.
pub uninterp spec fn raster_image(width: u32, height: u32, pixels: Seq<u8>) -> Option<
    image::DynamicImage,
>;

/// An image scaled to fit a square of side `bound`.
pub uninterp spec fn scaled(image: image::DynamicImage, bound: u32) -> image::DynamicImage;

/// The JPEG encoding of an image at the encoder's standard quality, if the
/// encoder accepts the image.
pub uninterp spec fn jpeg_of(image: image::DynamicImage) -> Option<Seq<u8>>;

/// The JPEG encoding of an image at a given quality, if the encoder accepts
/// the image.
pub uninterp spec fn jpeg_with_quality(image: image::DynamicImage, quality: u8) -> Option<Seq<u8>>;

/// Whether an extent lies within a square of side `bound` and is not empty.
pub open spec fn fits_square(extent: (u32, u32), bound: u32) -> bool {
    1 <= extent.0 <= bound && 1 <= extent.1 <= bound
}

/// Whether `extent` is `source` scaled to the largest size that fits a
/// square of side `bound`: the longer side becomes the bound, and the other
/// side follows in proportion, to within one pixel.
pub open spec fn scaled_in_proportion(source: (u32, u32), extent: (u32, u32), bound: u32) -> bool {
    &&& source.0 >= source.1 ==> {
        &&& extent.0 == bound
        &&& -(source.0 as int) <= extent.1 * source.0 - source.1 * bound <= source.0
    }
    &&& source.1 >= source.0 ==> {
        &&& extent.1 == bound
        &&& -(source.1 as int) <= extent.0 * source.1 - source.0 * bound <= source.1
    }
}

/// Whether `extent` is what scaling an image of extent `source` to fit a
/// square of side `bound` gives: within the square, never empty, and in
/// proportion when the source is not empty itself.
pub open spec fn is_scaled_extent(source: (u32, u32), extent: (u32, u32), bound: u32) -> bool {
    &&& fits_square(extent, bound)
    &&& source.0 >= 1 && source.1 >= 1 ==> scaled_in_proportion(source, extent, bound)
}

/// Whether bytes begin as every JPEG file does, with the start-of-image
/// marker.
pub open spec fn starts_as_jpeg(bytes: Seq<u8>) -> bool {
    bytes.len() >= 2 && bytes[0] == 0xff && bytes[1] == 0xd8
}

/// Whether an image came out of scaling. Such an image holds exactly the
/// samples of its pixels, which is what the encoders ask for.
pub open spec fn is_scaled(image: image::DynamicImage) -> bool {
    exists|source: image::DynamicImage, bound: u32| #[trigger] scaled(source, bound) == image
}

/// The encoding that a path's extension stands for.
///
/// Trusted: calls `image::ImageFormat::from_path`, whose answer depends on
/// the path alone: the result is the named one.
#[verifier::external_body]
fn format_for_path(path: &str) -> (res: Result<image::ImageFormat, image::ImageError>)
    ensures
        match res {
            Ok(format) => format_named(path@) == Some(format),
            Err(_) => format_named(path@) is None,
        },
{
    image::ImageFormat::from_path(path)
}

/// Decodes an image held in memory.
///
/// Trusted: calls `image::load_from_memory_with_format`, whose outcome
/// depends on the bytes and the encoding alone: the result is the named one.
#[verifier::external_body]
fn decode_image(bytes: &[u8], format: image::ImageFormat) -> (res: Result<
    image::DynamicImage,
    image::ImageError,
>)
    ensures
        match res {
            Ok(image) => decoded(bytes@, format) == Some(image),
            Err(_) => decoded(bytes@, format) is None,
        },
{
    image::load_from_memory_with_format(bytes, format)
}

/// The text of an error of the `image` crate.
///
/// Trusted: calls `to_string` on an `image::ImageError`. Nothing is claimed
/// of the result.
#[verifier::external_body]
fn describe_image_error(error: &image::ImageError) -> String {
    error.to_string()
}

/// Wraps an 8-bit RGB raster as an image.
///
/// Trusted: calls `image::RgbImage::from_raw`, which returns `None` exactly
/// when the buffer is too short for `width * height` pixels of three bytes,
/// and otherwise keeps the width, the height and the buffer as they were
/// given.
#[verifier::external_body]
fn rgb_image(width: u32, height: u32, pixels: Vec<u8>) -> (image: Option<image::DynamicImage>)
    ensures
        image == raster_image(width, height, pixels@),
        image is Some <==> 3 * width * height <= pixels@.len(),
        image matches Some(picture) ==> image_samples(picture) == pixels@ && image_extent(picture)
            == (width, height),
{
    match image::RgbImage::from_raw(width, height, pixels) {
        Some(buffer) => Some(image::DynamicImage::ImageRgb8(buffer)),
        None => None,
    }
}

/// Scales an image to fit a square of side `bound`, keeping its proportions.
///
/// Trusted: calls `image::DynamicImage::thumbnail`, which returns a new
/// image of the largest size that fits within the bound at the proportions
/// of the given one, each side rounded to whole pixels and never below one.
/// The bound is kept to what the JPEG encoders can hold.
#[verifier::external_body]
fn scale_to_fit(image: &image::DynamicImage, bound: u32) -> (res: image::DynamicImage)
    requires
        1 <= bound <= 65535,
    ensures
        res == scaled(*image, bound),
        is_scaled_extent(image_extent(*image), image_extent(res), bound),
{
    image.thumbnail(bound, bound)
}

/// Encodes an image as JPEG at the encoder's standard quality.
///
/// Trusted: calls `image::DynamicImage::write_to` on a buffer in memory. The
/// outcome depends on the image alone: the result is the named one, and what
/// is written begins with the start-of-image marker.
#[verifier::external_body]
fn encode_jpeg(image: &image::DynamicImage) -> (res: Result<Vec<u8>, image::ImageError>)
    requires
        is_scaled(*image),
    ensures
        match res {
            Ok(bytes) => jpeg_of(*image) == Some(bytes@) && starts_as_jpeg(bytes@),
            Err(_) => jpeg_of(*image) is None,
        },
{
    let mut out = std::io::Cursor::new(Vec::new());
    match image.write_to(&mut out, image::ImageFormat::Jpeg) {
        Ok(()) => Ok(out.into_inner()),
        Err(e) => Err(e),
    }
}

/// Encodes an image as JPEG at a given quality.
///
/// Trusted: calls `image::DynamicImage::write_with_encoder` with a
/// `JpegEncoder` of that quality, on a buffer in memory. The outcome depends
/// on the image and the quality alone: the result is the named one, and what
/// is written begins with the start-of-image marker.
#[verifier::external_body]
fn encode_jpeg_with_quality(image: &image::DynamicImage, quality: u8) -> (res: Result<
    Vec<u8>,
    image::ImageError,
>)
    requires
        is_scaled(*image),
    ensures
        match res {
            Ok(bytes) => jpeg_with_quality(*image, quality) == Some(bytes@) && starts_as_jpeg(
                bytes@,
            ),
            Err(_) => jpeg_with_quality(*image, quality) is None,
        },
{
    let mut out = Vec::new();
    let encoder = image::codecs::jpeg::JpegEncoder::new_with_quality(&mut out, quality);
    match image.write_with_encoder(encoder) {
        Ok(()) => Ok(out),
        Err(e) => Err(e),
    }
}

// ---------------------------------------------------------------------------
// Sources
// ---------------------------------------------------------------------------

/// A developed RAW file: `width * height` pixels of three bytes each.
#[derive(Debug)]
pub struct RawRaster {
    pub width: usize,
    pub height: usize,
    pub data: Vec<u8>,
}

/// What the generator is given of a source file.
#[derive(Debug)]
pub enum SourceData {
    /// The content of a standard image file.
    Encoded(Vec<u8>),
    /// The outcome of developing a RAW file: the raster, or the reason there
    /// is none.
    Developed(Result<RawRaster, String>),
}

/// Text of the error for a raster that does not hold the pixels it claims.
pub open spec fn raster_failure() -> Seq<char> {
    "Failed to create image from raw data"@
}

/// Text of the error for a preview asked of a standard image.
pub open spec fn preview_not_needed() -> Seq<char> {
    "Preview generation only needed for RAW files"@
}

/// Text of the error for a RAW file that was handed over undeveloped.
pub open spec fn raw_not_developed() -> Seq<char> {
    "RAW file was not developed"@
}

/// Text of the error for a raster handed over for a standard image.
pub open spec fn raster_not_expected() -> Seq<char> {
    "Standard image was not read"@
}

/// Whether a raster holds the pixels its dimensions announce. Dimensions are
/// taken modulo 2^32.
pub open spec fn raster_fits(width: usize, height: usize, len: nat) -> bool {
    3 * (width as u32) * (height as u32) <= len
}

/// The error with which loading fails before any decoding is attempted, if
/// it does: the source does not match the kind of file, the RAW file could
/// not be developed, or its raster is too short.
pub open spec fn load_refusal(path: Seq<char>, source: SourceData) -> Option<ErrorView> {
    if is_raw_file(path) {
        match source {
            SourceData::Encoded(_) => Some(ErrorView::InvalidPath(raw_not_developed())),
            SourceData::Developed(Err(reason)) => Some(ErrorView::RawProcessing(reason@)),
            SourceData::Developed(Ok(raster)) => if raster_fits(
                raster.width,
                raster.height,
                raster.data@.len(),
            ) {
                None
            } else {
                Some(ErrorView::RawProcessing(raster_failure()))
            },
        }
    } else {
        match source {
            SourceData::Encoded(_) => None,
            SourceData::Developed(_) => Some(ErrorView::InvalidPath(raster_not_expected())),
        }
    }
}

/// The error with which generating a preview fails before any decoding.
pub open spec fn preview_refusal(path: Seq<char>, source: SourceData) -> Option<ErrorView> {
    if is_raw_file(path) {
        load_refusal(path, source)
    } else {
        Some(ErrorView::InvalidPath(preview_not_needed()))
    }
}

/// The image that a standard file holds: what its content decodes to under
/// the encoding that its extension stands for.
pub open spec fn standard_image(path: Seq<char>, bytes: Seq<u8>) -> Option<image::DynamicImage> {
    match format_named(path) {
        Some(format) => decoded(bytes, format),
        None => None,
    }
}

/// The image that the raster of a developed RAW file holds. Dimensions are
/// taken modulo 2^32.
pub open spec fn developed_image(raster: RawRaster) -> Option<image::DynamicImage> {
    raster_image(raster.width as u32, raster.height as u32, raster.data@)
}

/// The image that loading arrives at, if it arrives at one.
pub open spec fn loaded(path: Seq<char>, source: SourceData) -> Option<image::DynamicImage> {
    if is_raw_file(path) {
        match source {
            SourceData::Developed(Ok(raster)) => developed_image(raster),
            _ => None,
        }
    } else {
        match source {
            SourceData::Encoded(bytes) => standard_image(path, bytes@),
            _ => None,
        }
    }
}

/// The thumbnail of an image: the image scaled to fit a square of
/// [`THUMBNAIL_SIZE`] pixels and encoded as JPEG.
pub open spec fn thumbnail_of(image: image::DynamicImage) -> Option<Seq<u8>> {
    jpeg_of(scaled(image, THUMBNAIL_SIZE))
}

/// The preview of an image: the image scaled to fit a square of
/// [`PREVIEW_SIZE`] pixels and encoded as JPEG of [`PREVIEW_QUALITY`].
pub open spec fn preview_of(image: image::DynamicImage) -> Option<Seq<u8>> {
    jpeg_with_quality(scaled(image, PREVIEW_SIZE), PREVIEW_QUALITY)
}

/// The thumbnail of a source file, if its image loads and can be encoded.
pub open spec fn thumbnail_jpeg(path: Seq<char>, source: SourceData) -> Option<Seq<u8>> {
    match loaded(path, source) {
        Some(image) => thumbnail_of(image),
        None => None,
    }
}

/// The preview of a source file, if its image loads and can be encoded.
pub open spec fn preview_jpeg(path: Seq<char>, source: SourceData) -> Option<Seq<u8>> {
    match loaded(path, source) {
        Some(image) => preview_of(image),
        None => None,
    }
}

/// Whether `res` is how generation ends, where the library itself refuses
/// with `refusal` and the bytes to produce are `expected`. A refusal comes
/// back as it is. Otherwise the expected bytes come back when there are any,
/// and they begin as a JPEG does; when there are none, because the `image`
/// crate could not decode or encode, an image-processing error comes back.
pub open spec fn generation_outcome(
    refusal: Option<ErrorView>,
    expected: Option<Seq<u8>>,
    res: Result<Vec<u8>, GlimpseError>,
) -> bool {
    match refusal {
        Some(e) => res matches Err(got) && got@ == e,
        None => match res {
            Ok(bytes) => expected == Some(bytes@) && starts_as_jpeg(bytes@),
            Err(got) => got@ is Image && expected is None,
        },
    }
}

// ---------------------------------------------------------------------------
// Loading
// ---------------------------------------------------------------------------

/// Turns an error of the `image` crate into the library's own.
fn image_failure(error: &image::ImageError) -> (e: GlimpseError)
    ensures
        e@ is Image,
{
    GlimpseError::Image(describe_image_error(error))
}

/// Passes on how a step of the `image` crate ended: what the step produced
/// is handed on untouched, and its failure becomes an image-processing error.
pub fn image_outcome<T>(outcome: Result<T, image::ImageError>) -> (res: Result<T, GlimpseError>)
    ensures
        match outcome {
            Ok(value) => res == Ok::<T, GlimpseError>(value),
            Err(_) => res matches Err(e) && e@ is Image,
        },
{
    match outcome {
        Ok(value) => Ok(value),
        Err(e) => Err(image_failure(&e)),
    }
}

/// What kind of source the generator needs for the file at `path`.
pub fn source_kind(path: &str) -> (kind: ImageKind)
    ensures
        kind == (if is_raw_file(path@) {
            ImageKind::Raw
        } else {
            ImageKind::Standard
        }),
{
    match classify_file(path) {
        Some(ImageKind::Raw) => ImageKind::Raw,
        _ => ImageKind::Standard,
    }
}

/// Decodes a standard image. The encoding is taken from the extension of
/// `path`, not guessed from the content. Succeeds exactly when the extension
/// stands for an encoding and the content decodes under it.
pub fn load_standard_image(path: &str, bytes: &[u8]) -> (res: Result<
    image::DynamicImage,
    GlimpseError,
>)
    ensures
        match res {
            Ok(image) => standard_image(path@, bytes@) == Some(image),
            Err(e) => e@ is Image && standard_image(path@, bytes@) is None,
        },
{
    let named = format_for_path(path);
    match image_outcome(named) {
        Ok(format) => {
            let outcome = decode_image(bytes, format);
            image_outcome(outcome)
        },
        Err(e) => Err(e),
    }
}

/// Accepts the outcome of developing a RAW file. A file that could not be
/// developed, and a raster too short for its dimensions, are RAW-processing
/// failures; every other raster is accepted, and the image holds its samples
/// at its dimensions.
pub fn load_raw_image(developed: Result<RawRaster, String>) -> (res: Result<
    image::DynamicImage,
    GlimpseError,
>)
    ensures
        match developed {
            Ok(raster) => if raster_fits(raster.width, raster.height, raster.data@.len()) {
                &&& res matches Ok(image)
                &&& developed_image(raster) == Some(image)
                &&& image_samples(image) == raster.data@
                &&& image_extent(image) == (raster.width as u32, raster.height as u32)
            } else {
                res matches Err(e) && e@ == ErrorView::RawProcessing(raster_failure())
            },
            Err(reason) => res matches Err(e) && e@ == ErrorView::RawProcessing(reason@),
        },
{
    match developed {
        Ok(raster) => {
            let width = #[verifier::truncate]
            (raster.width as u32);
            let height = #[verifier::truncate]
            (raster.height as u32);
            match rgb_image(width, height, raster.data) {
                Some(image) => Ok(image),
                None => Err(
                    GlimpseError::RawProcessing(
                        String::from_str("Failed to create image from raw data"),
                    ),
                ),
            }
        },
        Err(reason) => Err(GlimpseError::RawProcessing(reason)),
    }
}

/// Loads the image at `path` from what the caller read or developed.
pub fn load_image(path: &str, source: SourceData) -> (res: Result<image::DynamicImage, GlimpseError>)
    ensures
        match load_refusal(path@, source) {
            Some(e) => res matches Err(got) && got@ == e,
            None => match res {
                Ok(image) => loaded(path@, source) == Some(image),
                Err(got) => got@ is Image && loaded(path@, source) is None,
            },
        },
        is_raw_file(path@) && load_refusal(path@, source) is None ==> res is Ok,
{
    match source_kind(path) {
        ImageKind::Raw => match source {
            SourceData::Developed(developed) => load_raw_image(developed),
            SourceData::Encoded(_) => Err(
                GlimpseError::InvalidPath(String::from_str("RAW file was not developed")),
            ),
        },
        ImageKind::Standard => match source {
            SourceData::Encoded(bytes) => load_standard_image(path, bytes.as_slice()),
            SourceData::Developed(_) => Err(
                GlimpseError::InvalidPath(String::from_str("Standard image was not read")),
            ),
        },
    }
}

// ---------------------------------------------------------------------------
// Generating
// ---------------------------------------------------------------------------

/// The thumbnail of a decoded image: the image scaled to fit a square of
/// [`THUMBNAIL_SIZE`] pixels, as JPEG. Fails only when the encoder refuses
/// the scaled image.
pub fn render_thumbnail(image: &image::DynamicImage) -> (res: Result<Vec<u8>, GlimpseError>)
    ensures
        is_scaled_extent(
            image_extent(*image),
            image_extent(scaled(*image, THUMBNAIL_SIZE)),
            THUMBNAIL_SIZE,
        ),
        match res {
            Ok(bytes) => thumbnail_of(*image) == Some(bytes@) && starts_as_jpeg(bytes@),
            Err(e) => e@ is Image && thumbnail_of(*image) is None,
        },
{
    let small = scale_to_fit(image, THUMBNAIL_SIZE);
    let outcome = encode_jpeg(&small);
    image_outcome(outcome)
}

/// The preview of a decoded image: the image scaled to fit a square of
/// [`PREVIEW_SIZE`] pixels, as JPEG of [`PREVIEW_QUALITY`]. Fails only when
/// the encoder refuses the scaled image.
pub fn render_preview(image: &image::DynamicImage) -> (res: Result<Vec<u8>, GlimpseError>)
    ensures
        is_scaled_extent(
            image_extent(*image),
            image_extent(scaled(*image, PREVIEW_SIZE)),
            PREVIEW_SIZE,
        ),
        match res {
            Ok(bytes) => preview_of(*image) == Some(bytes@) && starts_as_jpeg(bytes@),
            Err(e) => e@ is Image && preview_of(*image) is None,
        },
{
    let large = scale_to_fit(image, PREVIEW_SIZE);
    let outcome = encode_jpeg_with_quality(&large, PREVIEW_QUALITY);
    image_outcome(outcome)
}

/// Generates the thumbnail of the image at `image_path`: the bytes of a JPEG
/// of the image, scaled to fit a square of [`THUMBNAIL_SIZE`] pixels.
///
/// A source that the library refuses fails with that refusal. Every other
/// source gives its thumbnail, unless the `image` crate cannot decode the
/// content or encode the scaled image. The picture that is encoded is never
/// empty and never wider or higher than the bound; its longer side is the
/// bound, and its other side keeps the proportions of the source to within
/// one pixel.
pub fn generate_thumbnail(image_path: &str, source: SourceData) -> (res: Result<
    Vec<u8>,
    GlimpseError,
>)
    ensures
        generation_outcome(
            load_refusal(image_path@, source),
            thumbnail_jpeg(image_path@, source),
            res,
        ),
        res is Ok ==> (loaded(image_path@, source) matches Some(image) && is_scaled_extent(
            image_extent(image),
            image_extent(scaled(image, THUMBNAIL_SIZE)),
            THUMBNAIL_SIZE,
        )),
{
    match load_image(image_path, source) {
        Ok(image) => render_thumbnail(&image),
        Err(e) => Err(e),
    }
}

/// Generates the preview of the RAW image at `image_path`: the bytes of a
/// JPEG of the image, scaled to fit a square of [`PREVIEW_SIZE`] pixels.
/// Standard images have no preview, since they can be shown as they are.
pub fn generate_preview(image_path: &str, source: SourceData) -> (res: Result<
    Vec<u8>,
    GlimpseError,
>)
    ensures
        generation_outcome(
            preview_refusal(image_path@, source),
            preview_jpeg(image_path@, source),
            res,
        ),
        res is Ok ==> (loaded(image_path@, source) matches Some(image) && is_scaled_extent(
            image_extent(image),
            image_extent(scaled(image, PREVIEW_SIZE)),
            PREVIEW_SIZE,
        )),
{
    match source_kind(image_path) {
        ImageKind::Raw => match load_image(image_path, source) {
            Ok(image) => render_preview(&image),
            Err(e) => Err(e),
        },
        ImageKind::Standard => Err(
            GlimpseError::InvalidPath(
                String::from_str("Preview generation only needed for RAW files"),
            ),
        ),
    }
}

} // verus!
