//! Which files count as images: the extensions of the camera RAW formats and
//! of the standard raster formats, compared without regard to ASCII case.

use vstd::prelude::*;
use crate::text::{lowercase, same_text, to_lowercase};

verus! {

/// How an image file has to be decoded.
#[derive(Clone, Copy, Debug, PartialEq, Eq, Structural)]
pub enum ImageKind {
    /// JPEG or PNG: decoded directly.
    Standard,
    /// Camera sensor data: needs demosaicing and a colour pipeline.
    Raw,
}

/// Lower-case extensions of the camera RAW formats: Nikon, Sony, Canon (two),
/// Fujifilm, Olympus, Panasonic, Pentax, Adobe DNG and Samsung.
pub open spec fn raw_extension(ext: Seq<char>) -> bool {
    ||| ext == "nef"@
    ||| ext == "arw"@
    ||| ext == "cr2"@
    ||| ext == "cr3"@
    ||| ext == "raf"@
    ||| ext == "orf"@
    ||| ext == "rw2"@
    ||| ext == "pef"@
    ||| ext == "dng"@
    ||| ext == "srw"@
}

/// Lower-case extensions of the standard raster formats.
pub open spec fn standard_extension(ext: Seq<char>) -> bool {
    ||| ext == "jpg"@
    ||| ext == "jpeg"@
    ||| ext == "png"@
}

/// The kind of image an extension (in any case) stands for, if any.
pub open spec fn kind_of(ext: Seq<char>) -> Option<ImageKind> {
    if raw_extension(lowercase(ext)) {
        Some(ImageKind::Raw)
    } else if standard_extension(lowercase(ext)) {
        Some(ImageKind::Standard)
    } else {
        None
    }
}

/// The kind of image a file is, going by its extension alone: no extension is
/// no image.
pub open spec fn kind_of_file(ext: Option<Seq<char>>) -> Option<ImageKind> {
    match ext {
        Some(e) => kind_of(e),
        None => None,
    }
}

fn is_lower_raw(ext: &str) -> (r: bool)
    ensures
        r == raw_extension(ext@),
{
    same_text(ext, "nef") || same_text(ext, "arw") || same_text(ext, "cr2") || same_text(
        ext,
        "cr3",
    ) || same_text(ext, "raf") || same_text(ext, "orf") || same_text(ext, "rw2") || same_text(
        ext,
        "pef",
    ) || same_text(ext, "dng") || same_text(ext, "srw")
}

fn is_lower_standard(ext: &str) -> (r: bool)
    ensures
        r == standard_extension(ext@),
{
    same_text(ext, "jpg") || same_text(ext, "jpeg") || same_text(ext, "png")
}

/// Whether `extension` names a camera RAW format.
pub fn is_raw_format(extension: &str) -> (r: bool)
    ensures
        r == raw_extension(lowercase(extension@)),
{
    let lower = to_lowercase(extension);
    is_lower_raw(lower.as_str())
}

/// Whether `extension` names a standard raster format.
pub fn is_standard_format(extension: &str) -> (r: bool)
    ensures
        r == standard_extension(lowercase(extension@)),
{
    let lower = to_lowercase(extension);
    is_lower_standard(lower.as_str())
}

/// Classifies an extension as RAW, standard, or not an image at all.
pub fn classify(extension: &str) -> (kind: Option<ImageKind>)
    ensures
        kind == kind_of(extension@),
{
    let lower = to_lowercase(extension);
    if is_lower_raw(lower.as_str()) {
        Some(ImageKind::Raw)
    } else if is_lower_standard(lower.as_str()) {
        Some(ImageKind::Standard)
    } else {
        None
    }
}

/// Classifies a file by the extension of its name.
pub fn classify_file(name: &str) -> (kind: Option<ImageKind>)
    ensures
        kind == kind_of_file(crate::text::extension_of(name@)),
{
    match crate::text::file_extension(name) {
        Some(ext) => classify(ext.as_str()),
        None => None,
    }
}

} // verus!
