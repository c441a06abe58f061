//! Camera details of an image, read from its EXIF data.
//!
//! The `exif` crate parses the data and renders each field as text. What is
//! shown of a field, and how, is decided here: names lose their quotation
//! marks, numbers gain their unit, and the dimensions and the orientation are
//! taken as numbers.

use vstd::prelude::*;
use crate::error::GlimpseError;
use crate::records::text_option_view;
use crate::text::append_text;

verus! {

broadcast use {
    vstd::seq_lib::group_seq_properties,
    vstd::seq::group_seq_axioms,
};

// ---------------------------------------------------------------------------
// The `exif` crate
// ---------------------------------------------------------------------------

/// `exif::Exif`: the parsed EXIF data of one image. Opaque to the proofs.
#[verifier::external_type_specification]
#[verifier::external_body]
pub struct ExExif(exif::Exif);

/// `exif::Error`: why EXIF data could not be parsed. Opaque to the proofs.
#[verifier::external_type_specification]
#[verifier::external_body]
pub struct ExExifError(exif::Error);

/// Where a field is defined: among the TIFF attributes of the image, or among
/// its EXIF attributes.
#[derive(Clone, Copy, Debug, PartialEq, Eq, Structural)]
pub enum TagContext {
    Tiff,
    Exif,
}

/// A field as the `exif` crate hands it out.
#[derive(Debug)]
pub struct FieldValue {
    /// The value as text, in the form the field's tag calls for.
    pub display: String,
    /// The values, for a field of 32-bit unsigned integers.
    pub longs: Option<Vec<u32>>,
    /// The values, for a field of 16-bit unsigned integers.
    pub shorts: Option<Vec<u16>>,
}

/// Mathematical form of a [`FieldValue`].
pub struct FieldView {
    pub display: Seq<char>,
    pub longs: Option<Seq<u32>>,
    pub shorts: Option<Seq<u16>>,
}

impl View for FieldValue {
    type V = FieldView;

    open spec fn view(&self) -> FieldView {
        FieldView {
            display: self.display@,
            longs: match self.longs {
                Some(v) => Some(v@),
                None => None,
            },
            shorts: match self.shorts {
                Some(v) => Some(v@),
                None => None,
            },
        }
    }
}

/// Mathematical form of a field that may be missing.
pub open spec fn field_view(field: Option<FieldValue>) -> Option<FieldView> {
    match field {
        Some(f) => Some(f@),
        None => None,
    }
}

/// The fields that parsed EXIF data holds for the primary image, each under
/// the context and the number of its tag.
pub uninterp spec fn stored_fields(exif: exif::Exif) -> Map<(TagContext, u16), FieldView>;

/// The field stored under a tag code, if there is one.
pub open spec fn field_at(fields: Map<(TagContext, u16), FieldView>, code: (TagContext, u16)) -> Option<
    FieldView,
> {
    if fields.dom().contains(code) {
        Some(fields[code])
    } else {
        None
    }
}

/// The fields that the content of an image file holds for the primary image,
/// if EXIF data is found in it and can be parsed.
pub uninterp spec fn parsed_fields(content: Seq<u8>) -> Option<Map<(TagContext, u16), FieldView>>;

/// Finds and parses the EXIF data in the content of an image file.
///
/// Trusted: calls `exif::Reader::read_from_container` on a buffer in memory.
/// The outcome depends on the bytes alone: the parsed data holds the named
/// fields, and parsing fails exactly when there are none to name.
#[verifier::external_body]
fn parse_exif(bytes: &[u8]) -> (res: Result<exif::Exif, exif::Error>)
    ensures
        match res {
            Ok(exif) => parsed_fields(bytes@) == Some(stored_fields(exif)),
            Err(_) => parsed_fields(bytes@) is None,
        },
{
    exif::Reader::new().read_from_container(&mut std::io::Cursor::new(bytes))
}

/// The text of an error of the `exif` crate.
///
/// Trusted: calls `to_string` on an `exif::Error`. Nothing is claimed of the
/// result.
#[verifier::external_body]
fn describe_exif_error(error: &exif::Error) -> String {
    error.to_string()
}

/// A field of the primary image, by the number of its tag.
///
/// Trusted: calls `exif::Exif::get_field` and hands out the field's
/// `display_value` as text together with its integer values. The parsed data
/// is a collection of fields keyed by tag; the lookup returns the field kept
/// under the key, or nothing when the key is not there, and changes nothing.
#[verifier::external_body]
fn read_field(exif: &exif::Exif, context: TagContext, number: u16) -> (field: Option<FieldValue>)
    ensures
        field_view(field) == field_at(stored_fields(*exif), (context, number)),
{
    let context = match context {
        TagContext::Tiff => exif::Context::Tiff,
        TagContext::Exif => exif::Context::Exif,
    };
    let field = exif.get_field(exif::Tag(context, number), exif::In::PRIMARY)?;
    let longs = match &field.value {
        exif::Value::Long(v) => Some(v.clone()),
        _ => None,
    };
    let shorts = match &field.value {
        exif::Value::Short(v) => Some(v.clone()),
        _ => None,
    };
    Some(FieldValue { display: field.display_value().to_string(), longs, shorts })
}

// ---------------------------------------------------------------------------
// Tags
// ---------------------------------------------------------------------------

/// The fields that are shown.
#[derive(Clone, Copy, Debug, PartialEq, Eq, Structural)]
pub enum ExifTag {
    Make,
    Model,
    LensModel,
    FocalLength,
    FNumber,
    ExposureTime,
    PhotographicSensitivity,
    ExposureBiasValue,
    DateTimeOriginal,
    PixelXDimension,
    PixelYDimension,
    Orientation,
}

/// Context and number of a tag, as the TIFF and EXIF standards assign them.
pub open spec fn tag_code(tag: ExifTag) -> (TagContext, u16) {
    match tag {
        ExifTag::Make => (TagContext::Tiff, 0x010f),
        ExifTag::Model => (TagContext::Tiff, 0x0110),
        ExifTag::Orientation => (TagContext::Tiff, 0x0112),
        ExifTag::ExposureTime => (TagContext::Exif, 0x829a),
        ExifTag::FNumber => (TagContext::Exif, 0x829d),
        ExifTag::PhotographicSensitivity => (TagContext::Exif, 0x8827),
        ExifTag::DateTimeOriginal => (TagContext::Exif, 0x9003),
        ExifTag::ExposureBiasValue => (TagContext::Exif, 0x9204),
        ExifTag::FocalLength => (TagContext::Exif, 0x920a),
        ExifTag::PixelXDimension => (TagContext::Exif, 0xa002),
        ExifTag::PixelYDimension => (TagContext::Exif, 0xa003),
        ExifTag::LensModel => (TagContext::Exif, 0xa434),
    }
}

/// Context and number of a tag.
pub fn tag_number(tag: ExifTag) -> (code: (TagContext, u16))
    ensures
        code == tag_code(tag),
{
    match tag {
        ExifTag::Make => (TagContext::Tiff, 0x010f),
        ExifTag::Model => (TagContext::Tiff, 0x0110),
        ExifTag::Orientation => (TagContext::Tiff, 0x0112),
        ExifTag::ExposureTime => (TagContext::Exif, 0x829a),
        ExifTag::FNumber => (TagContext::Exif, 0x829d),
        ExifTag::PhotographicSensitivity => (TagContext::Exif, 0x8827),
        ExifTag::DateTimeOriginal => (TagContext::Exif, 0x9003),
        ExifTag::ExposureBiasValue => (TagContext::Exif, 0x9204),
        ExifTag::FocalLength => (TagContext::Exif, 0x920a),
        ExifTag::PixelXDimension => (TagContext::Exif, 0xa002),
        ExifTag::PixelYDimension => (TagContext::Exif, 0xa003),
        ExifTag::LensModel => (TagContext::Exif, 0xa434),
    }
}

// ---------------------------------------------------------------------------
// Quotation marks
// ---------------------------------------------------------------------------

/// Index of the first character that is no quotation mark, or the length of
/// the text when there is none.
pub open spec fn first_kept(s: Seq<char>) -> int
    decreases s.len(),
{
    if s.len() == 0 {
        0
    } else {
        let earlier = first_kept(s.drop_last());
        if earlier < s.len() - 1 {
            earlier
        } else if s.last() != '"' {
            s.len() - 1
        } else {
            s.len() as int
        }
    }
}

/// One past the index of the last character that is no quotation mark, or
/// zero when there is none.
pub open spec fn end_kept(s: Seq<char>) -> int
    decreases s.len(),
{
    if s.len() == 0 {
        0
    } else if s.last() != '"' {
        s.len() as int
    } else {
        end_kept(s.drop_last())
    }
}

/// A text without the quotation marks at its beginning and at its end.
/// Quotation marks inside the text stay.
pub open spec fn unquoted(s: Seq<char>) -> Seq<char> {
    if first_kept(s) >= end_kept(s) {
        Seq::empty()
    } else {
        s.subrange(first_kept(s), end_kept(s))
    }
}

/// What `first_kept` and `end_kept` find: the text between them starts and
/// ends with a character that is no quotation mark, and everything outside
/// is quotation marks.
pub proof fn lemma_kept_range(s: Seq<char>)
    ensures
        0 <= first_kept(s) <= s.len(),
        0 <= end_kept(s) <= s.len(),
        forall|i: int| 0 <= i < first_kept(s) ==> s[i] == '"',
        forall|i: int| end_kept(s) <= i < s.len() ==> s[i] == '"',
        first_kept(s) < s.len() ==> s[first_kept(s)] != '"' && first_kept(s) < end_kept(s),
        end_kept(s) > 0 ==> s[end_kept(s) - 1] != '"',
        first_kept(s) == s.len() ==> end_kept(s) == 0,
    decreases s.len(),
{
    if s.len() > 0 {
        let shorter = s.drop_last();
        lemma_kept_range(shorter);
        assert forall|i: int| 0 <= i < first_kept(s) implies s[i] == '"' by {
            if i < shorter.len() {
                assert(shorter[i] == s[i]);
            }
        }
        assert forall|i: int| end_kept(s) <= i < s.len() implies s[i] == '"' by {
            if i < shorter.len() {
                assert(shorter[i] == s[i]);
            }
        }
        if first_kept(s) < s.len() - 1 {
            assert(shorter[first_kept(s)] == s[first_kept(s)]);
        }
        if end_kept(s) > 0 && s.last() == '"' {
            assert(shorter[end_kept(s) - 1] == s[end_kept(s) - 1]);
        }
    }
}

/// Strips the quotation marks from both ends of a text.
pub fn unquote(text: &str) -> (out: String)
    ensures
        out@ == unquoted(text@),
{
    let total = text.unicode_len();
    let mut first: usize = 0;
    let mut end: usize = 0;
    let mut seen: usize = 0;
    for c in it: text.chars()
        invariant
            it.seq() == text@,
            total == text@.len(),
            seen == it.index(),
            first == first_kept(text@.take(it.index() as int)),
            end == end_kept(text@.take(it.index() as int)),
    {
        proof {
            let next = text@.take(it.index() + 1);
            assert(next.drop_last() =~= text@.take(it.index() as int));
            assert(next.last() == c);
            lemma_kept_range(text@.take(it.index() as int));
        }
        if c != '"' {
            end = seen + 1;
        } else if first == seen {
            first = seen + 1;
        }
        seen += 1;
    }
    assert(text@.take(text@.len() as int) =~= text@);
    proof {
        lemma_kept_range(text@);
    }
    if first >= end {
        String::new()
    } else {
        String::from_str(text.substring_char(first, end))
    }
}

// ---------------------------------------------------------------------------
// What is shown
// ---------------------------------------------------------------------------

/// The camera details of one image.
#[derive(Debug)]
pub struct ExifInfo {
    pub camera_make: Option<String>,
    pub camera_model: Option<String>,
    pub lens_model: Option<String>,
    pub focal_length: Option<String>,
    pub aperture: Option<String>,
    pub shutter_speed: Option<String>,
    pub iso: Option<String>,
    pub exposure_compensation: Option<String>,
    pub date_taken: Option<String>,
    pub width: Option<u32>,
    pub height: Option<u32>,
    pub orientation: Option<u16>,
}

impl Default for ExifInfo {
    fn default() -> (info: Self)
        ensures
            info.camera_make is None,
            info.camera_model is None,
            info.lens_model is None,
            info.focal_length is None,
            info.aperture is None,
            info.shutter_speed is None,
            info.iso is None,
            info.exposure_compensation is None,
            info.date_taken is None,
            info.width is None,
            info.height is None,
            info.orientation is None,
    {
        ExifInfo {
            camera_make: None,
            camera_model: None,
            lens_model: None,
            focal_length: None,
            aperture: None,
            shutter_speed: None,
            iso: None,
            exposure_compensation: None,
            date_taken: None,
            width: None,
            height: None,
            orientation: None,
        }
    }
}

/// The displayed text of a field, if the field is there.
pub open spec fn display_of(field: Option<FieldValue>) -> Option<Seq<char>> {
    match field {
        Some(f) => Some(f.display@),
        None => None,
    }
}

/// A name: the displayed text without the quotation marks around it.
pub open spec fn name_text(field: Option<FieldValue>) -> Option<Seq<char>> {
    match field {
        Some(f) => Some(unquoted(f.display@)),
        None => None,
    }
}

/// The displayed text between a prefix and a suffix.
pub open spec fn framed_text(prefix: Seq<char>, field: Option<FieldValue>, suffix: Seq<char>) -> Option<
    Seq<char>,
> {
    match field {
        Some(f) => Some(prefix + f.display@ + suffix),
        None => None,
    }
}

/// The first value of a field of 32-bit integers; nothing for a field of
/// another type or without values.
pub open spec fn first_long(field: Option<FieldValue>) -> Option<u32> {
    match field {
        Some(f) => match f.longs {
            Some(v) => if v@.len() > 0 {
                Some(v@[0])
            } else {
                None
            },
            None => None,
        },
        None => None,
    }
}

/// The first value of a field of 16-bit integers; nothing for a field of
/// another type or without values.
pub open spec fn first_short(field: Option<FieldValue>) -> Option<u16> {
    match field {
        Some(f) => match f.shorts {
            Some(v) => if v@.len() > 0 {
                Some(v@[0])
            } else {
                None
            },
            None => None,
        },
        None => None,
    }
}

/// The fields of an image that are shown, as they were read.
#[derive(Debug)]
pub struct ExifFields {
    pub make: Option<FieldValue>,
    pub model: Option<FieldValue>,
    pub lens_model: Option<FieldValue>,
    pub focal_length: Option<FieldValue>,
    pub f_number: Option<FieldValue>,
    pub exposure_time: Option<FieldValue>,
    pub sensitivity: Option<FieldValue>,
    pub exposure_bias: Option<FieldValue>,
    pub date_time_original: Option<FieldValue>,
    pub pixel_x: Option<FieldValue>,
    pub pixel_y: Option<FieldValue>,
    pub orientation: Option<FieldValue>,
}

/// Whether `info` shows `fields` as they are meant to be shown: names and
/// the date without quotation marks, the focal length as rendered, the
/// aperture as `f/..`, the shutter speed in seconds, the sensitivity as
/// `ISO ..`, the exposure compensation in `EV`, and the dimensions and the
/// orientation as numbers.
pub open spec fn shows(info: ExifInfo, fields: ExifFields) -> bool {
    &&& text_option_view(info.camera_make) == name_text(fields.make)
    &&& text_option_view(info.camera_model) == name_text(fields.model)
    &&& text_option_view(info.lens_model) == name_text(fields.lens_model)
    &&& text_option_view(info.focal_length) == display_of(fields.focal_length)
    &&& text_option_view(info.aperture) == framed_text("f/"@, fields.f_number, Seq::empty())
    &&& text_option_view(info.shutter_speed) == framed_text(
        Seq::empty(),
        fields.exposure_time,
        "s"@,
    )
    &&& text_option_view(info.iso) == framed_text("ISO "@, fields.sensitivity, Seq::empty())
    &&& text_option_view(info.exposure_compensation) == framed_text(
        Seq::empty(),
        fields.exposure_bias,
        " EV"@,
    )
    &&& text_option_view(info.date_taken) == name_text(fields.date_time_original)
    &&& info.width == first_long(fields.pixel_x)
    &&& info.height == first_long(fields.pixel_y)
    &&& info.orientation == first_short(fields.orientation)
}

fn name_of(field: &Option<FieldValue>) -> (text: Option<String>)
    ensures
        text_option_view(text) == name_text(*field),
{
    match field {
        Some(f) => Some(unquote(f.display.as_str())),
        None => None,
    }
}

fn framed(prefix: &str, field: &Option<FieldValue>, suffix: &str) -> (text: Option<String>)
    ensures
        text_option_view(text) == framed_text(prefix@, *field, suffix@),
{
    match field {
        Some(f) => {
            let mut text = append_text(prefix, f.display.as_str());
            text.append(suffix);
            Some(text)
        },
        None => None,
    }
}

fn long_of(field: &Option<FieldValue>) -> (value: Option<u32>)
    ensures
        value == first_long(*field),
{
    match field {
        Some(f) => match &f.longs {
            Some(v) => if v.len() > 0 {
                Some(v[0])
            } else {
                None
            },
            None => None,
        },
        None => None,
    }
}

fn short_of(field: &Option<FieldValue>) -> (value: Option<u16>)
    ensures
        value == first_short(*field),
{
    match field {
        Some(f) => match &f.shorts {
            Some(v) => if v.len() > 0 {
                Some(v[0])
            } else {
                None
            },
            None => None,
        },
        None => None,
    }
}

/// Puts the fields of an image into the form in which they are shown.
pub fn describe_fields(fields: &ExifFields) -> (info: ExifInfo)
    ensures
        shows(info, *fields),
{
    let info = ExifInfo {
        camera_make: name_of(&fields.make),
        camera_model: name_of(&fields.model),
        lens_model: name_of(&fields.lens_model),
        focal_length: framed("", &fields.focal_length, ""),
        aperture: framed("f/", &fields.f_number, ""),
        shutter_speed: framed("", &fields.exposure_time, "s"),
        iso: framed("ISO ", &fields.sensitivity, ""),
        exposure_compensation: framed("", &fields.exposure_bias, " EV"),
        date_taken: name_of(&fields.date_time_original),
        width: long_of(&fields.pixel_x),
        height: long_of(&fields.pixel_y),
        orientation: short_of(&fields.orientation),
    };
    proof {
        reveal_strlit("");
        if fields.focal_length is Some {
            let d = fields.focal_length->0.display@;
            assert(""@ + d + ""@ =~= d);
        }
        if fields.f_number is Some {
            let d = fields.f_number->0.display@;
            assert("f/"@ + d + ""@ =~= "f/"@ + d + Seq::<char>::empty());
        }
        if fields.exposure_time is Some {
            let d = fields.exposure_time->0.display@;
            assert(""@ + d + "s"@ =~= Seq::<char>::empty() + d + "s"@);
        }
        if fields.sensitivity is Some {
            let d = fields.sensitivity->0.display@;
            assert("ISO "@ + d + ""@ =~= "ISO "@ + d + Seq::<char>::empty());
        }
        if fields.exposure_bias is Some {
            let d = fields.exposure_bias->0.display@;
            assert(""@ + d + " EV"@ =~= Seq::<char>::empty() + d + " EV"@);
        }
    }
    info
}

/// The field of the primary image that a tag stands for: the one stored
/// under the tag's standard context and number, or none when the data holds
/// no such field.
fn field_of(exif: &exif::Exif, tag: ExifTag) -> (field: Option<FieldValue>)
    ensures
        field_view(field) == field_at(stored_fields(*exif), tag_code(tag)),
{
    let (context, number) = tag_number(tag);
    read_field(exif, context, number)
}

/// Whether `fields` are the twelve fields that are shown, as one collection
/// of stored fields holds them: each was looked up under the standard code
/// of its tag.
pub open spec fn read_from(fields: ExifFields, stored: Map<(TagContext, u16), FieldView>) -> bool {
    &&& field_view(fields.make) == field_at(stored, tag_code(ExifTag::Make))
    &&& field_view(fields.model) == field_at(stored, tag_code(ExifTag::Model))
    &&& field_view(fields.lens_model) == field_at(stored, tag_code(ExifTag::LensModel))
    &&& field_view(fields.focal_length) == field_at(stored, tag_code(ExifTag::FocalLength))
    &&& field_view(fields.f_number) == field_at(stored, tag_code(ExifTag::FNumber))
    &&& field_view(fields.exposure_time) == field_at(stored, tag_code(ExifTag::ExposureTime))
    &&& field_view(fields.sensitivity) == field_at(
        stored,
        tag_code(ExifTag::PhotographicSensitivity),
    )
    &&& field_view(fields.exposure_bias) == field_at(stored, tag_code(ExifTag::ExposureBiasValue))
    &&& field_view(fields.date_time_original) == field_at(
        stored,
        tag_code(ExifTag::DateTimeOriginal),
    )
    &&& field_view(fields.pixel_x) == field_at(stored, tag_code(ExifTag::PixelXDimension))
    &&& field_view(fields.pixel_y) == field_at(stored, tag_code(ExifTag::PixelYDimension))
    &&& field_view(fields.orientation) == field_at(stored, tag_code(ExifTag::Orientation))
}

/// Reads the camera details from the content of an image file. Fails, with
/// the parser's reason, exactly when the content holds no EXIF data that can
/// be read; a field that is missing is simply not shown. What is shown are
/// the fields that the content holds under the standard codes of their tags.
pub fn extract_exif(content: &[u8]) -> (res: Result<ExifInfo, GlimpseError>)
    ensures
        match res {
            Ok(info) => parsed_fields(content@) matches Some(stored) && (exists|fields: ExifFields|
                #![trigger shows(info, fields)]
                shows(info, fields) && read_from(fields, stored)),
            Err(e) => e@ is Exif && parsed_fields(content@) is None,
        },
{
    match parse_exif(content) {
        Ok(exif) => {
            let fields = ExifFields {
                make: field_of(&exif, ExifTag::Make),
                model: field_of(&exif, ExifTag::Model),
                lens_model: field_of(&exif, ExifTag::LensModel),
                focal_length: field_of(&exif, ExifTag::FocalLength),
                f_number: field_of(&exif, ExifTag::FNumber),
                exposure_time: field_of(&exif, ExifTag::ExposureTime),
                sensitivity: field_of(&exif, ExifTag::PhotographicSensitivity),
                exposure_bias: field_of(&exif, ExifTag::ExposureBiasValue),
                date_time_original: field_of(&exif, ExifTag::DateTimeOriginal),
                pixel_x: field_of(&exif, ExifTag::PixelXDimension),
                pixel_y: field_of(&exif, ExifTag::PixelYDimension),
                orientation: field_of(&exif, ExifTag::Orientation),
            };
            let info = describe_fields(&fields);
            assert(shows(info, fields) && read_from(fields, stored_fields(exif)));
            Ok(info)
        },
        Err(e) => Err(GlimpseError::Exif(describe_exif_error(&e))),
    }
}

} // verus!
