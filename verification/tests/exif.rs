use exif::experimental::Writer;
use exif::{Field, In, Rational, SRational, Tag, Value};
use glimpse::error::GlimpseError;
use glimpse::exif::{
    describe_fields, extract_exif, tag_number, unquote, ExifFields, ExifInfo, ExifTag, FieldValue,
    TagContext,
};
use std::io::Cursor;

fn tiff_with(fields: &[Field]) -> Vec<u8> {
    let mut writer = Writer::new();
    for field in fields {
        writer.push_field(field);
    }
    let mut out = Cursor::new(Vec::new());
    writer.write(&mut out, false).unwrap();
    out.into_inner()
}

fn field(tag: Tag, value: Value) -> Field {
    Field { tag, ifd_num: In::PRIMARY, value }
}

fn text(display: &str) -> Option<FieldValue> {
    Some(FieldValue { display: display.to_string(), longs: None, shorts: None })
}

fn no_fields() -> ExifFields {
    ExifFields {
        make: None,
        model: None,
        lens_model: None,
        focal_length: None,
        f_number: None,
        exposure_time: None,
        sensitivity: None,
        exposure_bias: None,
        date_time_original: None,
        pixel_x: None,
        pixel_y: None,
        orientation: None,
    }
}

#[test]
fn quotation_marks_are_stripped_from_both_ends() {
    assert_eq!(unquote("\"NIKON CORPORATION\""), "NIKON CORPORATION");
    assert_eq!(unquote("\"\"twice\"\""), "twice");
    assert_eq!(unquote("plain"), "plain");
    assert_eq!(unquote("\"left"), "left");
    assert_eq!(unquote("right\""), "right");
    assert_eq!(unquote("in\"side"), "in\"side");
    assert_eq!(unquote("\"in\"side\""), "in\"side");
    assert_eq!(unquote("\""), "");
    assert_eq!(unquote("\"\"\""), "");
    assert_eq!(unquote(""), "");
    assert_eq!(unquote("\"é\""), "é");
    for sample in ["", "\"", "a", "\"a", "a\"", "\"a\"b\"", "\"\"", " \"x\" "] {
        assert_eq!(unquote(sample), sample.trim_matches('"'));
    }
}

#[test]
fn tags_carry_their_standard_numbers() {
    let code = |tag: ExifTag| {
        let (context, number) = tag_number(tag);
        let context = match context {
            TagContext::Tiff => exif::Context::Tiff,
            TagContext::Exif => exif::Context::Exif,
        };
        Tag(context, number)
    };
    assert_eq!(code(ExifTag::Make), Tag::Make);
    assert_eq!(code(ExifTag::Model), Tag::Model);
    assert_eq!(code(ExifTag::LensModel), Tag::LensModel);
    assert_eq!(code(ExifTag::FocalLength), Tag::FocalLength);
    assert_eq!(code(ExifTag::FNumber), Tag::FNumber);
    assert_eq!(code(ExifTag::ExposureTime), Tag::ExposureTime);
    assert_eq!(code(ExifTag::PhotographicSensitivity), Tag::PhotographicSensitivity);
    assert_eq!(code(ExifTag::ExposureBiasValue), Tag::ExposureBiasValue);
    assert_eq!(code(ExifTag::DateTimeOriginal), Tag::DateTimeOriginal);
    assert_eq!(code(ExifTag::PixelXDimension), Tag::PixelXDimension);
    assert_eq!(code(ExifTag::PixelYDimension), Tag::PixelYDimension);
    assert_eq!(code(ExifTag::Orientation), Tag::Orientation);
}

#[test]
fn no_fields_show_nothing() {
    let info = describe_fields(&no_fields());
    assert_eq!(info.camera_make, None);
    assert_eq!(info.aperture, None);
    assert_eq!(info.width, None);
    assert_eq!(info.orientation, None);
    let blank = ExifInfo::default();
    assert_eq!(blank.camera_model, None);
    assert_eq!(blank.height, None);
}

#[test]
fn fields_are_shown_with_their_units() {
    let mut fields = no_fields();
    fields.make = text("\"Canon\"");
    fields.model = text("\"Canon EOS R5\"");
    fields.lens_model = text("\"RF24-70mm F2.8 L IS USM\"");
    fields.focal_length = text("35");
    fields.f_number = text("2.8");
    fields.exposure_time = text("1/250");
    fields.sensitivity = text("400");
    fields.exposure_bias = text("-0.3");
    fields.date_time_original = text("2024-03-09 07:05:00");
    fields.pixel_x = Some(FieldValue { display: "8192".into(), longs: Some(vec![8192, 1]), shorts: None });
    fields.pixel_y = Some(FieldValue { display: "5464".into(), longs: Some(vec![5464]), shorts: None });
    fields.orientation = Some(FieldValue { display: "row 0 at top".into(), longs: None, shorts: Some(vec![6]) });
    let info = describe_fields(&fields);
    assert_eq!(info.camera_make, Some("Canon".to_string()));
    assert_eq!(info.camera_model, Some("Canon EOS R5".to_string()));
    assert_eq!(info.lens_model, Some("RF24-70mm F2.8 L IS USM".to_string()));
    assert_eq!(info.focal_length, Some("35".to_string()));
    assert_eq!(info.aperture, Some("f/2.8".to_string()));
    assert_eq!(info.shutter_speed, Some("1/250s".to_string()));
    assert_eq!(info.iso, Some("ISO 400".to_string()));
    assert_eq!(info.exposure_compensation, Some("-0.3 EV".to_string()));
    assert_eq!(info.date_taken, Some("2024-03-09 07:05:00".to_string()));
    assert_eq!(info.width, Some(8192));
    assert_eq!(info.height, Some(5464));
    assert_eq!(info.orientation, Some(6));
}

#[test]
fn numbers_of_another_type_are_not_shown() {
    let mut fields = no_fields();
    // Dimensions stored as 16-bit values, an orientation stored as 32-bit value.
    fields.pixel_x = Some(FieldValue { display: "640".into(), longs: None, shorts: Some(vec![640]) });
    fields.pixel_y = Some(FieldValue { display: "".into(), longs: Some(Vec::new()), shorts: None });
    fields.orientation = Some(FieldValue { display: "1".into(), longs: Some(vec![1]), shorts: None });
    let info = describe_fields(&fields);
    assert_eq!(info.width, None);
    assert_eq!(info.height, None);
    assert_eq!(info.orientation, None);
}

#[test]
fn exif_is_read_from_the_content_of_a_file() {
    let content = tiff_with(&[
        field(Tag::Make, Value::Ascii(vec![b"NIKON CORPORATION".to_vec()])),
        field(Tag::Model, Value::Ascii(vec![b"NIKON Z 6".to_vec()])),
        field(Tag::Orientation, Value::Short(vec![8])),
        field(Tag::FNumber, Value::Rational(vec![Rational { num: 28, denom: 10 }])),
        field(Tag::ExposureTime, Value::Rational(vec![Rational { num: 1, denom: 250 }])),
        field(Tag::PhotographicSensitivity, Value::Short(vec![400])),
        field(Tag::ExposureBiasValue, Value::SRational(vec![SRational { num: -3, denom: 10 }])),
        field(Tag::FocalLength, Value::Rational(vec![Rational { num: 35, denom: 1 }])),
        field(Tag::DateTimeOriginal, Value::Ascii(vec![b"2024:03:09 07:05:00".to_vec()])),
        field(Tag::PixelXDimension, Value::Long(vec![6048])),
        field(Tag::PixelYDimension, Value::Long(vec![4024])),
        field(Tag::LensModel, Value::Ascii(vec![b"NIKKOR Z 24-70mm f/4 S".to_vec()])),
    ]);
    let info = extract_exif(&content).unwrap();
    assert_eq!(info.camera_make, Some("NIKON CORPORATION".to_string()));
    assert_eq!(info.camera_model, Some("NIKON Z 6".to_string()));
    assert_eq!(info.lens_model, Some("NIKKOR Z 24-70mm f/4 S".to_string()));
    assert_eq!(info.focal_length, Some("35".to_string()));
    assert_eq!(info.aperture, Some("f/2.8".to_string()));
    assert_eq!(info.shutter_speed, Some("1/250s".to_string()));
    assert_eq!(info.iso, Some("ISO 400".to_string()));
    assert_eq!(info.exposure_compensation, Some("-0.3 EV".to_string()));
    assert_eq!(info.date_taken, Some("2024-03-09 07:05:00".to_string()));
    assert_eq!(info.width, Some(6048));
    assert_eq!(info.height, Some(4024));
    assert_eq!(info.orientation, Some(8));
}

#[test]
fn missing_fields_are_not_shown() {
    let content = tiff_with(&[field(Tag::Make, Value::Ascii(vec![b"SONY".to_vec()]))]);
    let info = extract_exif(&content).unwrap();
    assert_eq!(info.camera_make, Some("SONY".to_string()));
    assert_eq!(info.camera_model, None);
    assert_eq!(info.aperture, None);
    assert_eq!(info.width, None);
    assert_eq!(info.orientation, None);
}

#[test]
fn content_without_exif_is_an_exif_error() {
    match extract_exif(b"fake jpg") {
        Err(GlimpseError::Exif(reason)) => assert!(!reason.is_empty()),
        other => panic!("expected an EXIF error, got {:?}", other),
    }
    match extract_exif(&[]) {
        Err(GlimpseError::Exif(_)) => {}
        other => panic!("expected an EXIF error, got {:?}", other),
    }
}

#[test]
fn the_same_content_shows_the_same_details() {
    let content = tiff_with(&[
        field(Tag::Make, Value::Ascii(vec![b"FUJIFILM".to_vec()])),
        field(Tag::Orientation, Value::Short(vec![3])),
    ]);
    let one = extract_exif(&content).unwrap();
    let two = extract_exif(&content).unwrap();
    assert_eq!(one.camera_make, two.camera_make);
    assert_eq!(one.orientation, Some(3));
    assert_eq!(two.orientation, Some(3));
}
