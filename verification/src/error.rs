//! The library's error type and the text each error is shown with.

use vstd::prelude::*;

verus! {

/// Everything that can go wrong inside the library or at its boundary.
#[derive(Debug)]
pub enum GlimpseError {
    /// A path was missing or unreadable, or a write failed.
    Io(String),
    /// The durable store refused or failed an operation.
    Database(String),
    /// A standard image could not be decoded or encoded.
    Image(String),
    /// A camera RAW file could not be decoded or developed.
    RawProcessing(String),
    /// The EXIF data of an image could not be read.
    Exif(String),
    /// A session id is not known to the store.
    SessionNotFound,
    /// No thumbnail is on record for a file.
    ThumbnailNotFound,
    /// An operation needs an open folder and none is open.
    NoActiveSession,
    /// A path cannot be used for what was asked.
    InvalidPath(String),
}

/// Mathematical form of a [`GlimpseError`]: the same variants over `Seq<char>`.
pub enum ErrorView {
    Io(Seq<char>),
    Database(Seq<char>),
    Image(Seq<char>),
    RawProcessing(Seq<char>),
    Exif(Seq<char>),
    SessionNotFound,
    ThumbnailNotFound,
    NoActiveSession,
    InvalidPath(Seq<char>),
}

impl View for GlimpseError {
    type V = ErrorView;

    open spec fn view(&self) -> ErrorView {
        match self {
            GlimpseError::Io(m) => ErrorView::Io(m@),
            GlimpseError::Database(m) => ErrorView::Database(m@),
            GlimpseError::Image(m) => ErrorView::Image(m@),
            GlimpseError::RawProcessing(m) => ErrorView::RawProcessing(m@),
            GlimpseError::Exif(m) => ErrorView::Exif(m@),
            GlimpseError::SessionNotFound => ErrorView::SessionNotFound,
            GlimpseError::ThumbnailNotFound => ErrorView::ThumbnailNotFound,
            GlimpseError::NoActiveSession => ErrorView::NoActiveSession,
            GlimpseError::InvalidPath(m) => ErrorView::InvalidPath(m@),
        }
    }
}

/// The single line of text an error is reported with.
pub open spec fn message_of(e: ErrorView) -> Seq<char> {
    match e {
        ErrorView::Io(m) => "IO error: "@ + m,
        ErrorView::Database(m) => "Database error: "@ + m,
        ErrorView::Image(m) => "Image processing error: "@ + m,
        ErrorView::RawProcessing(m) => "RAW processing error: "@ + m,
        ErrorView::Exif(m) => "EXIF error: "@ + m,
        ErrorView::SessionNotFound => "Session not found"@,
        ErrorView::ThumbnailNotFound => "Thumbnail not found"@,
        ErrorView::NoActiveSession => "No session active"@,
        ErrorView::InvalidPath(m) => "Invalid path: "@ + m,
    }
}

impl GlimpseError {
    /// Human-readable form of the error, as shown to the user.
    pub fn message(&self) -> (text: String)
        ensures
            text@ == message_of(self@),
    {
        match self {
            GlimpseError::Io(m) => crate::text::append_text("IO error: ", m.as_str()),
            GlimpseError::Database(m) => crate::text::append_text("Database error: ", m.as_str()),
            GlimpseError::Image(m) => crate::text::append_text("Image processing error: ", m.as_str()),
            GlimpseError::RawProcessing(m) => crate::text::append_text(
                "RAW processing error: ",
                m.as_str(),
            ),
            GlimpseError::Exif(m) => crate::text::append_text("EXIF error: ", m.as_str()),
            GlimpseError::SessionNotFound => String::from_str("Session not found"),
            GlimpseError::ThumbnailNotFound => String::from_str("Thumbnail not found"),
            GlimpseError::NoActiveSession => String::from_str("No session active"),
            GlimpseError::InvalidPath(m) => crate::text::append_text("Invalid path: ", m.as_str()),
        }
    }
}

} // verus!
