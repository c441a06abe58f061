//! The rows of the store: sessions, labels and thumbnail-cache entries, each
//! with its mathematical form.

use vstd::prelude::*;

verus! {

/// Copies an optional text.
pub fn clone_text_option(text: &Option<String>) -> (copy: Option<String>)
    ensures
        text_option_view(copy) == text_option_view(*text),
{
    match text {
        Some(t) => Some(t.clone()),
        None => None,
    }
}

/// Mathematical form of an optional text.
pub open spec fn text_option_view(text: Option<String>) -> Option<Seq<char>> {
    match text {
        Some(t) => Some(t@),
        None => None,
    }
}

// ---------------------------------------------------------------------------
// Session
// ---------------------------------------------------------------------------

/// One opened folder.
#[derive(Debug)]
pub struct Session {
    /// Identifier derived from the folder's path.
    pub id: String,
    /// Absolute path of the folder.
    pub folder_path: String,
    /// When the folder was last opened or its selection last saved.
    pub last_opened: Option<String>,
    /// Position last viewed in the sorted list of images.
    pub last_selected_index: i32,
    /// Number of images found by the last scan.
    pub total_files: i32,
    /// When the folder was first opened.
    pub created_at: String,
}

/// Mathematical form of a [`Session`].
pub struct SessionView {
    pub id: Seq<char>,
    pub folder_path: Seq<char>,
    pub last_opened: Option<Seq<char>>,
    pub last_selected_index: i32,
    pub total_files: i32,
    pub created_at: Seq<char>,
}

impl View for Session {
    type V = SessionView;

    open spec fn view(&self) -> SessionView {
        SessionView {
            id: self.id@,
            folder_path: self.folder_path@,
            last_opened: text_option_view(self.last_opened),
            last_selected_index: self.last_selected_index,
            total_files: self.total_files,
            created_at: self.created_at@,
        }
    }
}

impl DeepView for Session {
    type V = SessionView;

    open spec fn deep_view(&self) -> SessionView {
        self@
    }
}

impl Clone for Session {
    fn clone(&self) -> (copy: Self)
        ensures
            copy@ == self@,
    {
        Session {
            id: self.id.clone(),
            folder_path: self.folder_path.clone(),
            last_opened: clone_text_option(&self.last_opened),
            last_selected_index: self.last_selected_index,
            total_files: self.total_files,
            created_at: self.created_at.clone(),
        }
    }
}

// ---------------------------------------------------------------------------
// Label
// ---------------------------------------------------------------------------

/// The user's decision about one file of one session.
#[derive(Debug)]
pub struct Label {
    pub session_id: String,
    pub filename: String,
    /// The tag, such as `adopted` or `rejected`.
    pub label: Option<String>,
    /// When the tag was last written.
    pub updated_at: String,
}

/// Mathematical form of a [`Label`].
pub struct LabelView {
    pub session_id: Seq<char>,
    pub filename: Seq<char>,
    pub label: Option<Seq<char>>,
    pub updated_at: Seq<char>,
}

impl View for Label {
    type V = LabelView;

    open spec fn view(&self) -> LabelView {
        LabelView {
            session_id: self.session_id@,
            filename: self.filename@,
            label: text_option_view(self.label),
            updated_at: self.updated_at@,
        }
    }
}

impl DeepView for Label {
    type V = LabelView;

    open spec fn deep_view(&self) -> LabelView {
        self@
    }
}

impl Clone for Label {
    fn clone(&self) -> (copy: Self)
        ensures
            copy@ == self@,
    {
        Label {
            session_id: self.session_id.clone(),
            filename: self.filename.clone(),
            label: clone_text_option(&self.label),
            updated_at: self.updated_at.clone(),
        }
    }
}

// ---------------------------------------------------------------------------
// Thumbnail cache entry
// ---------------------------------------------------------------------------

/// Where the thumbnail of one file of one session was written, and what the
/// source looked like at the time.
#[derive(Debug)]
pub struct ThumbnailCacheEntry {
    pub session_id: String,
    pub filename: String,
    /// Location of the generated thumbnail.
    pub cache_path: String,
    /// Modification time of the source when the thumbnail was made.
    pub original_modified: String,
    /// When the entry was first written.
    pub created_at: String,
}

/// Mathematical form of a [`ThumbnailCacheEntry`].
pub struct ThumbnailCacheEntryView {
    pub session_id: Seq<char>,
    pub filename: Seq<char>,
    pub cache_path: Seq<char>,
    pub original_modified: Seq<char>,
    pub created_at: Seq<char>,
}

impl View for ThumbnailCacheEntry {
    type V = ThumbnailCacheEntryView;

    open spec fn view(&self) -> ThumbnailCacheEntryView {
        ThumbnailCacheEntryView {
            session_id: self.session_id@,
            filename: self.filename@,
            cache_path: self.cache_path@,
            original_modified: self.original_modified@,
            created_at: self.created_at@,
        }
    }
}

impl DeepView for ThumbnailCacheEntry {
    type V = ThumbnailCacheEntryView;

    open spec fn deep_view(&self) -> ThumbnailCacheEntryView {
        self@
    }
}

impl Clone for ThumbnailCacheEntry {
    fn clone(&self) -> (copy: Self)
        ensures
            copy@ == self@,
    {
        ThumbnailCacheEntry {
            session_id: self.session_id.clone(),
            filename: self.filename.clone(),
            cache_path: self.cache_path.clone(),
            original_modified: self.original_modified.clone(),
            created_at: self.created_at.clone(),
        }
    }
}

} // verus!
