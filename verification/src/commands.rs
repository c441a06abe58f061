//! The operations offered to the user interface.
//!
//! Each operation works on an [`AppState`], which the caller owns and guards.
//! Whatever has to be read from outside (a directory listing, the data
//! directory, the time) is passed in; whatever has to be done outside (writing
//! a row through, copying a file) is handed back.

use vstd::prelude::*;
use crate::cache::{cache_dir_in, no_data_dir, thumbnails_dir};
use crate::config::{update_config, AppConfig, ConfigCell};
use crate::database::{label_write_for, Database, LabelWrite};
use crate::error::{message_of, ErrorView, GlimpseError};
use crate::exif::{extract_exif, parsed_fields, read_from, shows, ExifFields, ExifInfo};
use crate::export::{finish_export, jobs_for, plan_export, successes, ExportJob, ExportResult};
use crate::records::{Label, LabelView, Session, ThumbnailCacheEntry};
use crate::scanner::{
    images_in, is_sorted_form_of, list_images, DirEntry, ImageInfo, ImageInfoView,
};
use crate::session_id::session_id_of;
use crate::storage::{count_for_display, shown_count};
use crate::tables::{
    label_in, labels_after_set, rejected_in, session_at, sessions_after_open,
    sessions_after_select, thumbnail_at, thumbnails_after_set,
};
use crate::thumbnails::ThumbnailResult;
use crate::text::{normalize_path, normalized};

verus! {

/// The state behind the user interface: the store, and the session of the
/// folder that is open, if one is.
#[derive(Debug)]
pub struct AppState {
    pub db: Database,
    pub current_session_id: Option<String>,
}

impl AppState {
    /// The state of a program that has just started: an empty store and no
    /// folder open.
    pub fn new() -> (state: Self)
        ensures
            state.current_session_id is None,
            state.db@.well_formed(),
            state.db@.sessions.len() == 0,
            state.db@.labels.len() == 0,
            state.db@.thumbnails.len() == 0,
    {
        AppState { db: Database::new(), current_session_id: None }
    }

    /// The session of the open folder.
    pub open spec fn current(&self) -> Option<Seq<char>> {
        match self.current_session_id {
            Some(id) => Some(id@),
            None => None,
        }
    }

    /// The identifier of the open folder's session, or an error when no
    /// folder is open.
    pub fn active_session(&self) -> (res: Result<String, GlimpseError>)
        ensures
            match self.current() {
                Some(id) => res matches Ok(got) && got@ == id,
                None => res matches Err(e) && e@ == ErrorView::NoActiveSession,
            },
    {
        match &self.current_session_id {
            Some(id) => Ok(id.clone()),
            None => Err(GlimpseError::NoActiveSession),
        }
    }
}

/// What opening a folder returns to the user interface.
#[derive(Debug)]
pub struct OpenFolderResult {
    pub session_id: String,
    pub images: Vec<ImageInfo>,
    pub labels: Vec<Label>,
    pub last_selected_index: i32,
    pub cache_dir: String,
}

/// The number of images as the store records it: a count beyond the range
/// of the column wraps around.
pub open spec fn file_count(images: nat) -> i32 {
    (images as usize) as i32
}

/// Opens a folder: scans its listing, records the session, makes it the
/// current one, and returns the images together with what the store knows
/// about them: their labels and the position last viewed.
///
/// The only failure is a missing data directory, and it comes after the
/// session was recorded and made current.
pub fn open_folder(
    state: &mut AppState,
    folder_path: &str,
    entries: &Vec<DirEntry>,
    data_dir: &Option<String>,
    now: &str,
) -> (res: Result<OpenFolderResult, GlimpseError>)
    ensures
        final(state).current() == Some(session_id_of(folder_path@)),
        final(state).db@.labels == old(state).db@.labels,
        final(state).db@.thumbnails == old(state).db@.thumbnails,
        final(state).db@.sessions == sessions_after_open(
            old(state).db@.sessions,
            folder_path@,
            file_count(images_in(entries.deep_view()).len()),
            now@,
        ),
        old(state).db@.well_formed() ==> final(state).db@.well_formed(),
        match *data_dir {
            Some(d) => {
                &&& res matches Ok(opened)
                &&& opened.session_id@ == session_id_of(folder_path@)
                &&& is_sorted_form_of(opened.images.deep_view(), images_in(entries.deep_view()))
                &&& opened.labels.deep_view() == old(state).db@.labels.filter(
                    label_in(session_id_of(folder_path@)),
                )
                &&& session_at(final(state).db@.sessions, session_id_of(folder_path@)) matches Some(
                    s,
                ) && s.last_selected_index == opened.last_selected_index
                &&& opened.cache_dir@ == normalized(
                    thumbnails_dir(d@, session_id_of(folder_path@)),
                )
            },
            None => res matches Err(e) && e@ == ErrorView::InvalidPath(no_data_dir()),
        },
{
    let images = list_images(entries);
    let total_files = #[verifier::truncate]
    (images.len() as i32);
    assert(total_files == file_count(images_in(entries.deep_view()).len()));
    let session = state.db.get_or_create_session(folder_path, total_files, now);
    let last_selected_index = session.last_selected_index;
    state.current_session_id = Some(session.id.clone());
    let labels = state.db.get_all_labels(session.id.as_str());
    let cache_dir = match cache_dir_in(data_dir, session.id.as_str()) {
        Ok(dir) => dir,
        Err(e) => {
            return Err(e);
        },
    };
    Ok(
        OpenFolderResult {
            session_id: session.id,
            images,
            labels,
            last_selected_index,
            cache_dir: normalize_path(cache_dir.as_str()),
        },
    )
}

/// Tags a file of the open folder, or clears its tag. Fails, changing
/// nothing, when no folder is open.
pub fn set_label(state: &mut AppState, filename: &str, label: Option<&str>, now: &str) -> (res: Result<
    LabelWrite,
    GlimpseError,
>)
    ensures
        final(state).current() == old(state).current(),
        final(state).db@.sessions == old(state).db@.sessions,
        final(state).db@.thumbnails == old(state).db@.thumbnails,
        old(state).db@.well_formed() ==> final(state).db@.well_formed(),
        match old(state).current() {
            Some(id) => {
                &&& res matches Ok(write) && write@ == label_write_for(
                    id,
                    filename@,
                    match label {
                        Some(tag) => Some(tag@),
                        None => None,
                    },
                    now@,
                )
                &&& final(state).db@.labels == labels_after_set(
                    old(state).db@.labels,
                    id,
                    filename@,
                    match label {
                        Some(tag) => Some(tag@),
                        None => None,
                    },
                    now@,
                )
            },
            None => {
                &&& res matches Err(e) && e@ == ErrorView::NoActiveSession
                &&& final(state).db@.labels == old(state).db@.labels
            },
        },
{
    match state.active_session() {
        Ok(id) => Ok(state.db.set_label(id.as_str(), filename, label, now)),
        Err(e) => Err(e),
    }
}

/// Saves the position last viewed in the open folder. Fails, changing
/// nothing, when no folder is open. Returns the session as it now stands, for
/// writing through; `None` when the store does not know the session.
pub fn save_selection(state: &mut AppState, index: i32, now: &str) -> (res: Result<
    Option<Session>,
    GlimpseError,
>)
    ensures
        final(state).current() == old(state).current(),
        final(state).db@.labels == old(state).db@.labels,
        final(state).db@.thumbnails == old(state).db@.thumbnails,
        old(state).db@.well_formed() ==> final(state).db@.well_formed(),
        match old(state).current() {
            Some(id) => {
                &&& res is Ok
                &&& final(state).db@.sessions == sessions_after_select(
                    old(state).db@.sessions,
                    id,
                    index,
                    now@,
                )
                &&& match res->Ok_0 {
                    Some(s) => session_at(final(state).db@.sessions, id) == Some(s@),
                    None => session_at(old(state).db@.sessions, id) is None,
                }
            },
            None => {
                &&& res matches Err(e) && e@ == ErrorView::NoActiveSession
                &&& final(state).db@.sessions == old(state).db@.sessions
            },
        },
{
    match state.active_session() {
        Ok(id) => Ok(state.db.update_last_selected_index(id.as_str(), index, now)),
        Err(e) => Err(e),
    }
}

/// Puts the thumbnail of an image on record once it is there: the entry
/// holds where the thumbnail lies and what the source's modification time
/// was. A failed image leaves no entry and changes nothing. Returns the entry
/// as it now stands, for writing through.
pub fn record_thumbnail(
    state: &mut AppState,
    session_id: &str,
    image: &ImageInfo,
    result: &ThumbnailResult,
    now: &str,
) -> (entry: Option<ThumbnailCacheEntry>)
    ensures
        final(state).current() == old(state).current(),
        final(state).db@.sessions == old(state).db@.sessions,
        final(state).db@.labels == old(state).db@.labels,
        old(state).db@.well_formed() ==> final(state).db@.well_formed(),
        final(state).db@.thumbnails == (if result.success {
            thumbnails_after_set(
                old(state).db@.thumbnails,
                session_id@,
                image.filename@,
                result.thumbnail_path@,
                image.modified_at@,
                now@,
            )
        } else {
            old(state).db@.thumbnails
        }),
        match entry {
            Some(e) => result.success && thumbnail_at(
                final(state).db@.thumbnails,
                session_id@,
                image.filename@,
            ) == Some(e@),
            None => !result.success,
        },
{
    if result.success {
        Some(
            state.db.set_thumbnail_cache(
                session_id,
                image.filename.as_str(),
                result.thumbnail_path.as_str(),
                image.modified_at.as_str(),
                now,
            ),
        )
    } else {
        None
    }
}

/// Where the thumbnail of a file lies, according to the record. Fails when
/// the session is unknown, or when no thumbnail is on record for the file.
pub fn get_thumbnail_path(state: &AppState, session_id: &str, filename: &str) -> (res: Result<
    String,
    GlimpseError,
>)
    ensures
        match session_at(state.db@.sessions, session_id@) {
            None => res matches Err(e) && e@ == ErrorView::SessionNotFound,
            Some(_) => match thumbnail_at(state.db@.thumbnails, session_id@, filename@) {
                None => res matches Err(e) && e@ == ErrorView::ThumbnailNotFound,
                Some(entry) => res matches Ok(path) && path@ == entry.cache_path,
            },
        },
{
    match state.db.get_session(session_id) {
        None => Err(GlimpseError::SessionNotFound),
        Some(_) => match state.db.get_thumbnail_cache(session_id, filename) {
            None => Err(GlimpseError::ThumbnailNotFound),
            Some(entry) => Ok(entry.cache_path),
        },
    }
}

/// An export that has been planned and not yet carried out.
#[derive(Debug)]
pub struct ExportPlan {
    /// The files to copy or move, in the order of the images.
    pub jobs: Vec<ExportJob>,
    /// Number of images in the source folder.
    pub total: usize,
    /// Names of the files that are held back.
    pub rejected: Vec<String>,
}

/// Plans the export of the open folder's files into `destination_folder`:
/// every image of the listing that is not tagged `rejected` is exported.
///
/// Fails only when no folder is open.
pub fn export_adopted(
    state: &AppState,
    entries: &Vec<DirEntry>,
    destination_folder: &str,
    mode: &str,
) -> (res: Result<ExportPlan, GlimpseError>)
    ensures
        match state.current() {
            None => res matches Err(e) && e@ == ErrorView::NoActiveSession,
            Some(id) => res matches Ok(plan) && exists|images: Seq<ImageInfoView>|
                {
                    &&& #[trigger] is_sorted_form_of(images, images_in(entries.deep_view()))
                    &&& plan.total == images.len()
                    &&& plan.rejected.deep_view() == state.db@.labels.filter(
                        rejected_in(id),
                    ).map_values(|l: LabelView| l.filename)
                    &&& plan.jobs.deep_view() == jobs_for(
                        images,
                        plan.rejected.deep_view(),
                        destination_folder@,
                        mode@,
                    )
                },
        },
{
    let id = match state.active_session() {
        Ok(id) => id,
        Err(e) => {
            return Err(e);
        },
    };
    let rejected = state.db.get_rejected_filenames(id.as_str());
    let images = list_images(entries);
    let jobs = plan_export(&images, &rejected, destination_folder, mode);
    assert(is_sorted_form_of(images.deep_view(), images_in(entries.deep_view())));
    Ok(ExportPlan { jobs, total: images.len(), rejected })
}

impl ExportPlan {
    /// Counts the outcome of the export once every job has been tried:
    /// `outcomes` tells, job by job, whether it succeeded.
    pub fn finish(&self, outcomes: &Vec<bool>) -> (result: ExportResult)
        requires
            outcomes.len() == self.jobs.len(),
        ensures
            result.total == self.total,
            result.skipped == self.rejected.deep_view().to_set().len(),
            result.copied == successes(outcomes@),
            result.copied + result.failed == self.jobs.len(),
    {
        finish_export(self.total, &self.rejected, outcomes)
    }
}

/// Reads the camera details from the content of an image file. A failure is
/// reported as the line of text shown to the user.
pub fn get_exif(content: &[u8]) -> (res: Result<ExifInfo, String>)
    ensures
        match res {
            Ok(info) => parsed_fields(content@) matches Some(stored) && (exists|fields: ExifFields|
                #![trigger shows(info, fields)]
                shows(info, fields) && read_from(fields, stored)),
            Err(reason) => parsed_fields(content@) is None && (exists|e: ErrorView|
                e is Exif && reason@ == #[trigger] message_of(e)),
        },
{
    match extract_exif(content) {
        Ok(info) => Ok(info),
        Err(e) => {
            let reason = e.message();
            assert(e@ is Exif && reason@ == message_of(e@));
            Err(reason)
        },
    }
}

/// Sets, or with `None` resets, the number of threads used for generating
/// thumbnails, after the attempt to save the setting, whose outcome is
/// `saved`.
pub fn set_thread_count(cell: &mut ConfigCell, thread_count: Option<usize>, saved: Result<(), String>) -> (res:
    Result<(), String>)
    ensures
        res == saved,
        final(cell)@ == (if saved is Ok && old(cell)@ is Some {
            Some(AppConfig { thumbnail_threads: thread_count })
        } else {
            old(cell)@
        }),
{
    update_config(cell, AppConfig { thumbnail_threads: thread_count }, saved)
}

/// Names the directory to empty when the thumbnails of the open folder are
/// to be discarded. Fails when no folder is open, or when there is no data
/// directory. Emptying the directory is left to the caller.
pub fn clear_cache(state: &AppState, data_dir: &Option<String>) -> (res: Result<String, GlimpseError>)
    ensures
        match state.current() {
            None => res matches Err(e) && e@ == ErrorView::NoActiveSession,
            Some(id) => match *data_dir {
                None => res matches Err(e) && e@ == ErrorView::InvalidPath(no_data_dir()),
                Some(d) => res matches Ok(dir) && dir@ == thumbnails_dir(d@, id),
            },
        },
{
    match state.active_session() {
        Ok(id) => cache_dir_in(data_dir, id.as_str()),
        Err(e) => Err(e),
    }
}

/// Forgets every session and every cache entry, for use when the cache
/// directory is removed as a whole. Returns `freed`, the size of what was
/// removed.
pub fn clear_all_cache(state: &mut AppState, freed: u64) -> (size: u64)
    ensures
        size == freed,
        final(state).db@.sessions.len() == 0,
        final(state).db@.thumbnails.len() == 0,
        final(state).db@.labels == old(state).db@.labels,
        final(state).current() == old(state).current(),
        old(state).db@.well_formed() ==> final(state).db@.well_formed(),
{
    state.db.clear_all_sessions();
    freed
}

/// Deletes every label and returns how many there were.
pub fn clear_all_labels(state: &mut AppState) -> (removed: i64)
    ensures
        removed == shown_count(old(state).db@.labels.len()),
        final(state).db@.labels.len() == 0,
        final(state).db@.sessions == old(state).db@.sessions,
        final(state).db@.thumbnails == old(state).db@.thumbnails,
        final(state).current() == old(state).current(),
        old(state).db@.well_formed() ==> final(state).db@.well_formed(),
{
    count_for_display(state.db.clear_all_labels())
}

} // verus!
