//! Planning and bookkeeping for thumbnail generation.
//!
//! For every image the cache holds a small thumbnail; for a RAW image it also
//! holds a larger preview, because developing a RAW file is too expensive to
//! repeat whenever the image is looked at. This module decides where those
//! files go, which of them still have to be made, and what is reported about
//! each image once the attempt is over. Decoding, resizing and file access
//! happen elsewhere.

use vstd::prelude::*;
use crate::error::{message_of, GlimpseError};
use crate::formats::{classify_file, kind_of_file, ImageKind};
use crate::records::{clone_text_option, text_option_view};
use crate::scanner::{ImageInfo, ImageInfoView};
use crate::text::{
    append_text, extension_of, file_stem, join_path, joined, normalize_path, normalized, stem_of,
};

verus! {

/// Longest side of a thumbnail, in pixels.
pub const THUMBNAIL_SIZE: u32 = 300;

/// Longest side of a preview, in pixels.
pub const PREVIEW_SIZE: u32 = 2000;

/// JPEG quality of a preview.
pub const PREVIEW_QUALITY: u8 = 90;

/// Name of the thumbnail of the file called `filename`.
pub open spec fn thumbnail_name(filename: Seq<char>) -> Seq<char> {
    stem_of(filename) + ".jpg"@
}

/// Name of the preview of the file called `filename`.
pub open spec fn preview_name(filename: Seq<char>) -> Seq<char> {
    stem_of(filename) + "_preview.jpg"@
}

/// Whether the file called `filename` is a camera RAW file.
pub open spec fn is_raw_file(filename: Seq<char>) -> bool {
    kind_of_file(extension_of(filename)) == Some(ImageKind::Raw)
}

// ---------------------------------------------------------------------------
// The plan for one image
// ---------------------------------------------------------------------------

/// Where the derived files of one image belong.
#[derive(Debug)]
pub struct ThumbnailPlan {
    /// Name of the source file.
    pub filename: String,
    /// Path of the source file.
    pub source_path: String,
    /// Path of the thumbnail.
    pub thumbnail_path: String,
    /// Path of the preview; only used for a RAW source.
    pub preview_path: String,
    /// Whether the source is a RAW file.
    pub is_raw: bool,
}

/// Mathematical form of a [`ThumbnailPlan`].
pub struct ThumbnailPlanView {
    pub filename: Seq<char>,
    pub source_path: Seq<char>,
    pub thumbnail_path: Seq<char>,
    pub preview_path: Seq<char>,
    pub is_raw: bool,
}

impl View for ThumbnailPlan {
    type V = ThumbnailPlanView;

    open spec fn view(&self) -> ThumbnailPlanView {
        ThumbnailPlanView {
            filename: self.filename@,
            source_path: self.source_path@,
            thumbnail_path: self.thumbnail_path@,
            preview_path: self.preview_path@,
            is_raw: self.is_raw,
        }
    }
}

/// The plan for `image` when thumbnails go to `cache_dir` and previews to
/// `preview_dir`: both files are named after the stem of the source.
pub open spec fn plan_of(image: ImageInfoView, cache_dir: Seq<char>, preview_dir: Seq<char>) -> ThumbnailPlanView {
    ThumbnailPlanView {
        filename: image.filename,
        source_path: image.path,
        thumbnail_path: joined(cache_dir, thumbnail_name(image.filename)),
        preview_path: joined(preview_dir, preview_name(image.filename)),
        is_raw: is_raw_file(image.filename),
    }
}

/// Decides where the derived files of `image` belong.
pub fn plan_thumbnail(image: &ImageInfo, cache_dir: &str, preview_dir: &str) -> (plan: ThumbnailPlan)
    ensures
        plan@ == plan_of(image@, cache_dir@, preview_dir@),
{
    let stem = file_stem(image.filename.as_str());
    let thumbnail = append_text(stem.as_str(), ".jpg");
    let preview = append_text(stem.as_str(), "_preview.jpg");
    let is_raw = match classify_file(image.filename.as_str()) {
        Some(ImageKind::Raw) => true,
        _ => false,
    };
    ThumbnailPlan {
        filename: image.filename.clone(),
        source_path: image.path.clone(),
        thumbnail_path: join_path(cache_dir, thumbnail.as_str()),
        preview_path: join_path(preview_dir, preview.as_str()),
        is_raw,
    }
}

/// Plans a whole batch: one plan per image, in the order of the images.
pub fn plan_batch(images: &Vec<ImageInfo>, cache_dir: &str, preview_dir: &str) -> (plans: Vec<
    ThumbnailPlan,
>)
    ensures
        plans.len() == images.len(),
        forall|i: int|
            0 <= i < images.len() ==> (#[trigger] plans[i])@ == plan_of(
                images[i]@,
                cache_dir@,
                preview_dir@,
            ),
{
    let mut plans: Vec<ThumbnailPlan> = Vec::new();
    let mut i: usize = 0;
    while i < images.len()
        invariant
            i <= images.len(),
            plans.len() == i,
            forall|j: int|
                0 <= j < i ==> (#[trigger] plans[j])@ == plan_of(
                    images[j]@,
                    cache_dir@,
                    preview_dir@,
                ),
        decreases images.len() - i,
    {
        plans.push(plan_thumbnail(&images[i], cache_dir, preview_dir));
        i += 1;
    }
    plans
}

// ---------------------------------------------------------------------------
// What is left to do
// ---------------------------------------------------------------------------

/// Which derived files of an image still have to be generated.
#[derive(Clone, Copy, Debug, PartialEq, Eq, Structural)]
pub struct PendingWork {
    pub thumbnail: bool,
    pub preview: bool,
}

/// What has to be generated for an image, given which of its derived files
/// exist. A file that exists is never made again: existence alone counts, its
/// age does not. A preview is only ever made for a RAW source.
pub open spec fn pending(plan: ThumbnailPlanView, thumbnail_exists: bool, preview_exists: bool) -> PendingWork {
    PendingWork { thumbnail: !thumbnail_exists, preview: plan.is_raw && !preview_exists }
}

/// The files a plan would write into a cache that holds `cached`.
pub open spec fn files_to_write(plan: ThumbnailPlanView, cached: Set<Seq<char>>) -> Set<Seq<char>> {
    let work = pending(
        plan,
        cached.contains(plan.thumbnail_path),
        cached.contains(plan.preview_path),
    );
    let thumbnail: Set<Seq<char>> = if work.thumbnail {
        set![plan.thumbnail_path]
    } else {
        Set::empty()
    };
    let preview: Set<Seq<char>> = if work.preview {
        set![plan.preview_path]
    } else {
        Set::empty()
    };
    thumbnail + preview
}

/// Decides what has to be generated, given which derived files exist.
pub fn pending_work(plan: &ThumbnailPlan, thumbnail_exists: bool, preview_exists: bool) -> (work:
    PendingWork)
    ensures
        work == pending(plan@, thumbnail_exists, preview_exists),
{
    PendingWork { thumbnail: !thumbnail_exists, preview: plan.is_raw && !preview_exists }
}

/// Generating twice writes once: as long as the files made by a successful
/// first pass are still in the cache, a second pass for the same image finds
/// nothing to write.
pub proof fn lemma_second_pass_writes_nothing(
    plan: ThumbnailPlanView,
    cached: Set<Seq<char>>,
    later: Set<Seq<char>>,
)
    requires
        (cached + files_to_write(plan, cached)).subset_of(later),
    ensures
        files_to_write(plan, later) == Set::<Seq<char>>::empty(),
{
    assert(later.contains(plan.thumbnail_path)) by {
        if !cached.contains(plan.thumbnail_path) {
            assert(files_to_write(plan, cached).contains(plan.thumbnail_path));
        }
        assert((cached + files_to_write(plan, cached)).contains(plan.thumbnail_path));
    }
    if plan.is_raw {
        assert(later.contains(plan.preview_path)) by {
            if !cached.contains(plan.preview_path) {
                assert(files_to_write(plan, cached).contains(plan.preview_path));
            }
            assert((cached + files_to_write(plan, cached)).contains(plan.preview_path));
        }
    }
    assert(files_to_write(plan, later) =~= Set::<Seq<char>>::empty());
}

// ---------------------------------------------------------------------------
// The result for one image
// ---------------------------------------------------------------------------

/// What is reported about one image of a batch.
#[derive(Debug)]
pub struct ThumbnailResult {
    pub filename: String,
    /// Display path of the thumbnail; empty when there is none.
    pub thumbnail_path: String,
    /// Display path of the preview, for a RAW source that has one.
    pub preview_path: Option<String>,
    pub success: bool,
    /// Why the thumbnail could not be made.
    pub error: Option<String>,
}

/// Mathematical form of a [`ThumbnailResult`].
pub struct ThumbnailResultView {
    pub filename: Seq<char>,
    pub thumbnail_path: Seq<char>,
    pub preview_path: Option<Seq<char>>,
    pub success: bool,
    pub error: Option<Seq<char>>,
}

impl View for ThumbnailResult {
    type V = ThumbnailResultView;

    open spec fn view(&self) -> ThumbnailResultView {
        ThumbnailResultView {
            filename: self.filename@,
            thumbnail_path: self.thumbnail_path@,
            preview_path: text_option_view(self.preview_path),
            success: self.success,
            error: text_option_view(self.error),
        }
    }
}

impl DeepView for ThumbnailResult {
    type V = ThumbnailResultView;

    open spec fn deep_view(&self) -> ThumbnailResultView {
        self@
    }
}

impl Clone for ThumbnailResult {
    fn clone(&self) -> (copy: Self)
        ensures
            copy@ == self@,
    {
        ThumbnailResult {
            filename: self.filename.clone(),
            thumbnail_path: self.thumbnail_path.clone(),
            preview_path: clone_text_option(&self.preview_path),
            success: self.success,
            error: clone_text_option(&self.error),
        }
    }
}

/// How the attempt to provide one derived file ended.
#[derive(Debug)]
pub enum Attempt {
    /// The file was in the cache already; nothing was generated.
    Cached,
    /// The file was generated and written.
    Generated,
    /// Generating the file failed.
    Failed(GlimpseError),
}

impl Attempt {
    /// Whether the derived file is there now.
    pub open spec fn available(self) -> bool {
        !(self is Failed)
    }
}

/// The report on an image whose thumbnail ended as `thumbnail` and whose
/// preview, if one was due, ended as `preview`.
///
/// The image counts as done when its thumbnail is available. A preview that
/// could not be made does not fail the image: the report just names none.
/// When the thumbnail failed, the report carries the reason and no paths.
pub open spec fn result_of(plan: ThumbnailPlanView, thumbnail: Attempt, preview: Option<Attempt>) -> ThumbnailResultView {
    match thumbnail {
        Attempt::Failed(e) => ThumbnailResultView {
            filename: plan.filename,
            thumbnail_path: Seq::empty(),
            preview_path: None,
            success: false,
            error: Some(message_of(e@)),
        },
        _ => ThumbnailResultView {
            filename: plan.filename,
            thumbnail_path: normalized(plan.thumbnail_path),
            preview_path: if plan.is_raw && (preview matches Some(p) && p.available()) {
                Some(normalized(plan.preview_path))
            } else {
                None
            },
            success: true,
            error: None,
        },
    }
}

/// Writes the report on one image.
pub fn finish_thumbnail(plan: &ThumbnailPlan, thumbnail: &Attempt, preview: &Option<Attempt>) -> (result:
    ThumbnailResult)
    ensures
        result@ == result_of(plan@, *thumbnail, *preview),
{
    match thumbnail {
        Attempt::Failed(e) => ThumbnailResult {
            filename: plan.filename.clone(),
            thumbnail_path: String::new(),
            preview_path: None,
            success: false,
            error: Some(e.message()),
        },
        _ => {
            let has_preview = plan.is_raw && match preview {
                Some(Attempt::Failed(_)) => false,
                Some(_) => true,
                None => false,
            };
            ThumbnailResult {
                filename: plan.filename.clone(),
                thumbnail_path: normalize_path(plan.thumbnail_path.as_str()),
                preview_path: if has_preview {
                    Some(normalize_path(plan.preview_path.as_str()))
                } else {
                    None
                },
                success: true,
                error: None,
            }
        },
    }
}

/// An image whose derived files were all in the cache is reported as done,
/// without an error.
pub proof fn lemma_cached_image_succeeds(plan: ThumbnailPlanView)
    ensures
        result_of(plan, Attempt::Cached, Some(Attempt::Cached)).success,
        result_of(plan, Attempt::Cached, Some(Attempt::Cached)).error is None,
        result_of(plan, Attempt::Cached, None).success,
{
}

} // verus!
