use glimpse::batch::{summarize, Batch, Progress};
use glimpse::error::GlimpseError;
use glimpse::scanner::ImageInfo;
use glimpse::thumbnails::{
    finish_thumbnail, pending_work, plan_thumbnail, Attempt, ThumbnailPlan, ThumbnailResult,
    PREVIEW_QUALITY, PREVIEW_SIZE, THUMBNAIL_SIZE,
};

fn image(name: &str) -> ImageInfo {
    ImageInfo {
        filename: name.to_string(),
        path: format!("/photos/{}", name),
        size: 10,
        modified_at: "-".to_string(),
    }
}

fn plan(name: &str) -> ThumbnailPlan {
    plan_thumbnail(&image(name), "/cache/s/thumbnails", "/cache/s/previews")
}

fn done(name: &str) -> ThumbnailResult {
    finish_thumbnail(&plan(name), &Attempt::Generated, &None)
}

fn failed(name: &str) -> ThumbnailResult {
    finish_thumbnail(
        &plan(name),
        &Attempt::Failed(GlimpseError::RawProcessing("corrupt".to_string())),
        &None,
    )
}

#[test]
fn sizes_are_fixed() {
    assert_eq!(THUMBNAIL_SIZE, 300);
    assert_eq!(PREVIEW_SIZE, 2000);
    assert_eq!(PREVIEW_QUALITY, 90);
}

#[test]
fn derived_files_are_named_after_the_stem() {
    let p = plan("IMG_0001.NEF");
    assert_eq!(p.filename, "IMG_0001.NEF");
    assert_eq!(p.source_path, "/photos/IMG_0001.NEF");
    assert_eq!(p.thumbnail_path, "/cache/s/thumbnails/IMG_0001.jpg");
    assert_eq!(p.preview_path, "/cache/s/previews/IMG_0001_preview.jpg");
    assert!(p.is_raw);

    let p = plan("holiday.photo.png");
    assert_eq!(p.thumbnail_path, "/cache/s/thumbnails/holiday.photo.jpg");
    assert_eq!(p.preview_path, "/cache/s/previews/holiday.photo_preview.jpg");
    assert!(!p.is_raw);
}

#[test]
fn existing_files_are_not_generated_again() {
    let raw = plan("a.cr2");
    let work = pending_work(&raw, false, false);
    assert!(work.thumbnail && work.preview);
    let work = pending_work(&raw, true, false);
    assert!(!work.thumbnail && work.preview);
    let work = pending_work(&raw, false, true);
    assert!(work.thumbnail && !work.preview);
    let work = pending_work(&raw, true, true);
    assert!(!work.thumbnail && !work.preview);
}

#[test]
fn standard_images_get_no_preview() {
    let standard = plan("a.jpg");
    assert!(!pending_work(&standard, false, false).preview);
    assert!(pending_work(&standard, false, false).thumbnail);
    assert!(!pending_work(&standard, true, false).thumbnail);
}

#[test]
fn generating_twice_writes_once() {
    let raw = plan("a.raf");
    let first = pending_work(&raw, false, false);
    assert!(first.thumbnail && first.preview);
    let result = finish_thumbnail(&raw, &Attempt::Generated, &Some(Attempt::Generated));
    assert!(result.success);
    // Both files are in the cache now.
    let second = pending_work(&raw, true, true);
    assert!(!second.thumbnail && !second.preview);
    let again = finish_thumbnail(&raw, &Attempt::Cached, &Some(Attempt::Cached));
    assert!(again.success);
    assert_eq!(again.error, None);
    assert_eq!(again.thumbnail_path, result.thumbnail_path);
    assert_eq!(again.preview_path, result.preview_path);
}

#[test]
fn success_reports_display_paths() {
    let p = plan_thumbnail(&image("a.nef"), "C:\\cache\\thumbnails", "C:\\cache\\previews");
    let r = finish_thumbnail(&p, &Attempt::Generated, &Some(Attempt::Generated));
    assert_eq!(r.filename, "a.nef");
    assert_eq!(r.thumbnail_path, "C:/cache/thumbnails/a.jpg");
    assert_eq!(r.preview_path, Some("C:/cache/previews/a_preview.jpg".to_string()));
    assert!(r.success);
    assert_eq!(r.error, None);
}

#[test]
fn a_failed_preview_does_not_fail_the_image() {
    let r = finish_thumbnail(
        &plan("a.nef"),
        &Attempt::Generated,
        &Some(Attempt::Failed(GlimpseError::RawProcessing("no luck".to_string()))),
    );
    assert!(r.success);
    assert_eq!(r.thumbnail_path, "/cache/s/thumbnails/a.jpg");
    assert_eq!(r.preview_path, None);
    assert_eq!(r.error, None);
}

#[test]
fn a_failed_thumbnail_reports_the_reason_and_no_paths() {
    let r = finish_thumbnail(
        &plan("a.nef"),
        &Attempt::Failed(GlimpseError::RawProcessing("bad data".to_string())),
        &Some(Attempt::Generated),
    );
    assert!(!r.success);
    assert_eq!(r.filename, "a.nef");
    assert_eq!(r.thumbnail_path, "");
    assert_eq!(r.preview_path, None);
    assert_eq!(r.error, Some("RAW processing error: bad data".to_string()));
}

#[test]
fn standard_images_never_report_a_preview() {
    let r = finish_thumbnail(&plan("a.jpg"), &Attempt::Cached, &Some(Attempt::Cached));
    assert!(r.success);
    assert_eq!(r.preview_path, None);
    let r = finish_thumbnail(&plan("a.jpg"), &Attempt::Generated, &None);
    assert_eq!(r.preview_path, None);
}

#[test]
fn a_raw_image_without_preview_attempt_reports_none() {
    let r = finish_thumbnail(&plan("a.dng"), &Attempt::Generated, &None);
    assert!(r.success);
    assert_eq!(r.preview_path, None);
}

#[test]
fn batch_counts_up_to_its_size() {
    let mut batch = Batch::new(3);
    assert_eq!(batch.total(), 3);
    assert_eq!(batch.completed(), 0);
    assert!(!batch.is_complete());
    assert!(batch.results().is_none());

    assert_eq!(batch.record(2, done("c.jpg")), Some(Progress { completed: 1, total: 3 }));
    assert!(batch.results().is_none());
    assert_eq!(batch.record(0, failed("a.nef")), Some(Progress { completed: 2, total: 3 }));
    assert!(!batch.is_complete());
    assert_eq!(batch.record(1, done("b.jpg")), Some(Progress { completed: 3, total: 3 }));
    assert!(batch.is_complete());
    assert_eq!(batch.completed(), 3);

    let results = batch.results().unwrap();
    let names: Vec<&str> = results.iter().map(|r| r.filename.as_str()).collect();
    assert_eq!(names, vec!["a.nef", "b.jpg", "c.jpg"]);
    assert!(!results[0].success);
    assert!(results[1].success && results[2].success);
}

#[test]
fn batch_drops_reports_it_does_not_await() {
    let mut batch = Batch::new(2);
    assert_eq!(batch.record(5, done("x.jpg")), None);
    assert_eq!(batch.record(0, done("a.jpg")), Some(Progress { completed: 1, total: 2 }));
    // A second report for the same image announces nothing and changes nothing.
    assert_eq!(batch.record(0, failed("a.jpg")), None);
    assert_eq!(batch.completed(), 1);
    assert_eq!(batch.record(1, done("b.jpg")), Some(Progress { completed: 2, total: 2 }));
    assert_eq!(batch.record(1, done("b.jpg")), None);
    let results = batch.results().unwrap();
    assert!(results[0].success);
}

#[test]
fn batch_of_n_files_with_k_failures() {
    let n = 50;
    let failing = |i: usize| i % 7 == 3;
    let k = (0..n).filter(|i| failing(*i)).count();
    let mut batch = Batch::new(n);
    let mut ticks = Vec::new();
    // Reports arrive in an order that is not the order of the images.
    for step in 0..n {
        let i = (step * 17 + 5) % n;
        let name = format!("img{:03}.nef", i);
        let result = if failing(i) { failed(&name) } else { done(&name) };
        let progress = batch.record(i, result).unwrap();
        assert_eq!(progress.total, n);
        ticks.push(progress.completed);
    }
    assert_eq!(ticks, (1..=n).collect::<Vec<_>>());
    assert_eq!(ticks.iter().filter(|c| **c == n).count(), 1);
    let results = batch.results().unwrap();
    assert_eq!(results.len(), n);
    for (i, r) in results.iter().enumerate() {
        assert_eq!(r.filename, format!("img{:03}.nef", i));
        assert_eq!(r.success, !failing(i));
    }
    let summary = summarize(&results);
    assert_eq!(summary.total, n);
    assert_eq!(summary.failed, k);
    assert_eq!(summary.succeeded, n - k);
}

#[test]
fn empty_batch_is_complete_at_once() {
    let batch = Batch::new(0);
    assert!(batch.is_complete());
    assert_eq!(batch.results().unwrap().len(), 0);
    let summary = summarize(&Vec::new());
    assert_eq!((summary.total, summary.succeeded, summary.failed), (0, 0, 0));
}

#[test]
fn a_batch_is_planned_image_by_image() {
    let images = vec![image("b.jpg"), image("a.nef")];
    let plans = glimpse::thumbnails::plan_batch(&images, "/c/thumbnails", "/c/previews");
    assert_eq!(plans.len(), 2);
    assert_eq!(plans[0].thumbnail_path, "/c/thumbnails/b.jpg");
    assert!(!plans[0].is_raw);
    assert_eq!(plans[1].thumbnail_path, "/c/thumbnails/a.jpg");
    assert_eq!(plans[1].preview_path, "/c/previews/a_preview.jpg");
    assert!(plans[1].is_raw);
    assert!(glimpse::thumbnails::plan_batch(&Vec::new(), "/c", "/p").is_empty());
}
