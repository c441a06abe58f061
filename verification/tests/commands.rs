use glimpse::commands::{
    clear_all_cache, clear_all_labels, export_adopted, open_folder, save_selection, set_label,
    set_thread_count, AppState,
};
use glimpse::config::{get_config, AppConfig, ConfigCell};
use glimpse::database::LabelWrite;
use glimpse::error::GlimpseError;
use glimpse::export::ExportResult;
use glimpse::scanner::{DirEntry, FileMetadata};
use glimpse::session_id::generate_session_id;

const NOW: &str = "2024-03-09T07:05:00+00:00";
const LATER: &str = "2024-03-10T08:00:00+00:00";

fn file(name: &str) -> DirEntry {
    DirEntry {
        file_name: name.to_string(),
        path: format!("/photos/trip/{}", name),
        is_file: true,
        metadata: Ok(FileMetadata { size: 3, modified_at: "2024/03/09 07:05".to_string() }),
    }
}

fn listing() -> Vec<DirEntry> {
    vec![file("c.jpg"), file("a.jpg"), file("b.jpg"), file("readme.txt")]
}

fn data_dir() -> Option<String> {
    Some("/home/me/.local/share".to_string())
}

#[test]
fn a_new_state_has_no_session() {
    let state = AppState::new();
    assert!(state.current_session_id.is_none());
    assert_eq!(state.db.get_session_count(), 0);
    match state.active_session() {
        Err(GlimpseError::NoActiveSession) => {}
        other => panic!("expected no active session, got {:?}", other),
    }
}

#[test]
fn opening_a_folder_returns_images_and_session_state() {
    let mut state = AppState::new();
    let opened = open_folder(&mut state, "/photos/trip", &listing(), &data_dir(), NOW).unwrap();
    let id = generate_session_id("/photos/trip");
    assert_eq!(opened.session_id, id);
    let names: Vec<&str> = opened.images.iter().map(|i| i.filename.as_str()).collect();
    assert_eq!(names, vec!["a.jpg", "b.jpg", "c.jpg"]);
    assert!(opened.labels.is_empty());
    assert_eq!(opened.last_selected_index, 0);
    assert_eq!(
        opened.cache_dir,
        format!("/home/me/.local/share/Glimpse/cache/{}/thumbnails", id)
    );
    assert_eq!(state.current_session_id, Some(id.clone()));
    let session = state.db.get_session(&id).unwrap();
    assert_eq!(session.total_files, 3);
    assert_eq!(session.folder_path, "/photos/trip");
    assert_eq!(session.last_opened, Some(NOW.to_string()));
}

#[test]
fn reopening_a_folder_brings_back_labels_and_position() {
    let mut state = AppState::new();
    open_folder(&mut state, "/photos/trip", &listing(), &data_dir(), NOW).unwrap();
    set_label(&mut state, "b.jpg", Some("rejected"), NOW).unwrap();
    set_label(&mut state, "a.jpg", Some("adopted"), NOW).unwrap();
    save_selection(&mut state, 2, NOW).unwrap();
    open_folder(&mut state, "/photos/other", &Vec::new(), &data_dir(), NOW).unwrap();

    let opened = open_folder(&mut state, "/photos/trip", &listing(), &data_dir(), LATER).unwrap();
    assert_eq!(opened.last_selected_index, 2);
    let labels: Vec<(String, Option<String>)> =
        opened.labels.into_iter().map(|l| (l.filename, l.label)).collect();
    assert_eq!(
        labels,
        vec![
            ("b.jpg".to_string(), Some("rejected".to_string())),
            ("a.jpg".to_string(), Some("adopted".to_string()))
        ]
    );
    assert_eq!(state.db.get_session_count(), 2);
    assert_eq!(state.current_session_id, Some(generate_session_id("/photos/trip")));
}

#[test]
fn opening_goes_on_past_an_image_without_metadata() {
    let mut state = AppState::new();
    let mut entries = listing();
    entries[1].metadata = Err("permission denied".to_string());
    let opened = open_folder(&mut state, "/photos/trip", &entries, &data_dir(), NOW).unwrap();
    let shown: Vec<(&str, &str, u64)> = opened
        .images
        .iter()
        .map(|i| (i.filename.as_str(), i.modified_at.as_str(), i.size))
        .collect();
    assert_eq!(
        shown,
        vec![("a.jpg", "-", 0), ("b.jpg", "2024/03/09 07:05", 3), ("c.jpg", "2024/03/09 07:05", 3)]
    );
    let id = generate_session_id("/photos/trip");
    assert_eq!(state.current_session_id, Some(id.clone()));
    assert_eq!(state.db.get_session(&id).unwrap().total_files, 3);
}

#[test]
fn opening_without_a_data_directory_fails_after_recording_the_session() {
    let mut state = AppState::new();
    match open_folder(&mut state, "/photos/trip", &listing(), &None, NOW) {
        Err(GlimpseError::InvalidPath(reason)) => assert_eq!(reason, "Cannot find data directory"),
        other => panic!("expected an invalid path, got {:?}", other),
    }
    assert_eq!(state.current_session_id, Some(generate_session_id("/photos/trip")));
    assert_eq!(state.db.get_session_count(), 1);
}

#[test]
fn labelling_needs_an_open_folder() {
    let mut state = AppState::new();
    match set_label(&mut state, "a.jpg", Some("adopted"), NOW) {
        Err(GlimpseError::NoActiveSession) => {}
        other => panic!("expected no active session, got {:?}", other),
    }
    assert_eq!(state.db.get_label_count(), 0);
    match save_selection(&mut state, 3, NOW) {
        Err(GlimpseError::NoActiveSession) => {}
        other => panic!("expected no active session, got {:?}", other),
    }
    match export_adopted(&state, &listing(), "/out", "copy") {
        Err(GlimpseError::NoActiveSession) => {}
        other => panic!("expected no active session, got {:?}", other),
    }
}

#[test]
fn labelling_writes_to_the_open_session() {
    let mut state = AppState::new();
    open_folder(&mut state, "/photos/trip", &listing(), &data_dir(), NOW).unwrap();
    let id = generate_session_id("/photos/trip");
    match set_label(&mut state, "a.jpg", Some("rejected"), LATER).unwrap() {
        LabelWrite::Put(row) => {
            assert_eq!(row.session_id, id);
            assert_eq!(row.filename, "a.jpg");
            assert_eq!(row.label, Some("rejected".to_string()));
            assert_eq!(row.updated_at, LATER);
        }
        other => panic!("expected a row to put, got {:?}", other),
    }
    assert_eq!(state.db.get_label(&id, "a.jpg"), Some("rejected".to_string()));
    match set_label(&mut state, "a.jpg", None, LATER).unwrap() {
        LabelWrite::Delete { session_id, filename } => {
            assert_eq!(session_id, id);
            assert_eq!(filename, "a.jpg");
        }
        other => panic!("expected a key to delete, got {:?}", other),
    }
    assert_eq!(state.db.get_label(&id, "a.jpg"), None);
}

#[test]
fn saving_the_selection_returns_the_session_row() {
    let mut state = AppState::new();
    open_folder(&mut state, "/photos/trip", &listing(), &data_dir(), NOW).unwrap();
    let row = save_selection(&mut state, 2, LATER).unwrap().unwrap();
    assert_eq!(row.last_selected_index, 2);
    assert_eq!(row.last_opened, Some(LATER.to_string()));
    assert_eq!(row.id, generate_session_id("/photos/trip"));
}

#[test]
fn export_copies_everything_but_the_rejected() {
    let mut state = AppState::new();
    open_folder(&mut state, "/photos/trip", &listing(), &data_dir(), NOW).unwrap();
    set_label(&mut state, "b.jpg", Some("rejected"), NOW).unwrap();
    set_label(&mut state, "c.jpg", Some("adopted"), NOW).unwrap();

    let plan = export_adopted(&state, &listing(), "/out", "copy").unwrap();
    assert_eq!(plan.total, 3);
    assert_eq!(plan.rejected, vec!["b.jpg".to_string()]);
    let jobs: Vec<(&str, &str, bool)> = plan
        .jobs
        .iter()
        .map(|j| (j.source.as_str(), j.destination.as_str(), j.remove_source))
        .collect();
    assert_eq!(
        jobs,
        vec![
            ("/photos/trip/a.jpg", "/out/a.jpg", false),
            ("/photos/trip/c.jpg", "/out/c.jpg", false)
        ]
    );
    let result = plan.finish(&vec![true, true]);
    assert_eq!(result, ExportResult { total: 3, copied: 2, skipped: 1, failed: 0 });
}

#[test]
fn export_reports_partial_failure() {
    let mut state = AppState::new();
    open_folder(&mut state, "/photos/trip", &listing(), &data_dir(), NOW).unwrap();
    let plan = export_adopted(&state, &listing(), "/out", "move").unwrap();
    assert_eq!(plan.jobs.len(), 3);
    assert!(plan.jobs.iter().all(|j| j.remove_source));
    let result = plan.finish(&vec![true, false, true]);
    assert_eq!(result, ExportResult { total: 3, copied: 2, skipped: 0, failed: 1 });
}

#[test]
fn export_includes_an_image_without_metadata() {
    let mut state = AppState::new();
    open_folder(&mut state, "/photos/trip", &listing(), &data_dir(), NOW).unwrap();
    let mut entries = listing();
    entries[0].metadata = Err("input/output error".to_string());
    let plan = export_adopted(&state, &entries, "/out", "copy").unwrap();
    assert_eq!(plan.total, 3);
    let sources: Vec<&str> = plan.jobs.iter().map(|j| j.source.as_str()).collect();
    assert_eq!(sources, vec!["/photos/trip/a.jpg", "/photos/trip/b.jpg", "/photos/trip/c.jpg"]);
}

#[test]
fn thread_count_is_set_through_the_cell() {
    let mut cell = ConfigCell::new();
    get_config(&mut cell, AppConfig::default());
    assert_eq!(set_thread_count(&mut cell, Some(4), Ok(())), Ok(()));
    assert_eq!(get_config(&mut cell, AppConfig::default()).thumbnail_threads, Some(4));
    assert_eq!(set_thread_count(&mut cell, None, Ok(())), Ok(()));
    assert_eq!(get_config(&mut cell, AppConfig::default()).thumbnail_threads, None);
    assert_eq!(
        set_thread_count(&mut cell, Some(9), Err("read-only".to_string())),
        Err("read-only".to_string())
    );
    assert_eq!(get_config(&mut cell, AppConfig::default()).thumbnail_threads, None);
}

#[test]
fn clearing_the_cache_forgets_sessions_but_not_labels() {
    let mut state = AppState::new();
    open_folder(&mut state, "/photos/trip", &listing(), &data_dir(), NOW).unwrap();
    set_label(&mut state, "a.jpg", Some("adopted"), NOW).unwrap();
    assert_eq!(clear_all_cache(&mut state, 123456), 123456);
    assert_eq!(state.db.get_session_count(), 0);
    assert_eq!(state.db.get_label_count(), 1);
    assert_eq!(clear_all_labels(&mut state), 1);
    assert_eq!(state.db.get_label_count(), 0);
    assert_eq!(clear_all_labels(&mut state), 0);
}

#[test]
fn exif_failures_are_reported_as_text() {
    match glimpse::commands::get_exif(b"no image at all") {
        Err(reason) => assert!(reason.starts_with("EXIF error: ")),
        Ok(info) => panic!("expected an error, got {:?}", info),
    }
}

#[test]
fn thumbnails_are_put_on_record_and_found_again() {
    let mut state = AppState::new();
    let opened = open_folder(&mut state, "/photos/trip", &listing(), &data_dir(), NOW).unwrap();
    let id = opened.session_id.clone();
    let image = &opened.images[0];
    let good = glimpse::thumbnails::ThumbnailResult {
        filename: image.filename.clone(),
        thumbnail_path: "/cache/a.jpg".to_string(),
        preview_path: None,
        success: true,
        error: None,
    };
    let entry = glimpse::commands::record_thumbnail(&mut state, &id, image, &good, LATER).unwrap();
    assert_eq!(entry.session_id, id);
    assert_eq!(entry.filename, "a.jpg");
    assert_eq!(entry.cache_path, "/cache/a.jpg");
    assert_eq!(entry.original_modified, "2024/03/09 07:05");
    assert_eq!(entry.created_at, LATER);
    assert_eq!(
        glimpse::commands::get_thumbnail_path(&state, &id, "a.jpg").unwrap(),
        "/cache/a.jpg"
    );

    let bad = glimpse::thumbnails::ThumbnailResult {
        filename: "b.jpg".to_string(),
        thumbnail_path: String::new(),
        preview_path: None,
        success: false,
        error: Some("Image processing error: broken".to_string()),
    };
    assert!(glimpse::commands::record_thumbnail(&mut state, &id, &opened.images[1], &bad, LATER)
        .is_none());
    match glimpse::commands::get_thumbnail_path(&state, &id, "b.jpg") {
        Err(GlimpseError::ThumbnailNotFound) => {}
        other => panic!("expected no thumbnail, got {:?}", other),
    }
    match glimpse::commands::get_thumbnail_path(&state, "unknown session", "a.jpg") {
        Err(GlimpseError::SessionNotFound) => {}
        other => panic!("expected no session, got {:?}", other),
    }
}

#[test]
fn clearing_the_cache_names_the_thumbnail_directory_of_the_open_folder() {
    let mut state = AppState::new();
    match glimpse::commands::clear_cache(&state, &data_dir()) {
        Err(GlimpseError::NoActiveSession) => {}
        other => panic!("expected no active session, got {:?}", other),
    }
    open_folder(&mut state, "/photos/trip", &listing(), &data_dir(), NOW).unwrap();
    let id = generate_session_id("/photos/trip");
    assert_eq!(
        glimpse::commands::clear_cache(&state, &data_dir()).unwrap(),
        format!("/home/me/.local/share/Glimpse/cache/{}/thumbnails", id)
    );
    match glimpse::commands::clear_cache(&state, &None) {
        Err(GlimpseError::InvalidPath(reason)) => assert_eq!(reason, "Cannot find data directory"),
        other => panic!("expected an invalid path, got {:?}", other),
    }
}
