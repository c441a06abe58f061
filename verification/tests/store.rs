use glimpse::database::{Database, LabelWrite};
use glimpse::session_id::generate_session_id;

const NOW: &str = "2024-03-09T07:05:00+00:00";
const LATER: &str = "2024-03-10T08:00:00+00:00";

fn label_pairs(db: &Database, session: &str) -> Vec<(String, Option<String>)> {
    db.get_all_labels(session).into_iter().map(|l| (l.filename, l.label)).collect()
}

#[test]
fn new_store_is_empty() {
    let db = Database::new();
    assert_eq!(db.get_session_count(), 0);
    assert_eq!(db.get_label_count(), 0);
    assert!(db.get_session("anything").is_none());
    assert!(db.get_label("s", "a.jpg").is_none());
    assert!(db.get_thumbnail_cache("s", "a.jpg").is_none());
    assert!(db.get_all_labels("s").is_empty());
    assert!(db.get_rejected_filenames("s").is_empty());
}

#[test]
fn first_open_creates_the_session() {
    let mut db = Database::new();
    let session = db.get_or_create_session("/photos/trip", 12, NOW);
    assert_eq!(session.id, generate_session_id("/photos/trip"));
    assert_eq!(session.folder_path, "/photos/trip");
    assert_eq!(session.last_opened, Some(NOW.to_string()));
    assert_eq!(session.last_selected_index, 0);
    assert_eq!(session.total_files, 12);
    assert_eq!(session.created_at, NOW);
    assert_eq!(db.get_session_count(), 1);
}

#[test]
fn second_open_updates_the_session_in_place() {
    let mut db = Database::new();
    let first = db.get_or_create_session("/photos/trip", 12, NOW);
    db.update_last_selected_index(&first.id, 7, NOW);
    let second = db.get_or_create_session("/photos/trip", 15, LATER);
    assert_eq!(db.get_session_count(), 1);
    assert_eq!(second.id, first.id);
    assert_eq!(second.folder_path, "/photos/trip");
    assert_eq!(second.last_opened, Some(LATER.to_string()));
    assert_eq!(second.total_files, 15);
    // The bookmark and the creation time survive.
    assert_eq!(second.last_selected_index, 7);
    assert_eq!(second.created_at, NOW);
}

#[test]
fn sessions_of_different_folders_are_separate() {
    let mut db = Database::new();
    let a = db.get_or_create_session("/photos/a", 1, NOW);
    let b = db.get_or_create_session("/photos/b", 2, NOW);
    assert_ne!(a.id, b.id);
    assert_eq!(db.get_session_count(), 2);
    assert_eq!(db.get_session(&a.id).unwrap().total_files, 1);
    assert_eq!(db.get_session(&b.id).unwrap().total_files, 2);
}

#[test]
fn selection_is_saved_and_refreshes_last_opened() {
    let mut db = Database::new();
    let session = db.get_or_create_session("/photos/trip", 12, NOW);
    let row = db.update_last_selected_index(&session.id, 5, LATER).unwrap();
    assert_eq!(row.last_selected_index, 5);
    assert_eq!(row.last_opened, Some(LATER.to_string()));
    assert_eq!(row.total_files, 12);
    let read = db.get_session(&session.id).unwrap();
    assert_eq!(read.last_selected_index, 5);
    assert_eq!(read.last_opened, Some(LATER.to_string()));
    assert_eq!(read.created_at, NOW);
}

#[test]
fn selection_of_an_unknown_session_changes_nothing() {
    let mut db = Database::new();
    db.get_or_create_session("/photos/trip", 12, NOW);
    assert!(db.update_last_selected_index("no such session", 5, LATER).is_none());
    assert_eq!(db.get_session_count(), 1);
}

#[test]
fn label_round_trip() {
    let mut db = Database::new();
    let session = db.get_or_create_session("/photos/trip", 3, NOW).id;
    db.set_label(&session, "b.jpg", Some("rejected"), NOW);
    assert_eq!(
        label_pairs(&db, &session),
        vec![("b.jpg".to_string(), Some("rejected".to_string()))]
    );
    assert_eq!(db.get_label(&session, "b.jpg"), Some("rejected".to_string()));
    db.set_label(&session, "b.jpg", None, LATER);
    assert!(label_pairs(&db, &session).is_empty());
    assert_eq!(db.get_label(&session, "b.jpg"), None);
    assert_eq!(db.get_label_count(), 0);
}

#[test]
fn set_label_reports_what_to_write_through() {
    let mut db = Database::new();
    match db.set_label("s", "a.jpg", Some("adopted"), NOW) {
        LabelWrite::Put(row) => {
            assert_eq!(row.session_id, "s");
            assert_eq!(row.filename, "a.jpg");
            assert_eq!(row.label, Some("adopted".to_string()));
            assert_eq!(row.updated_at, NOW);
        }
        other => panic!("expected a row to put, got {:?}", other),
    }
    match db.set_label("s", "a.jpg", None, LATER) {
        LabelWrite::Delete { session_id, filename } => {
            assert_eq!(session_id, "s");
            assert_eq!(filename, "a.jpg");
        }
        other => panic!("expected a key to delete, got {:?}", other),
    }
}

#[test]
fn relabelling_replaces_the_tag() {
    let mut db = Database::new();
    db.set_label("s", "a.jpg", Some("adopted"), NOW);
    db.set_label("s", "a.jpg", Some("rejected"), LATER);
    let labels = db.get_all_labels("s");
    assert_eq!(labels.len(), 1);
    assert_eq!(labels[0].label, Some("rejected".to_string()));
    assert_eq!(labels[0].updated_at, LATER);
    assert_eq!(db.get_label_count(), 1);
}

#[test]
fn labels_are_kept_per_session_and_file() {
    let mut db = Database::new();
    db.set_label("s1", "a.jpg", Some("adopted"), NOW);
    db.set_label("s1", "b.jpg", Some("rejected"), NOW);
    db.set_label("s2", "a.jpg", Some("rejected"), NOW);
    assert_eq!(db.get_label("s1", "a.jpg"), Some("adopted".to_string()));
    assert_eq!(db.get_label("s2", "a.jpg"), Some("rejected".to_string()));
    assert_eq!(db.get_label("s2", "b.jpg"), None);
    assert_eq!(db.get_all_labels("s1").len(), 2);
    assert_eq!(db.get_all_labels("s2").len(), 1);
    db.set_label("s1", "a.jpg", None, LATER);
    assert_eq!(db.get_label("s1", "a.jpg"), None);
    assert_eq!(db.get_label("s1", "b.jpg"), Some("rejected".to_string()));
    assert_eq!(db.get_label("s2", "a.jpg"), Some("rejected".to_string()));
}

#[test]
fn clearing_a_missing_label_is_harmless() {
    let mut db = Database::new();
    db.set_label("s", "a.jpg", Some("adopted"), NOW);
    db.set_label("s", "zzz.jpg", None, NOW);
    assert_eq!(db.get_label_count(), 1);
}

#[test]
fn labels_do_not_need_a_session_row() {
    let mut db = Database::new();
    db.set_label("never opened", "a.jpg", Some("adopted"), NOW);
    assert_eq!(db.get_label("never opened", "a.jpg"), Some("adopted".to_string()));
    assert!(db.get_session("never opened").is_none());
}

#[test]
fn rejected_filenames_are_those_tagged_rejected() {
    let mut db = Database::new();
    db.set_label("s", "a.jpg", Some("adopted"), NOW);
    db.set_label("s", "b.jpg", Some("rejected"), NOW);
    db.set_label("s", "c.jpg", Some("Rejected"), NOW);
    db.set_label("s", "d.jpg", Some("rejected"), NOW);
    db.set_label("other", "e.jpg", Some("rejected"), NOW);
    assert_eq!(db.get_rejected_filenames("s"), vec!["b.jpg".to_string(), "d.jpg".to_string()]);
    db.set_label("s", "b.jpg", Some("adopted"), LATER);
    assert_eq!(db.get_rejected_filenames("s"), vec!["d.jpg".to_string()]);
}

#[test]
fn many_writers_leave_one_whole_value() {
    // Whatever order racing writers are served in, the row holds what the
    // last of them wrote, and there is only one row.
    let values = ["adopted", "rejected", "maybe", "later", "adopted"];
    for rotation in 0..values.len() {
        let mut db = Database::new();
        db.set_label("s", "other.jpg", Some("adopted"), NOW);
        let mut last = "";
        for k in 0..values.len() {
            last = values[(k + rotation) % values.len()];
            db.set_label("s", "a.jpg", Some(last), LATER);
        }
        let rows: Vec<_> =
            db.get_all_labels("s").into_iter().filter(|l| l.filename == "a.jpg").collect();
        assert_eq!(rows.len(), 1);
        assert_eq!(rows[0].label, Some(last.to_string()));
        assert_eq!(rows[0].updated_at, LATER);
        assert_eq!(db.get_label("s", "a.jpg"), Some(last.to_string()));
        assert_eq!(db.get_label_count(), 2);
    }
}

#[test]
fn thumbnail_cache_entries_are_upserted() {
    let mut db = Database::new();
    let first = db.set_thumbnail_cache("s", "a.nef", "/cache/s/a.jpg", "2024/01/01 10:00", NOW);
    assert_eq!(first.session_id, "s");
    assert_eq!(first.filename, "a.nef");
    assert_eq!(first.cache_path, "/cache/s/a.jpg");
    assert_eq!(first.original_modified, "2024/01/01 10:00");
    assert_eq!(first.created_at, NOW);

    let second = db.set_thumbnail_cache("s", "a.nef", "/cache2/a.jpg", "2024/02/02 11:00", LATER);
    assert_eq!(second.cache_path, "/cache2/a.jpg");
    assert_eq!(second.original_modified, "2024/02/02 11:00");
    // An entry that is replaced keeps its creation time.
    assert_eq!(second.created_at, NOW);

    let read = db.get_thumbnail_cache("s", "a.nef").unwrap();
    assert_eq!(read.cache_path, "/cache2/a.jpg");
    assert!(db.get_thumbnail_cache("s", "b.nef").is_none());
    assert!(db.get_thumbnail_cache("t", "a.nef").is_none());
}

#[test]
fn clearing_labels_reports_their_number() {
    let mut db = Database::new();
    db.get_or_create_session("/photos/a", 1, NOW);
    db.set_label("s", "a.jpg", Some("adopted"), NOW);
    db.set_label("s", "b.jpg", Some("rejected"), NOW);
    assert_eq!(db.clear_all_labels(), 2);
    assert_eq!(db.get_label_count(), 0);
    assert_eq!(db.get_session_count(), 1);
    assert_eq!(db.clear_all_labels(), 0);
}

#[test]
fn clearing_sessions_takes_the_cache_entries_along() {
    let mut db = Database::new();
    let id = db.get_or_create_session("/photos/a", 1, NOW).id;
    db.set_thumbnail_cache(&id, "a.jpg", "/cache/a.jpg", "-", NOW);
    db.set_label(&id, "a.jpg", Some("adopted"), NOW);
    db.clear_all_sessions();
    assert_eq!(db.get_session_count(), 0);
    assert!(db.get_thumbnail_cache(&id, "a.jpg").is_none());
    assert_eq!(db.get_label(&id, "a.jpg"), Some("adopted".to_string()));
}

#[test]
fn rows_read_from_storage_are_put_back() {
    let mut db = Database::new();
    db.restore_session(glimpse::records::Session {
        id: "abc".to_string(),
        folder_path: "/photos".to_string(),
        last_opened: None,
        last_selected_index: 4,
        total_files: 9,
        created_at: NOW.to_string(),
    });
    db.restore_session(glimpse::records::Session {
        id: "abc".to_string(),
        folder_path: "/photos".to_string(),
        last_opened: Some(LATER.to_string()),
        last_selected_index: 5,
        total_files: 9,
        created_at: NOW.to_string(),
    });
    assert_eq!(db.get_session_count(), 1);
    assert_eq!(db.get_session("abc").unwrap().last_selected_index, 5);

    let label = |file: &str, tag: Option<&str>| glimpse::records::Label {
        session_id: "abc".to_string(),
        filename: file.to_string(),
        label: tag.map(|t| t.to_string()),
        updated_at: NOW.to_string(),
    };
    db.restore_label(label("a.jpg", Some("adopted")));
    db.restore_label(label("b.jpg", None));
    db.restore_label(label("a.jpg", Some("rejected")));
    assert_eq!(db.get_label_count(), 1);
    assert_eq!(db.get_label("abc", "a.jpg"), Some("rejected".to_string()));
    assert_eq!(db.get_label("abc", "b.jpg"), None);

    let entry = |path: &str| glimpse::records::ThumbnailCacheEntry {
        session_id: "abc".to_string(),
        filename: "a.jpg".to_string(),
        cache_path: path.to_string(),
        original_modified: "-".to_string(),
        created_at: NOW.to_string(),
    };
    db.restore_thumbnail(entry("/one"));
    db.restore_thumbnail(entry("/two"));
    assert_eq!(db.get_thumbnail_cache("abc", "a.jpg").unwrap().cache_path, "/two");
}
