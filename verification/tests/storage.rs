use glimpse::cache::{
    cache_dir_in, cache_root_in, cache_root_of, get_cache_dir, get_cache_root, get_preview_dir,
    preview_dir_in,
};
use glimpse::config::AppConfig;
use glimpse::database::Database;
use glimpse::error::GlimpseError;
use glimpse::storage::{count_for_display, format_bytes, get_storage_info, get_system_info};

#[test]
fn test_get_cache_dir() {
    let session_id = "test_session_123";
    let result = get_cache_dir(session_id);

    assert!(result.is_ok());
    let cache_dir = result.unwrap();

    // Verify path contains session ID
    assert!(cache_dir.contains(session_id));
    assert!(cache_dir.contains("thumbnails"));
}

#[test]
fn preview_dir_lies_beside_the_thumbnails() {
    let thumbnails = get_cache_dir("abc").unwrap();
    let previews = get_preview_dir("abc").unwrap();
    assert!(previews.ends_with("/Glimpse/cache/abc/previews"));
    assert!(thumbnails.ends_with("/Glimpse/cache/abc/thumbnails"));
    assert_eq!(
        thumbnails.trim_end_matches("thumbnails"),
        previews.trim_end_matches("previews")
    );
}

#[test]
fn cache_directories_are_laid_out_below_the_data_directory() {
    let data = Some("/home/me/.local/share".to_string());
    assert_eq!(
        cache_dir_in(&data, "0123abcd").unwrap(),
        "/home/me/.local/share/Glimpse/cache/0123abcd/thumbnails"
    );
    assert_eq!(
        preview_dir_in(&data, "0123abcd").unwrap(),
        "/home/me/.local/share/Glimpse/cache/0123abcd/previews"
    );
    assert_eq!(cache_root_in("/home/me/.local/share/"), "/home/me/.local/share/Glimpse/cache");
}

#[test]
fn no_data_directory_means_no_cache() {
    match cache_dir_in(&None, "abc") {
        Err(GlimpseError::InvalidPath(reason)) => assert_eq!(reason, "Cannot find data directory"),
        other => panic!("expected an invalid path, got {:?}", other),
    }
    match preview_dir_in(&None, "abc") {
        Err(GlimpseError::InvalidPath(reason)) => assert_eq!(reason, "Cannot find data directory"),
        other => panic!("expected an invalid path, got {:?}", other),
    }
}

fn by_floats(bytes: u64) -> String {
    const KB: u64 = 1024;
    const MB: u64 = KB * 1024;
    const GB: u64 = MB * 1024;
    if bytes >= GB {
        format!("{:.2} GB", bytes as f64 / GB as f64)
    } else if bytes >= MB {
        format!("{:.2} MB", bytes as f64 / MB as f64)
    } else if bytes >= KB {
        format!("{:.2} KB", bytes as f64 / KB as f64)
    } else {
        format!("{} B", bytes)
    }
}

#[test]
fn sizes_are_written_in_binary_units() {
    assert_eq!(format_bytes(0), "0 B");
    assert_eq!(format_bytes(1), "1 B");
    assert_eq!(format_bytes(1023), "1023 B");
    assert_eq!(format_bytes(1024), "1.00 KB");
    assert_eq!(format_bytes(1536), "1.50 KB");
    assert_eq!(format_bytes(1024 * 1024 - 1), "1024.00 KB");
    assert_eq!(format_bytes(1024 * 1024), "1.00 MB");
    assert_eq!(format_bytes(5 * 1024 * 1024 + 256 * 1024), "5.25 MB");
    assert_eq!(format_bytes(1024 * 1024 * 1024), "1.00 GB");
    assert_eq!(format_bytes(3 * 1024 * 1024 * 1024 + 512 * 1024 * 1024), "3.50 GB");
    assert_eq!(format_bytes(u64::MAX), "17179869184.00 GB");
}

#[test]
fn ties_go_to_the_even_hundredth() {
    // 1152 / 1024 = 1.125 and 1408 / 1024 = 1.375, both exactly halfway.
    assert_eq!(format_bytes(1152), "1.12 KB");
    assert_eq!(format_bytes(1408), "1.38 KB");
    assert_eq!(format_bytes(1152), by_floats(1152));
    assert_eq!(format_bytes(1408), by_floats(1408));
}

#[test]
fn sizes_agree_with_floating_point_formatting() {
    let mut samples: Vec<u64> = Vec::new();
    for n in 0..5000u64 {
        samples.push(n);
        samples.push(n * 128);
        samples.push(n * 1031 + 7);
        samples.push(n * 1_000_003);
        samples.push(n * 1_073_741_827 + 13);
        samples.push(n.wrapping_mul(0x9E37_79B9_7F4A_7C15));
        samples.push(u64::MAX - n * 511);
        samples.push((1u64 << 53) + n);
        samples.push((1u64 << 53) - n);
        samples.push((1u64 << 62) + n * 255);
    }
    for shift in 0..64 {
        for delta in [0u64, 1, 2, 3] {
            samples.push((1u64 << shift).wrapping_add(delta));
            samples.push((1u64 << shift).wrapping_sub(delta));
            samples.push((3u64 << shift) >> 1);
        }
    }
    // Exact ties at every unit.
    for unit in [10u32, 20, 30] {
        for k in 0..2000u64 {
            samples.push(((2 * k + 1) << (unit - 3)) + (1 << unit));
            samples.push((k << unit) + (1 << (unit - 1)) + (1 << (unit - 3)));
        }
    }
    for bytes in samples {
        assert_eq!(format_bytes(bytes), by_floats(bytes), "{} bytes", bytes);
    }
}

#[test]
fn system_info_describes_the_worker_pool() {
    let automatic = get_system_info(&AppConfig { thumbnail_threads: None }, 8);
    assert_eq!(automatic.cpu_count, 8);
    assert_eq!(automatic.current_threads, 6);
    assert_eq!(automatic.recommended_threads, 6);
    let chosen = get_system_info(&AppConfig { thumbnail_threads: Some(2) }, 16);
    assert_eq!(chosen.cpu_count, 16);
    assert_eq!(chosen.current_threads, 2);
    assert_eq!(chosen.recommended_threads, 13);
}

#[test]
fn storage_info_counts_rows() {
    let mut db = Database::new();
    db.get_or_create_session("/a", 1, "now");
    db.get_or_create_session("/b", 1, "now");
    db.set_label("s", "a.jpg", Some("adopted"), "now");
    let info = get_storage_info(&db, 5 * 1024 * 1024);
    assert_eq!(info.cache_size_bytes, 5 * 1024 * 1024);
    assert_eq!(info.cache_size_display, "5.00 MB");
    assert_eq!(info.label_count, 1);
    assert_eq!(info.session_count, 2);
}

#[test]
fn counts_are_shown_as_signed_numbers() {
    assert_eq!(count_for_display(0), 0);
    assert_eq!(count_for_display(42), 42);
    assert_eq!(count_for_display(usize::MAX), i64::MAX);
}

#[test]
fn cache_root_follows_the_data_directory() {
    assert_eq!(
        cache_root_of(&Some("/home/me/.local/share".to_string())),
        Some("/home/me/.local/share/Glimpse/cache".to_string())
    );
    assert_eq!(cache_root_of(&None), None);
}

#[test]
fn cache_root_of_this_machine_holds_the_session_directories() {
    let root = get_cache_root().unwrap();
    assert!(root.ends_with("/Glimpse/cache"));
    assert!(get_cache_dir("abc").unwrap().starts_with(&root));
}
