use glimpse::export::{
    contains_name, count_distinct, finish_export, plan_export, ExportJob, ExportResult,
};
use glimpse::scanner::ImageInfo;

fn image(name: &str) -> ImageInfo {
    ImageInfo {
        filename: name.to_string(),
        path: format!("/photos/{}", name),
        size: 10,
        modified_at: "-".to_string(),
    }
}

fn strings(names: &[&str]) -> Vec<String> {
    names.iter().map(|n| n.to_string()).collect()
}

fn job_tuples(jobs: &Vec<ExportJob>) -> Vec<(String, String, bool)> {
    jobs.iter().map(|j| (j.source.clone(), j.destination.clone(), j.remove_source)).collect()
}

#[test]
fn export_skips_rejected_files() {
    let images = vec![image("a.jpg"), image("b.jpg"), image("c.jpg")];
    let rejected = strings(&["b.jpg"]);
    let jobs = plan_export(&images, &rejected, "/out", "copy");
    assert_eq!(
        job_tuples(&jobs),
        vec![
            ("/photos/a.jpg".to_string(), "/out/a.jpg".to_string(), false),
            ("/photos/c.jpg".to_string(), "/out/c.jpg".to_string(), false)
        ]
    );
    let result = finish_export(images.len(), &rejected, &vec![true, true]);
    assert_eq!(result, ExportResult { total: 3, copied: 2, skipped: 1, failed: 0 });
}

#[test]
fn export_moves_only_in_move_mode() {
    let images = vec![image("a.jpg")];
    let none: Vec<String> = Vec::new();
    assert!(plan_export(&images, &none, "/out", "move")[0].remove_source);
    assert!(!plan_export(&images, &none, "/out", "copy")[0].remove_source);
    assert!(!plan_export(&images, &none, "/out", "Move")[0].remove_source);
    assert!(!plan_export(&images, &none, "/out", "")[0].remove_source);
}

#[test]
fn export_counts_failures_apart_from_successes() {
    let rejected = strings(&["x.jpg", "y.jpg"]);
    let result = finish_export(7, &rejected, &vec![true, false, true, false, false]);
    assert_eq!(result, ExportResult { total: 7, copied: 2, skipped: 2, failed: 3 });
    let result = finish_export(0, &Vec::new(), &Vec::new());
    assert_eq!(result, ExportResult { total: 0, copied: 0, skipped: 0, failed: 0 });
}

#[test]
fn export_counts_every_rejected_name_once() {
    let rejected = strings(&["b.jpg", "gone.jpg", "b.jpg"]);
    assert_eq!(count_distinct(&rejected), 2);
    // A rejected file that has left the folder is still counted as skipped.
    let images = vec![image("a.jpg"), image("b.jpg")];
    let jobs = plan_export(&images, &rejected, "/out/", "copy");
    assert_eq!(jobs.len(), 1);
    assert_eq!(jobs[0].destination, "/out/a.jpg");
    let result = finish_export(images.len(), &rejected, &vec![true]);
    assert_eq!(result, ExportResult { total: 2, copied: 1, skipped: 2, failed: 0 });
}

#[test]
fn export_of_everything_when_nothing_is_rejected() {
    let images = vec![image("a.jpg"), image("b.nef")];
    let jobs = plan_export(&images, &Vec::new(), "/out", "copy");
    assert_eq!(jobs.len(), 2);
    assert_eq!(jobs[1].source, "/photos/b.nef");
    assert_eq!(jobs[1].destination, "/out/b.nef");
}

#[test]
fn names_are_found_exactly() {
    let names = strings(&["a.jpg", "b.jpg"]);
    assert!(contains_name(&names, "a.jpg"));
    assert!(contains_name(&names, "b.jpg"));
    assert!(!contains_name(&names, "A.jpg"));
    assert!(!contains_name(&names, "a.jp"));
    assert!(!contains_name(&Vec::new(), "a.jpg"));
}

#[test]
fn distinct_names_are_counted() {
    assert_eq!(count_distinct(&Vec::new()), 0);
    assert_eq!(count_distinct(&strings(&["a"])), 1);
    assert_eq!(count_distinct(&strings(&["a", "a", "a"])), 1);
    assert_eq!(count_distinct(&strings(&["a", "b", "a", "c", "b"])), 3);
}
