use sorted::archive::build_archive_plan;
use sorted::copy::{
    archive_destination_exists, discover_media_files, is_media_file_path, plan_copy, relative_path, CopyRun, CopyStep,
    WalkEntry,
};
use sorted::datetime::LocalDateTime;
use sorted::errors::SortedError;
use sorted::types::{ArchivePlan, ArchiveSettings, CopyPlan, DeviceAvailability, DeviceInfo, PathProbe};

fn directory() -> PathProbe {
    PathProbe { exists: true, is_dir: true }
}

fn file(path: &str, size: u64) -> WalkEntry {
    WalkEntry { path: path.to_string(), is_file: true, size_bytes: size }
}

fn folder(path: &str) -> WalkEntry {
    WalkEntry { path: path.to_string(), is_file: false, size_bytes: 0 }
}

fn device(name: &str, mount: &str) -> DeviceInfo {
    DeviceInfo {
        id: mount.to_string(),
        display_name: name.to_string(),
        mount_path: mount.to_string(),
        availability: DeviceAvailability::Available,
    }
}

fn archive_plan(destination: &str, theme: &str, device: &DeviceInfo) -> ArchivePlan {
    let settings = ArchiveSettings {
        destination_root: destination.to_string(),
        date_format: "%Y-%m-%d".to_string(),
    };
    let now = LocalDateTime::new(2026, 3, 27, 10, 0, 0).unwrap();
    build_archive_plan(&settings, theme, device, &now, &directory(), &directory()).unwrap()
}

/// Runs a copy of `plan` where the files whose source is in `failing` fail,
/// asking to cancel once `cancel_after` files were copied.
fn run(plan: &CopyPlan, failing: &[&str], cancel_after: Option<usize>) -> (sorted::copy::CopySummary, Vec<String>) {
    let mut run = CopyRun::start();
    let mut destinations = Vec::new();
    let mut copied = 0usize;
    loop {
        let cancel = cancel_after.map_or(false, |n| copied >= n);
        match run.next_step(plan, cancel) {
            CopyStep::Copy { source, destination } => {
                if failing.contains(&source.as_str()) {
                    run.record_failed(plan, "denied".to_string());
                } else {
                    destinations.push(destination);
                    let progress = run.record_copied(plan);
                    copied = progress.copied_files;
                    assert_eq!(progress.total_files, plan.files.len());
                }
            }
            CopyStep::Finish { cancelled } => return (run.into_summary(plan, cancelled), destinations),
        }
    }
}

#[test]
fn discovers_supported_media_files() {
    let entries = vec![folder("/card"), file("/card/frame.jpg", 1), file("/card/notes.txt", 1)];
    let files = discover_media_files("/card", &directory(), &entries).unwrap();
    assert_eq!(files.len(), 1);
    assert_eq!(files[0].relative_path, "frame.jpg");
}

#[test]
fn media_files_come_sorted_with_their_sizes() {
    let entries = vec![
        folder("/card"),
        file("/card/b/IMG.CR3", 30),
        file("/card/a.MOV", 20),
        file("/card/a/z.jpg", 10),
        file("/card/.hidden", 1),
        file("/card/x.jpg.txt", 1),
    ];
    let files = discover_media_files("/card", &directory(), &entries).unwrap();
    let names: Vec<&str> = files.iter().map(|f| f.relative_path.as_str()).collect();
    assert_eq!(names, vec!["a/z.jpg", "a.MOV", "b/IMG.CR3"]);
    assert_eq!(files[0].size_bytes, 10);
    assert_eq!(files[0].source_path, "/card/a/z.jpg");
}

#[test]
fn discovery_reports_missing_root_and_stray_entries() {
    let missing = PathProbe { exists: false, is_dir: false };
    assert_eq!(
        discover_media_files("/card", &missing, &vec![]).unwrap_err().message(),
        "device mount path /card does not exist"
    );
    let entries = vec![file("/elsewhere/a.jpg", 1)];
    assert_eq!(
        discover_media_files("/card", &directory(), &entries).unwrap_err(),
        SortedError::NotUnderRoot("/elsewhere/a.jpg".to_string())
    );
    assert!(is_media_file_path("/x/y.NEF"));
    assert!(!is_media_file_path("/x/y"));
    assert_eq!(relative_path("/card", "/card/DCIM/a.jpg"), Some("DCIM/a.jpg".to_string()));
    assert_eq!(relative_path("/card", "/cardigan/a.jpg"), None);
}

#[test]
fn plans_copy_from_selected_subdirectory_only() {
    let cam = device("EOS R6", "/card");
    let entries = vec![folder("/card/DCIM"), file("/card/DCIM/frame.jpg", 5)];
    let discovered = discover_media_files("/card/DCIM", &directory(), &entries);
    let plan = plan_copy(&cam, "/card/DCIM", archive_plan("/archive", "shoot", &cam), false, discovered).unwrap();
    assert_eq!(plan.files.len(), 1);
    assert_eq!(plan.source_root, "/card/DCIM");
    assert_eq!(plan.files[0].relative_path, "frame.jpg");
}

#[test]
fn rejects_existing_archive_destination() {
    let cam = device("EOS R6", "/card");
    let plan_root = archive_plan("/archive", "shoot", &cam);
    assert_eq!(plan_root.archive_root, "/archive/shoot2026-03-27/EOS_R6");
    let entries = vec![file("/card/DCIM/frame.jpg", 5)];
    let discovered = discover_media_files("/card/DCIM", &directory(), &entries);
    let error = plan_copy(&cam, "/card/DCIM", plan_root, true, discovered).unwrap_err();
    assert!(error.message().contains("already exists"));
}

#[test]
fn copies_media_files_into_archive_root() {
    let cam = device("EOS R6", "/card");
    let entries = vec![folder("/card/DCIM"), file("/card/DCIM/frame.jpg", 5)];
    let discovered = discover_media_files("/card", &directory(), &entries);
    let plan = plan_copy(&cam, "/card", archive_plan("/archive", "shoot", &cam), false, discovered).unwrap();
    let (summary, destinations) = run(&plan, &[], None);
    assert_eq!(summary.copied_files, 1);
    assert!(summary.failures.is_empty());
    assert!(!summary.was_cancelled);
    assert_eq!(destinations, vec!["/archive/shoot2026-03-27/EOS_R6/DCIM/frame.jpg".to_string()]);
}

#[test]
fn stops_copying_when_cancellation_is_requested() {
    let cam = device("EOS R6", "/card");
    let entries = vec![file("/card/a.jpg", 1), file("/card/b.jpg", 1)];
    let discovered = discover_media_files("/card", &directory(), &entries);
    let plan = plan_copy(&cam, "/card", archive_plan("/archive", "shoot", &cam), false, discovered).unwrap();
    let (summary, _) = run(&plan, &[], Some(1));
    assert_eq!(summary.copied_files, 1);
    assert!(summary.was_cancelled);
}

#[test]
fn copy_plan_and_execution_report_failures_and_successes() {
    let card = device("Field Card", "/media/card");
    let entries = vec![
        folder("/media/card/DCIM"),
        file("/media/card/DCIM/frame.jpg", 5),
        file("/media/card/DCIM/clip.mov", 5),
    ];
    let discovered = discover_media_files("/media/card", &directory(), &entries);
    let plan = plan_copy(&card, "/media/card", archive_plan("/archive", "winter shoot", &card), false, discovered)
        .unwrap();
    assert_eq!(plan.files.len(), 2);
    assert_eq!(plan.archive_plan.archive_root, "/archive/winter_shoot2026-03-27/Field_Card");

    let (summary, _) = run(&plan, &[], None);
    assert_eq!(summary.copied_files, 2);
    assert!(summary.failures.is_empty());
    assert!(!summary.was_cancelled);

    let (summary, _) = run(&plan, &["/media/card/DCIM/clip.mov"], None);
    assert_eq!(summary.copied_files, 1);
    assert_eq!(summary.failures.len(), 1);
    assert_eq!(summary.failures[0].file, "/media/card/DCIM/clip.mov");
    assert_eq!(summary.failures[0].error, "denied");
    assert_eq!(summary.destination, "/archive/winter_shoot2026-03-27/Field_Card");
}

#[test]
fn existing_archive_folders_are_reported() {
    assert!(archive_destination_exists(&PathProbe { exists: true, is_dir: true }));
    assert!(!archive_destination_exists(&PathProbe { exists: false, is_dir: false }));
}

#[test]
fn creates_missing_destination_root_before_copying() {
    let cam = device("EOS R6", "/card");
    let settings = ArchiveSettings {
        destination_root: "/base/missing-root".to_string(),
        date_format: "%Y-%m-%d".to_string(),
    };
    let now = LocalDateTime::new(2026, 3, 27, 10, 0, 0).unwrap();
    let missing = PathProbe { exists: false, is_dir: false };
    let archive = build_archive_plan(&settings, "shoot", &cam, &now, &missing, &directory()).unwrap();
    let entries = vec![folder("/card/DCIM"), file("/card/DCIM/frame.jpg", 5)];
    let discovered = discover_media_files("/card", &directory(), &entries);
    let plan = plan_copy(&cam, "/card", archive, false, discovered).unwrap();
    assert_eq!(plan.archive_plan.destination_root, "/base/missing-root");
    let (summary, destinations) = run(&plan, &[], None);
    assert!(!summary.was_cancelled);
    assert_eq!(destinations, vec!["/base/missing-root/shoot2026-03-27/EOS_R6/DCIM/frame.jpg".to_string()]);
}

#[test]
fn a_run_reports_each_copy_once_and_failures_in_plan_order() {
    let card = device("Card", "/c");
    let entries = vec![file("/c/a.jpg", 1), file("/c/b.jpg", 1), file("/c/c.jpg", 1), file("/c/d.jpg", 1)];
    let discovered = discover_media_files("/c", &directory(), &entries);
    let plan = plan_copy(&card, "/c", archive_plan("/archive", "t", &card), false, discovered).unwrap();
    let mut run = CopyRun::start();
    let mut reports = Vec::new();
    for (k, failing) in [false, true, false, true].iter().enumerate() {
        match run.next_step(&plan, false) {
            CopyStep::Copy { source, .. } => {
                assert_eq!(source, plan.files[k].source_path);
                if *failing {
                    run.record_failed(&plan, format!("error {k}"));
                } else {
                    reports.push(run.record_copied(&plan).copied_files);
                }
            }
            CopyStep::Finish { .. } => panic!("the run stopped early"),
        }
    }
    assert!(matches!(run.next_step(&plan, false), CopyStep::Finish { cancelled: false }));
    let summary = run.into_summary(&plan, false);
    assert_eq!(reports, vec![1, 2]);
    assert_eq!(summary.copied_files, 2);
    let failed: Vec<(String, String)> = summary.failures.iter().map(|f| (f.file.clone(), f.error.clone())).collect();
    assert_eq!(
        failed,
        vec![("/c/b.jpg".to_string(), "error 1".to_string()), ("/c/d.jpg".to_string(), "error 3".to_string())]
    );
}
