use sorted::archive::{
    build_archive_plan, destination_preview, join_path, normalize_path_component, plan_archive,
};
use sorted::datetime::LocalDateTime;
use sorted::errors::SortedError;
use sorted::types::{ArchiveSettings, DeviceAvailability, DeviceInfo, PathProbe};

fn directory() -> PathProbe {
    PathProbe { exists: true, is_dir: true }
}

fn camera(mount: &str) -> DeviceInfo {
    DeviceInfo {
        id: "cam".to_string(),
        display_name: "EOS R6".to_string(),
        mount_path: mount.to_string(),
        availability: DeviceAvailability::Available,
    }
}

#[test]
fn normalizes_unsafe_path_characters() {
    assert_eq!(normalize_path_component("EOS:R6/Primary"), "EOS_R6_Primary");
}

#[test]
fn replaces_spaces_with_underscores() {
    assert_eq!(normalize_path_component("EOS R6 Main Card"), "EOS_R6_Main_Card");
}

#[test]
fn builds_expected_archive_path() {
    let root = "/srv/archive";
    let settings = ArchiveSettings {
        destination_root: root.to_string(),
        date_format: "%Y-%m-%d".to_string(),
    };
    let device = camera(root);
    let now = LocalDateTime::new(2026, 3, 27, 10, 0, 0).unwrap();

    let plan = build_archive_plan(&settings, "xxx travel", &device, &now, &directory(), &directory())
        .unwrap();

    assert_eq!(plan.archive_root, "/srv/archive/xxx_travel2026-03-27/EOS_R6");
    assert_eq!(plan.theme_segment, "xxx_travel");
    assert_eq!(plan.date_segment, "2026-03-27");
    assert_eq!(plan.device_segment, "EOS_R6");
    assert_eq!(destination_preview(&plan), plan.archive_root);
}

#[test]
fn normalizing_trims_dots_and_collapses_white_space() {
    assert_eq!(normalize_path_component("  ..My   Trip.. "), "My_Trip");
    assert_eq!(normalize_path_component("a\tb"), "a_b");
    assert_eq!(normalize_path_component("..."), "");
    assert_eq!(normalize_path_component(""), "");
}

#[test]
fn normalizing_twice_changes_nothing() {
    for input in ["EOS:R6/Primary", "  ..My   Trip.. ", "a<b>c|d?e*f", "x\\y\"z"] {
        let once = normalize_path_component(input);
        assert_eq!(normalize_path_component(&once), once);
        for c in once.chars() {
            assert!(!"<>:\"/\\|?*".contains(c));
            assert!(!c.is_whitespace());
        }
    }
}

#[test]
fn joins_path_segments() {
    assert_eq!(join_path("/a", "b"), "/a/b");
    assert_eq!(join_path("/a/", "b"), "/a/b");
    assert_eq!(join_path("", "b"), "b");
    assert_eq!(join_path("/a", "/b"), "/b");
}

#[test]
fn archive_plan_errors_name_their_cause() {
    let now = LocalDateTime::new(2026, 3, 27, 10, 0, 0).unwrap();
    let good = ArchiveSettings { destination_root: "/srv".to_string(), date_format: "%Y".to_string() };
    let missing = PathProbe { exists: false, is_dir: false };

    let plan = build_archive_plan(&good, "t", &camera("/m"), &now, &missing, &directory()).unwrap();
    assert_eq!(plan.archive_root, "/srv/t2026/EOS_R6");

    let file = PathProbe { exists: true, is_dir: false };
    let e = build_archive_plan(&good, "t", &camera("/m"), &now, &file, &directory()).unwrap_err();
    assert_eq!(e, SortedError::DestinationRootNotDirectory("/srv".to_string()));

    let bad_format = ArchiveSettings { destination_root: "/srv".to_string(), date_format: "%Q".to_string() };
    let e = build_archive_plan(&bad_format, "t", &camera("/m"), &now, &directory(), &directory()).unwrap_err();
    assert_eq!(e, SortedError::UnsupportedSpecifier('Q'));

    let mut gone = camera("/m");
    gone.availability = DeviceAvailability::Unavailable("gone".to_string());
    let e = build_archive_plan(&good, "t", &gone, &now, &directory(), &directory()).unwrap_err();
    assert_eq!(e, SortedError::DeviceUnavailable);

    let e = build_archive_plan(&good, "t", &camera("/m"), &now, &directory(), &missing).unwrap_err();
    assert_eq!(e, SortedError::MountPathMissing("/m".to_string()));

    let e = build_archive_plan(&good, " .. ", &camera("/m"), &now, &directory(), &directory()).unwrap_err();
    assert_eq!(e, SortedError::EmptyTheme);

    let mut nameless = camera("/m");
    nameless.display_name = "...".to_string();
    let e = build_archive_plan(&good, "t", &nameless, &now, &directory(), &directory()).unwrap_err();
    assert_eq!(e, SortedError::EmptyDeviceName);
}

#[test]
fn plans_archive_from_a_rendered_date() {
    let settings = ArchiveSettings {
        destination_root: "/srv/archive/".to_string(),
        date_format: "%Y/%m".to_string(),
    };
    let plan = plan_archive(&settings, "Winter Shoot", &camera("/m"), "2026/03".to_string(), &directory(), &directory())
        .unwrap();
    assert_eq!(plan.archive_root, "/srv/archive/Winter_Shoot2026/03/EOS_R6");
    assert_eq!(plan.date_segment, "2026/03");
}
