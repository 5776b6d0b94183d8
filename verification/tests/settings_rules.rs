use sorted::config::{
    app_identifiers, check_date_format, check_settings, config_path_in, default_config_path, validate_date_format,
    validate_destination_root, validate_settings, ConfigStore,
};
use sorted::datetime::LocalDateTime;
use sorted::errors::SortedError;
use sorted::types::{ArchiveSettings, DatePreview, PathProbe};

fn moment() -> LocalDateTime {
    LocalDateTime::new(2026, 3, 27, 10, 0, 0).unwrap()
}

#[test]
fn validates_supported_date_format() {
    let preview = validate_date_format("%Y-%m-%d", &moment()).unwrap();
    assert_eq!(preview.pattern, "%Y-%m-%d");
    assert!(!preview.preview.is_empty());
    assert_eq!(preview.preview, "2026-03-27");
}

#[test]
fn rejects_unknown_date_format_specifier() {
    let error = validate_date_format("%Q", &moment()).unwrap_err();
    assert!(error.message().contains("unsupported"));
}

#[test]
fn date_format_errors() {
    assert_eq!(check_date_format("   "), Err(SortedError::EmptyDateFormat));
    assert_eq!(check_date_format("%Y-%"), Err(SortedError::TrailingPercent));
    assert_eq!(check_date_format("%Y%%%d"), Ok(()));
    assert_eq!(check_date_format("%F %T %R %e %b %B %y %H %M %S"), Ok(()));
    assert_eq!(check_date_format("%Y%q"), Err(SortedError::UnsupportedSpecifier('q')));
    assert_eq!(
        SortedError::TrailingPercent.message(),
        "date format cannot end with a trailing %"
    );
}

#[test]
fn date_preview_renders_the_given_time() {
    let t = LocalDateTime::new(2026, 3, 27, 10, 5, 9).unwrap();
    let preview = DatePreview::at("%Y-%m-%d %H:%M:%S", &t);
    assert_eq!(preview.preview, "2026-03-27 10:05:09");
    assert_eq!(DatePreview::at("%F", &t).preview, "2026-03-27");
    assert_eq!(DatePreview::at("%d %B %y", &t).preview, "27 March 26");
    assert_eq!(t.render("%T"), "10:05:09");
}

#[test]
fn calendar_dates_are_checked() {
    assert!(LocalDateTime::new(2024, 2, 29, 0, 0, 0).is_some());
    assert!(LocalDateTime::new(2023, 2, 29, 0, 0, 0).is_none());
    assert!(LocalDateTime::new(2026, 13, 1, 0, 0, 0).is_none());
    assert!(LocalDateTime::new(2026, 4, 31, 0, 0, 0).is_none());
    assert!(LocalDateTime::new(2026, 4, 30, 24, 0, 0).is_none());
}

#[test]
fn destination_root_errors() {
    let dir = PathProbe { exists: true, is_dir: true };
    assert_eq!(validate_destination_root("", &dir), Err(SortedError::EmptyDestinationRoot));
    let missing = PathProbe { exists: false, is_dir: false };
    assert_eq!(validate_destination_root("/x", &missing), Ok(()));
    let file = PathProbe { exists: true, is_dir: false };
    assert_eq!(
        validate_destination_root("/x", &file).unwrap_err().message(),
        "destination root /x is not a directory"
    );
    assert_eq!(validate_destination_root("/x", &dir), Ok(()));
}

#[test]
fn settings_are_checked_root_first() {
    let file = PathProbe { exists: true, is_dir: false };
    let settings = ArchiveSettings { destination_root: "/x".to_string(), date_format: "%Q".to_string() };
    assert_eq!(
        validate_settings(&settings, &file, &moment()).unwrap_err(),
        SortedError::DestinationRootNotDirectory("/x".to_string())
    );
    let dir = PathProbe { exists: true, is_dir: true };
    assert_eq!(validate_settings(&settings, &dir, &moment()).unwrap_err(), SortedError::UnsupportedSpecifier('Q'));
    let missing = PathProbe { exists: false, is_dir: false };
    assert_eq!(validate_settings(&settings, &missing, &moment()).unwrap_err(), SortedError::UnsupportedSpecifier('Q'));
}

#[test]
fn config_file_lives_in_the_config_directory() {
    assert_eq!(
        config_path_in(Some("/home/u/.config/sorted".to_string())).unwrap(),
        "/home/u/.config/sorted/config.toml"
    );
    assert_eq!(config_path_in(None), Err(SortedError::NoConfigDirectory));
    if let Ok(path) = default_config_path() {
        assert!(path.ends_with("/config.toml"));
        assert_ne!(path, "config.toml");
    }
    let store = ConfigStore::from_path("/tmp/c.toml".to_string());
    assert_eq!(store.config_path(), "/tmp/c.toml");
}

#[test]
fn default_settings_use_iso_dates() {
    let settings = ArchiveSettings::with_root("/work".to_string());
    assert_eq!(settings.destination_root, "/work");
    assert_eq!(settings.date_format, "%Y-%m-%d");
}

#[test]
fn settings_pass_with_a_preview_at_the_given_moment() {
    let dir = PathProbe { exists: true, is_dir: true };
    let settings = ArchiveSettings { destination_root: "/x".to_string(), date_format: "%d.%m.%y %%".to_string() };
    let preview = validate_settings(&settings, &dir, &moment()).unwrap();
    assert_eq!(preview.preview, "27.03.26 %");
    assert_eq!(check_settings(&settings, &dir), Ok(()));
    let blank = ArchiveSettings { destination_root: "/x".to_string(), date_format: "  ".to_string() };
    assert_eq!(check_settings(&blank, &dir), Err(SortedError::EmptyDateFormat));
}

#[test]
fn configuration_is_looked_up_under_the_application_names() {
    assert_eq!(app_identifiers(), ("com", "sorted", "sorted"));
}
