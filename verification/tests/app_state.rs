use std::collections::HashMap;

use sorted::browser::{
    flatten_settings_tree, flatten_source_tree, folder_listing, path_chain, settings_browser_root, DirectoryLoadState,
    DirectoryStates, PathSet, SourceEntry,
};
use sorted::copy::{CopyFailure, CopyProgress, CopySummary};
use sorted::datetime::LocalDateTime;
use sorted::errors::SortedError;
use sorted::state::{AppState, AsyncValue, DeviceEjectOutcome, Key, SourceSummary};
use sorted::types::{ArchiveSettings, DeviceAvailability, DeviceInfo, PathProbe};
use sorted::ui::{FocusField, Screen, StatusKind, StatusMessage};

fn directory() -> PathProbe {
    PathProbe { exists: true, is_dir: true }
}

fn settings(root: &str) -> ArchiveSettings {
    ArchiveSettings { destination_root: root.to_string(), date_format: "%Y-%m-%d".to_string() }
}

fn test_app() -> AppState {
    let mut app = AppState::new(settings("/tmp/archive"));
    app.devices_loading = false;
    app.status_message = StatusMessage::info("Ready".to_string());
    app
}

fn cam(mount: &str) -> DeviceInfo {
    DeviceInfo {
        id: "cam".to_string(),
        display_name: "EOS R6".to_string(),
        mount_path: mount.to_string(),
        availability: DeviceAvailability::Available,
    }
}

fn now() -> LocalDateTime {
    LocalDateTime::new(2026, 3, 27, 10, 0, 0).unwrap()
}

/// A folder tree standing in for the file system.
fn tree(pairs: &[(&str, &[&str])]) -> HashMap<String, Vec<String>> {
    pairs
        .iter()
        .map(|(k, v)| (k.to_string(), v.iter().map(|c| c.to_string()).collect()))
        .collect()
}

fn children(fs: &HashMap<String, Vec<String>>, path: &str) -> Vec<String> {
    fs.get(path).cloned().unwrap_or_default()
}

/// Opens the settings screen and builds its browser from `fs`, as the
/// program does with the real file system.
fn open_settings(app: &mut AppState, fs: &HashMap<String, Vec<String>>) {
    let effects = app.open_settings();
    assert!(effects.initialize_settings_browser);
    let target = app.settings.destination_root.clone();
    let root = settings_browser_root(&target);
    let listings = path_chain(&root, &target)
        .into_iter()
        .map(|p| {
            let c = children(fs, &p);
            (p, c)
        })
        .collect();
    app.install_settings_browser(root, target, listings);
}

fn settings_position(app: &AppState, path: &str) -> Option<usize> {
    app.settings_entries.iter().position(|e| e.path == path)
}

fn source_position(app: &AppState, path: &str) -> Option<usize> {
    app.source_entries.iter().position(|e| e.path == path)
}

fn settings_fs() -> HashMap<String, Vec<String>> {
    tree(&[
        ("/", &["/tmp"]),
        ("/tmp", &["/tmp/t"]),
        ("/tmp/t", &["/tmp/t/current", "/tmp/t/sibling"]),
        ("/tmp/t/current", &["/tmp/t/current/nested", "/tmp/t/current/sibling"]),
        ("/tmp/t/current/nested", &[]),
        ("/tmp/t/current/sibling", &[]),
        ("/tmp/t/sibling", &[]),
    ])
}

fn source_app() -> AppState {
    let mut app = test_app();
    app.devices = vec![cam("/media/cam")];
    app.directory_state.insert(
        "/media/cam".to_string(),
        DirectoryLoadState::Loaded(vec!["/media/cam/DCIM".to_string()]),
    );
    app.directory_state.insert(
        "/media/cam/DCIM".to_string(),
        DirectoryLoadState::Loaded(vec!["/media/cam/DCIM/100CANON".to_string()]),
    );
    app.expanded_sources.insert("/media/cam".to_string());
    app
}

fn flat_entries(n: usize) -> Vec<SourceEntry> {
    (0..n)
        .map(|index| SourceEntry {
            device_id: String::new(),
            path: format!("/tmp/{index}"),
            label: format!("dir-{index}"),
            depth: 0,
            is_expanded: false,
            has_children: false,
            is_loading: false,
            is_device_root: false,
            is_available: true,
        })
        .collect()
}

#[test]
fn ctrl_q_quits_when_copy_is_not_active() {
    let mut app = test_app();
    let effects = app.handle_key(Key::Char('q'), true);
    assert!(effects.quit);
}

#[test]
fn ctrl_q_requests_copy_stop_while_copy_is_active() {
    let mut app = test_app();
    app.copy_active = true;

    let effects = app.handle_key(Key::Char('q'), true);

    assert!(!effects.quit);
    assert_eq!(app.status_message.kind, StatusKind::Warning);
    assert!(effects.cancel_copy && app.is_cancel_requested());
    assert!(app.status_message.text.contains("Stopping copy"));
}

#[test]
fn ctrl_e_blocks_safe_eject_while_copy_is_active() {
    let mut app = test_app();
    let device = cam("/media/cam");
    app.devices = vec![device.clone()];
    app.import_session.selected_device = Some(device);
    app.copy_active = true;

    let effects = app.handle_key(Key::Char('e'), true);

    assert!(effects.eject.is_none());
    assert_eq!(app.status_message.kind, StatusKind::Warning);
    assert!(app.status_message.text.contains("cannot be ejected while copying"));
}

#[test]
fn safe_eject_of_an_available_device_is_requested() {
    let mut app = test_app();
    let device = cam("/media/cam");
    app.devices = vec![device.clone()];
    app.import_session.selected_device = Some(device.clone());

    let effects = app.handle_key(Key::Char('E'), true);
    assert_eq!(effects.eject, Some(device.clone()));
    assert_eq!(app.status_message.text, "Requesting safe eject for EOS R6...");

    let effects = app.device_ejected(&device, DeviceEjectOutcome::Ejected);
    assert!(effects.refresh_devices && app.devices_loading);
    let e = app.device_ejected(&device, DeviceEjectOutcome::Failed("busy".to_string()));
    assert!(!e.refresh_devices);
    assert_eq!(app.status_message.text, "EOS R6 is not safe to remove yet: busy");

    let mut app = test_app();
    let effects = app.handle_key(Key::Char('e'), true);
    assert!(effects.eject.is_none());
    assert_eq!(app.status_message.text, "Select a removable device before requesting eject.");
}

#[test]
fn settings_feedback_reports_invalid_date_format() {
    let mut app = test_app();
    app.settings.date_format = "%Q".to_string();
    let removed = PathProbe { exists: false, is_dir: false };

    let feedback = app.settings_feedback(&removed, &now());

    assert_eq!(feedback.kind, StatusKind::Error);
    assert!(feedback.text.contains("unsupported date format specifier"));
}

#[test]
fn settings_feedback_previews_valid_settings() {
    let app = test_app();
    let feedback = app.settings_feedback(&directory(), &now());
    assert_eq!(feedback.kind, StatusKind::Success);
    assert!(feedback.text.starts_with("Ready to save. Destination resolves to /tmp/archive and renders dates like "));
    assert!(feedback.text.ends_with(" and renders dates like 2026-03-27."));
}

#[test]
fn invalid_settings_save_stays_in_settings_screen() {
    let mut app = test_app();
    open_settings(&mut app, &settings_fs());
    app.focus = FocusField::DateFormat;
    app.settings.date_format = "%Q".to_string();

    let effects = app.confirm_or_advance();
    assert!(effects.confirm);
    assert!(app.settings_to_save(&directory()).is_none());

    assert_eq!(app.screen, Screen::Settings);
    assert_eq!(app.status_message.kind, StatusKind::Error);
    assert!(app.status_message.text.contains("Settings could not be saved"));
}

#[test]
fn missing_theme_blocks_confirmation_entry() {
    let mut app = test_app();
    let device = cam("/media/cam");
    app.devices = vec![device.clone()];
    app.import_session.selected_device = Some(device);
    app.import_session.selected_source = Some("/media/cam".to_string());

    let effects = app.confirm_or_advance();
    assert!(effects.confirm);
    assert_eq!(app.confirm_main(&now(), &directory(), &directory()), Ok(None));

    assert_eq!(app.screen, Screen::Main);
    assert_eq!(app.focus, FocusField::Theme);
    assert_eq!(app.status_message.kind, StatusKind::Warning);
    assert!(app.status_message.text.contains("Enter a theme"));
}

#[test]
fn existing_archive_destination_blocks_confirmation_entry() {
    let mut app = test_app();
    let device = cam("/media/cam");
    app.devices = vec![device.clone()];
    app.settings.destination_root = "/srv/archive".to_string();
    app.import_session.selected_device = Some(device);
    app.import_session.selected_source = Some("/media/cam/DCIM".to_string());
    app.import_session.theme = "shoot".to_string();

    assert!(app.confirm_or_advance().confirm);
    let (device, plan) = app.confirm_main(&now(), &directory(), &directory()).unwrap().unwrap();
    assert_eq!(plan.archive_root, "/srv/archive/shoot2026-03-27/EOS_R6");
    app.finish_confirmation(device, &plan, true);

    assert_eq!(app.screen, Screen::Main);
    assert_eq!(app.focus, FocusField::SourceTree);
    assert_eq!(app.status_message.kind, StatusKind::Error);
    assert!(app.status_message.text.contains("already exists"));
}

#[test]
fn free_archive_destination_opens_the_review() {
    let mut app = test_app();
    let device = cam("/media/cam");
    app.devices = vec![device.clone()];
    app.import_session.selected_device = Some(device);
    app.import_session.selected_source = Some("/media/cam/DCIM".to_string());
    app.import_session.theme = "shoot".to_string();

    let (device, plan) = app.confirm_main(&now(), &directory(), &directory()).unwrap().unwrap();
    app.finish_confirmation(device, &plan, false);
    assert_eq!(app.screen, Screen::Confirmation);
    assert_eq!(
        app.preview_path(&now(), &directory(), &directory()),
        Some("/tmp/archive/shoot2026-03-27/EOS_R6".to_string())
    );

    let (device, source) = app.prepare_copy().unwrap().unwrap();
    assert_eq!(device.id, "cam");
    assert_eq!(source, "/media/cam/DCIM");
}

#[test]
fn confirming_without_a_device_is_an_error() {
    let mut app = test_app();
    assert_eq!(app.confirm_main(&now(), &directory(), &directory()), Err(SortedError::NoSourceSelected));
    assert_eq!(app.prepare_copy(), Err(SortedError::NoSourceToImport));
    app.copy_active = true;
    let effects = app.confirm_or_advance();
    assert!(!effects.confirm);
    assert_eq!(app.status_message.text, "Copy already in progress. Wait for it to stop first.");
}

#[test]
fn browsing_settings_tree_does_not_change_destination_until_confirmed() {
    let mut app = test_app();
    app.settings.destination_root = "/tmp/t/current".to_string();
    app.persisted_settings = app.settings.clone();

    open_settings(&mut app, &settings_fs());

    let sibling_index = settings_position(&app, "/tmp/t/sibling").unwrap();
    app.settings_index = sibling_index;

    assert_eq!(app.selected_settings_candidate(), Some("/tmp/t/sibling".to_string()));
    assert_eq!(app.settings.destination_root, "/tmp/t/current");
}

#[test]
fn confirming_settings_destination_updates_pending_value_only() {
    let mut app = test_app();
    app.settings.destination_root = "/tmp/t/current".to_string();
    app.persisted_settings = app.settings.clone();

    open_settings(&mut app, &settings_fs());
    app.settings_index = settings_position(&app, "/tmp/t/sibling").unwrap();

    let effects = app.confirm_or_advance();
    assert!(effects.free_space);

    assert_eq!(app.screen, Screen::Settings);
    assert_eq!(app.settings.destination_root, "/tmp/t/sibling");
    assert_eq!(app.persisted_settings.destination_root, "/tmp/t/current");
}

#[test]
fn escaping_settings_discards_unpersisted_destination_change() {
    let mut app = test_app();
    app.settings.destination_root = "/tmp/t/current".to_string();
    app.persisted_settings = app.settings.clone();

    open_settings(&mut app, &settings_fs());
    app.settings_index = settings_position(&app, "/tmp/t/sibling").unwrap();
    app.confirm_or_advance();

    let effects = app.go_back();
    assert!(effects.initialize_settings_browser && effects.free_space);

    assert_eq!(app.screen, Screen::Main);
    assert_eq!(app.settings.destination_root, "/tmp/t/current");
    assert_eq!(app.persisted_settings.destination_root, "/tmp/t/current");
}

#[test]
fn saving_settings_persists_confirmed_destination_selection() {
    let mut app = test_app();
    app.settings.destination_root = "/tmp/t/current".to_string();
    app.persisted_settings = app.settings.clone();

    open_settings(&mut app, &settings_fs());
    app.settings_index = settings_position(&app, "/tmp/t/sibling").unwrap();
    app.confirm_or_advance();
    app.focus = FocusField::DateFormat;

    let effects = app.confirm_or_advance();
    assert!(effects.confirm);
    let to_save = app.settings_to_save(&directory()).unwrap();
    let written = to_save.clone();
    app.settings_saved(to_save, "/home/u/.config/sorted/config.toml");

    assert_eq!(app.screen, Screen::Main);
    assert_eq!(app.settings.destination_root, "/tmp/t/sibling");
    assert_eq!(app.persisted_settings.destination_root, "/tmp/t/sibling");
    assert_eq!(written.destination_root, "/tmp/t/sibling");
    assert_eq!(app.status_message.text, "Saved settings to /home/u/.config/sorted/config.toml");
}

#[test]
fn vim_keys_navigate_source_tree_when_directory_is_focused() {
    let mut app = source_app();
    app.rebuild_source_entries();
    app.source_index = source_position(&app, "/media/cam/DCIM").unwrap();
    app.sync_selection_from_index();

    app.handle_key(Key::Char('l'), false);
    assert!(app.expanded_sources.contains("/media/cam/DCIM"));

    app.handle_key(Key::Char('j'), false);
    assert_eq!(app.selected_source(), Some("/media/cam/DCIM/100CANON".to_string()));

    app.handle_key(Key::Char('k'), false);
    assert_eq!(app.selected_source(), Some("/media/cam/DCIM".to_string()));

    app.handle_key(Key::Char('h'), false);
    assert!(!app.expanded_sources.contains("/media/cam/DCIM"));
}

#[test]
fn vim_keys_remain_text_input_when_theme_is_focused() {
    let mut app = test_app();
    app.focus = FocusField::Theme;

    for ch in ['h', 'j', 'k', 'l'] {
        app.handle_key(Key::Char(ch), false);
    }

    assert_eq!(app.import_session.theme, "hjkl");
    app.handle_key(Key::Backspace, false);
    assert_eq!(app.import_session.theme, "hjk");
    app.handle_key(Key::Char('\u{7}'), false);
    assert_eq!(app.import_session.theme, "hjk");
}

#[test]
fn ctrl_d_and_ctrl_u_move_half_a_page_in_settings_browser() {
    let mut app = test_app();
    app.screen = Screen::Settings;
    app.focus = FocusField::DestinationRoot;
    app.settings_viewport_height = 6;
    app.settings_entries = flat_entries(12);

    app.handle_key(Key::Char('d'), true);
    assert_eq!(app.settings_index, 3);

    app.handle_key(Key::Char('d'), true);
    assert_eq!(app.settings_index, 6);

    app.handle_key(Key::Char('u'), true);
    assert_eq!(app.settings_index, 3);
}

#[test]
fn ctrl_d_is_ignored_when_directory_focus_is_not_active() {
    let mut app = test_app();
    app.focus = FocusField::Theme;
    app.source_viewport_height = 6;
    app.source_entries = flat_entries(12);

    app.handle_key(Key::Char('d'), true);

    assert_eq!(app.source_index, 0);
    assert!(app.import_session.theme.is_empty());
}

#[test]
fn left_on_expanded_source_folder_collapses_that_folder() {
    let mut app = source_app();
    app.expanded_sources.insert("/media/cam/DCIM".to_string());
    app.rebuild_source_entries();
    app.source_index = source_position(&app, "/media/cam/DCIM").unwrap();
    app.sync_selection_from_index();

    app.handle_left();

    assert!(!app.expanded_sources.contains("/media/cam/DCIM"));
    assert_eq!(source_position(&app, "/media/cam/DCIM"), Some(app.source_index));
    assert!(!app.source_entries.iter().any(|e| e.path == "/media/cam/DCIM/100CANON"));
    assert_eq!(app.selected_source(), Some("/media/cam/DCIM".to_string()));
}

#[test]
fn left_on_source_child_returns_to_parent_and_collapses_parent() {
    let mut app = source_app();
    app.expanded_sources.insert("/media/cam/DCIM".to_string());
    app.rebuild_source_entries();
    app.source_index = source_position(&app, "/media/cam/DCIM/100CANON").unwrap();
    app.sync_selection_from_index();

    app.handle_left();

    assert!(!app.expanded_sources.contains("/media/cam/DCIM"));
    assert_eq!(source_position(&app, "/media/cam/DCIM"), Some(app.source_index));
    assert!(!app.source_entries.iter().any(|e| e.path == "/media/cam/DCIM/100CANON"));
    assert_eq!(app.selected_source(), Some("/media/cam/DCIM".to_string()));
}

#[test]
fn left_on_expanded_settings_folder_collapses_that_folder() {
    let mut app = test_app();
    app.settings.destination_root = "/tmp/t/current/nested".to_string();
    app.persisted_settings = app.settings.clone();

    open_settings(&mut app, &settings_fs());
    app.settings_index = settings_position(&app, "/tmp/t/current").unwrap();

    app.handle_left();

    assert!(!app.expanded_settings_directories.contains("/tmp/t/current"));
    assert_eq!(settings_position(&app, "/tmp/t/current"), Some(app.settings_index));
    assert!(!app.settings_entries.iter().any(|e| e.path == "/tmp/t/current/nested"));
}

#[test]
fn left_on_settings_child_returns_to_parent_and_collapses_parent() {
    let mut app = test_app();
    app.settings.destination_root = "/tmp/t/current/nested".to_string();
    app.persisted_settings = app.settings.clone();

    open_settings(&mut app, &settings_fs());
    app.settings_index = settings_position(&app, "/tmp/t/current/sibling").unwrap();

    app.handle_left();

    assert!(!app.expanded_settings_directories.contains("/tmp/t/current"));
    assert_eq!(settings_position(&app, "/tmp/t/current"), Some(app.settings_index));
    assert!(!app.settings_entries.iter().any(|e| e.path == "/tmp/t/current/sibling"));
}

#[test]
fn settings_browser_opens_on_the_destination() {
    let mut app = test_app();
    app.settings.destination_root = "/tmp/t/current".to_string();
    app.persisted_settings = app.settings.clone();
    open_settings(&mut app, &settings_fs());

    let paths: Vec<&str> = app.settings_entries.iter().map(|e| e.path.as_str()).collect();
    assert_eq!(
        paths,
        vec!["/", "/tmp", "/tmp/t", "/tmp/t/current", "/tmp/t/current/nested", "/tmp/t/current/sibling", "/tmp/t/sibling"]
    );
    assert_eq!(app.settings_entries[app.settings_index].path, "/tmp/t/current");
    assert_eq!(app.settings_entries[0].label, "/");
    assert_eq!(app.settings_entries[4].depth, 4);
}

#[test]
fn expanding_an_unread_settings_folder_reads_it() {
    let fs = settings_fs();
    let mut app = test_app();
    app.settings.destination_root = "/tmp/t/current".to_string();
    app.persisted_settings = app.settings.clone();
    open_settings(&mut app, &fs);
    app.settings_index = settings_position(&app, "/tmp/t/sibling").unwrap();
    app.settings_entries[app.settings_index].has_children = true;

    let effects = app.handle_key(Key::Right, false);
    let path = effects.read_settings_directory.unwrap();
    assert_eq!(path, "/tmp/t/sibling");
    app.settings_directory_read(path.clone(), vec!["/tmp/t/sibling/a".to_string()]);

    assert!(app.expanded_settings_directories.contains("/tmp/t/sibling"));
    assert_eq!(app.settings_entries[app.settings_index].path, "/tmp/t/sibling");
    assert!(app.settings_entries.iter().any(|e| e.path == "/tmp/t/sibling/a"));
}

#[test]
fn path_chain_walks_down_from_the_root() {
    assert_eq!(settings_browser_root("/tmp/t"), "/");
    assert_eq!(settings_browser_root("photos/x"), "photos/x");
    assert_eq!(path_chain("/", "/tmp/t"), vec!["/", "/tmp", "/tmp/t"]);
    assert_eq!(path_chain("/tmp", "/tmp/./a/../b"), vec!["/tmp", "/tmp/a", "/tmp/a/b"]);
    assert_eq!(path_chain("/x", "/y/z"), vec!["/x", "/x/y", "/x/y/z"]);
    assert_eq!(path_chain("/", "/"), vec!["/"]);
}

#[test]
fn found_devices_replace_the_browser() {
    let mut app = test_app();
    app.import_session.selected_source = Some("/media/b".to_string());
    let b = DeviceInfo { id: "/media/b".to_string(), display_name: "B".to_string(), mount_path: "/media/b".to_string(), availability: DeviceAvailability::Available };
    let a = DeviceInfo { id: "/media/a".to_string(), display_name: "A".to_string(), mount_path: "/media/a".to_string(), availability: DeviceAvailability::Available };

    let effects = app.devices_loaded(Ok(vec![a.clone(), b.clone()]));

    assert!(!app.devices_loading);
    assert_eq!(effects.load_directories, vec!["/media/a".to_string(), "/media/b".to_string()]);
    assert_eq!(app.source_entries.len(), 2);
    assert_eq!(app.source_index, 1);
    assert_eq!(app.selected_source(), Some("/media/b".to_string()));
    assert_eq!(app.selected_device(), Some(b));
    assert_eq!(effects.source_summary, Some("/media/b".to_string()));
    assert_eq!(app.source_summary, AsyncValue::Loading);
    assert_eq!(app.status_message.text, "Found 2 removable device(s).");

    app.source_summary_loaded("/media/a".to_string(), Ok(SourceSummary { file_count: 1, total_bytes: 1 }));
    assert_eq!(app.source_summary, AsyncValue::Loading);
    app.source_summary_loaded("/media/b".to_string(), Ok(SourceSummary { file_count: 3, total_bytes: 9 }));
    assert_eq!(app.source_summary, AsyncValue::Ready(SourceSummary { file_count: 3, total_bytes: 9 }));

    app.directory_loaded("/media/b".to_string(), vec!["/media/b/DCIM".to_string()]);
    assert_eq!(app.status_message.text, "Loaded /media/b");

    let effects = app.devices_loaded(Ok(vec![]));
    assert!(effects.load_directories.is_empty());
    assert_eq!(app.status_message.kind, StatusKind::Warning);
    assert_eq!(app.status_message.text, "No removable devices found.");
    assert_eq!(app.selected_source(), None);

    app.devices_loaded(Err("no disks".to_string()));
    assert_eq!(app.status_message.text, "Device refresh failed: no disks");
}

#[test]
fn refreshing_devices_waits_for_the_copy() {
    let mut app = test_app();
    assert!(app.request_device_refresh());
    assert!(app.devices_loading);
    assert_eq!(app.status_message.text, "Refreshing devices in the background...");
    app.copy_active = true;
    assert!(!app.handle_key(Key::F(5), false).refresh_devices);
    assert_eq!(app.status_message.text, "Copy is running. Wait for it to finish before refreshing devices.");
    let e = app.open_settings();
    assert!(!e.initialize_settings_browser);
    assert_eq!(app.screen, Screen::Main);
}

#[test]
fn free_space_is_asked_for_a_valid_root_once() {
    let mut app = test_app();
    assert_eq!(app.request_destination_free_space(&directory()), Some("/tmp/archive".to_string()));
    assert_eq!(app.request_destination_free_space(&directory()), None);
    app.free_space_loaded("/tmp/archive".to_string(), Ok(4096));
    assert_eq!(app.destination_free_space, AsyncValue::Ready(4096));
    let file = PathProbe { exists: true, is_dir: false };
    assert_eq!(app.request_destination_free_space(&file), None);
    assert_eq!(
        app.destination_free_space,
        AsyncValue::Error("Free space appears after the destination path is valid.".to_string())
    );
}

#[test]
fn copy_run_messages() {
    let mut app = test_app();
    app.copy_active = true;
    app.copy_progressed(CopyProgress { copied_files: 1, total_files: 4, current_file: None });
    assert_eq!(app.status_message.text, "Copying media files: 1/4 complete");

    let summary = CopySummary { destination: "/a".to_string(), copied_files: 4, failures: vec![], was_cancelled: false };
    app.copy_finished(Ok(summary), 65);
    assert!(!app.is_copy_active());
    assert_eq!(app.status_message.kind, StatusKind::Success);
    assert_eq!(app.status_message.text, "Copy finished: 4 files archived in 1m 05s.");

    let summary = CopySummary { destination: "/a".to_string(), copied_files: 1, failures: vec![], was_cancelled: true };
    app.copy_finished(Ok(summary), 3);
    assert_eq!(app.status_message.text, "Copy interrupted after 1 file in 3s.");

    let failure = CopyFailure { file: "/x.jpg".to_string(), error: "denied".to_string() };
    let summary = CopySummary { destination: "/a".to_string(), copied_files: 2, failures: vec![failure], was_cancelled: false };
    app.copy_finished(Ok(summary), 3700);
    assert_eq!(app.status_message.kind, StatusKind::Warning);
    assert_eq!(app.status_message.text, "Copy completed in 1h 01m 40s with 1 failure.");

    app.copy_finished(Err("disk full".to_string()), 0);
    assert_eq!(app.status_message.text, "Copy failed: disk full");
    assert_eq!(app.copy_result, None);
}

#[test]
fn tab_and_escape_move_between_fields_and_screens() {
    let mut app = test_app();
    app.handle_key(Key::Tab, false);
    assert_eq!(app.focus, FocusField::Theme);
    app.handle_key(Key::Tab, false);
    assert_eq!(app.focus, FocusField::SourceTree);
    app.screen = Screen::CopyResults;
    app.handle_key(Key::Enter, false);
    assert_eq!(app.screen, Screen::Main);
    assert_eq!(app.status_message.text, "Returned to import screen.");
    app.screen = Screen::Confirmation;
    app.handle_key(Key::Esc, false);
    assert_eq!(app.screen, Screen::Main);
}

#[test]
fn folder_listings_hide_dot_folders_and_sort() {
    let listed = vec![
        "/m/b".to_string(),
        "/m/.Trashes".to_string(),
        "/m/a b".to_string(),
        "/m/a".to_string(),
        "/m/a-".to_string(),
    ];
    assert_eq!(folder_listing(&listed), vec!["/m/a", "/m/a b", "/m/a-", "/m/b"]);
}

fn row_fields(e: &SourceEntry) -> (String, String, usize, bool, bool, bool) {
    (e.path.clone(), e.label.clone(), e.depth, e.is_expanded, e.has_children, e.is_loading)
}

#[test]
fn flattened_rows_carry_labels_and_children_flags() {
    let mut dirs = DirectoryStates::new();
    dirs.insert("/m".to_string(), DirectoryLoadState::Loaded(vec!["/m/DCIM".to_string()]));
    dirs.insert(
        "/m/DCIM".to_string(),
        DirectoryLoadState::Loaded(vec!["/m/DCIM/100A".to_string(), "/m/DCIM/200B".to_string()]),
    );
    dirs.insert("/m/DCIM/100A".to_string(), DirectoryLoadState::Loaded(vec!["/m/DCIM/100A/X".to_string()]));
    dirs.insert("/m/DCIM/200B".to_string(), DirectoryLoadState::Loaded(Vec::new()));
    let mut expanded = PathSet::new();
    expanded.insert("/m".to_string());
    expanded.insert("/m/DCIM".to_string());
    let device = DeviceInfo {
        id: "cam".to_string(),
        display_name: "EOS R6".to_string(),
        mount_path: "/m".to_string(),
        availability: DeviceAvailability::Available,
    };
    let mut entries = Vec::new();
    flatten_source_tree(&device, &dirs, &expanded, 0, &mut entries);
    let rows: Vec<_> = entries.iter().map(row_fields).collect();
    assert_eq!(
        rows,
        vec![
            ("/m".to_string(), "EOS R6".to_string(), 0, true, true, false),
            ("/m/DCIM".to_string(), "DCIM".to_string(), 1, true, true, false),
            ("/m/DCIM/100A".to_string(), "100A".to_string(), 2, false, true, false),
            ("/m/DCIM/200B".to_string(), "200B".to_string(), 2, false, false, false),
        ]
    );
    assert!(entries.iter().all(|e| e.device_id == "cam" && e.is_available));
    assert!(entries[0].is_device_root);
    assert!(entries[1..].iter().all(|e| !e.is_device_root));
}

#[test]
fn settings_rows_show_loading_and_unknown_folders() {
    let mut dirs = DirectoryStates::new();
    dirs.insert("/srv".to_string(), DirectoryLoadState::Loaded(vec!["/srv/a".to_string(), "/srv/b".to_string()]));
    dirs.insert("/srv/a".to_string(), DirectoryLoadState::Loading);
    let mut expanded = PathSet::new();
    expanded.insert("/srv".to_string());
    let mut entries = Vec::new();
    flatten_settings_tree("/srv", &dirs, &expanded, &mut entries);
    let rows: Vec<_> = entries.iter().map(row_fields).collect();
    assert_eq!(
        rows,
        vec![
            ("/srv".to_string(), "/srv".to_string(), 0, true, true, false),
            ("/srv/a".to_string(), "a".to_string(), 1, false, true, true),
            ("/srv/b".to_string(), "b".to_string(), 1, false, true, false),
        ]
    );
    assert!(entries[0].is_device_root && entries.iter().all(|e| e.device_id.is_empty()));
    let mut root_only = Vec::new();
    flatten_settings_tree("", &DirectoryStates::new(), &PathSet::new(), &mut root_only);
    assert_eq!(root_only[0].label, "/");
}

#[test]
fn half_page_moves_scale_with_the_direction() {
    let mut app = test_app();
    app.screen = Screen::Settings;
    app.focus = FocusField::DestinationRoot;
    app.settings_viewport_height = 6;
    app.settings_entries = flat_entries(12);

    app.move_by_half_page(2);
    assert_eq!(app.settings_index, 6);
    app.move_by_half_page(-3);
    assert_eq!(app.settings_index, 0);
    app.move_by_half_page(isize::MAX / 3);
    assert_eq!(app.settings_index, 11);
    app.move_by_half_page(0);
    assert_eq!(app.settings_index, 11);
}
