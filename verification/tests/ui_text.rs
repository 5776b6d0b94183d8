use sorted::browser::SourceEntry;
use sorted::copy::CopyProgress;
use sorted::types::{DeviceAvailability, DeviceInfo};
use sorted::ui::{
    autoscroll_offset, browser_row_text, browser_window, availability_message, capacity_state, contextual_help,
    copy_progress_current_file, copy_progress_summary, copy_status_message, display_root_label,
    format_duration, global_help_text, pluralize, FocusField, Screen, StatusKind,
};

#[test]
fn contextual_help_is_screen_aware() {
    assert!(contextual_help(Screen::Settings, FocusField::DestinationRoot).contains("confirms"));
    assert!(contextual_help(Screen::Settings, FocusField::DateFormat).contains("saves"));
    assert!(contextual_help(Screen::Main, FocusField::SourceTree).contains("Ctrl+U/Ctrl+D"));
    assert!(contextual_help(Screen::CopyResults, FocusField::SourceTree).contains("Enter or Esc"));
    assert!(contextual_help(Screen::Confirmation, FocusField::SourceTree).contains("Enter starts"));
}

#[test]
fn autoscroll_offset_keeps_lower_selection_visible() {
    assert_eq!(autoscroll_offset(0, 0, 5), 0);
    assert_eq!(autoscroll_offset(0, 4, 5), 0);
    assert_eq!(autoscroll_offset(0, 5, 5), 1);
    assert_eq!(autoscroll_offset(3, 2, 5), 2);
    assert_eq!(autoscroll_offset(3, 7, 5), 3);
    assert_eq!(autoscroll_offset(3, 8, 5), 4);
}

#[test]
fn scrolled_selection_stays_in_view() {
    for offset in 0..12usize {
        for selected in 0..12usize {
            for height in 1..6usize {
                let o = autoscroll_offset(offset, selected, height);
                assert!(o <= selected && selected < o + height);
            }
        }
    }
    assert_eq!(autoscroll_offset(7, 3, 0), 0);
}

#[test]
fn counts_and_durations_read_naturally() {
    assert_eq!(pluralize(1, "file", "files"), "1 file");
    assert_eq!(pluralize(0, "file", "files"), "0 files");
    assert_eq!(pluralize(12, "item", "items"), "12 items");
    assert_eq!(format_duration(0), "0s");
    assert_eq!(format_duration(59), "59s");
    assert_eq!(format_duration(61), "1m 01s");
    assert_eq!(format_duration(3725), "1h 02m 05s");
}

#[test]
fn progress_texts() {
    let progress = CopyProgress {
        copied_files: 3,
        total_files: 5,
        current_file: Some("/tmp/media/frame.cr3".to_string()),
    };
    assert_eq!(copy_progress_summary(Some(&progress)), "3 of 5 files copied");
    assert_eq!(copy_progress_current_file(Some(&progress)), "/tmp/media/frame.cr3");
    assert_eq!(copy_status_message(&progress), "Copying media files: 3/5 complete");
    assert_eq!(copy_progress_current_file(None), "Preparing copy job...");
    assert_eq!(copy_progress_summary(None), "Preparing copy job...");
}

#[test]
fn capacity_compares_free_space_with_the_source() {
    assert_eq!(capacity_state(Some(10), Some(10)), Some(true));
    assert_eq!(capacity_state(Some(11), Some(10)), Some(false));
    assert_eq!(capacity_state(None, Some(10)), None);
    assert_eq!(capacity_state(Some(1), None), None);
}

#[test]
fn availability_and_labels() {
    let mut device = DeviceInfo {
        id: "cam".to_string(),
        display_name: "EOS R6".to_string(),
        mount_path: "/m".to_string(),
        availability: DeviceAvailability::Available,
    };
    let m = availability_message(&device);
    assert_eq!(m.kind, StatusKind::Success);
    assert_eq!(m.text, "EOS R6 is ready to import.");
    device.availability = DeviceAvailability::Unavailable("gone".to_string());
    let m = availability_message(&device);
    assert_eq!(m.kind, StatusKind::Warning);
    assert_eq!(m.text, "EOS R6 cannot be used: gone");
    assert_eq!(display_root_label(""), "/");
    assert_eq!(display_root_label("/srv"), "/srv");
    assert!(global_help_text(Screen::Main).contains("Ctrl+Q"));
    assert_eq!(StatusKind::Error.icon(), "✕");
}

#[test]
fn browser_rows_read_as_a_tree() {
    let mut entry = SourceEntry {
        device_id: "cam".to_string(),
        path: "/m/DCIM".to_string(),
        label: "DCIM".to_string(),
        depth: 2,
        is_expanded: false,
        has_children: true,
        is_loading: false,
        is_device_root: false,
        is_available: true,
    };
    assert_eq!(browser_row_text(&entry, "◜"), "    ▸ DCIM");
    entry.is_expanded = true;
    entry.is_loading = true;
    assert_eq!(browser_row_text(&entry, "◜"), "    ▾ DCIM  ◜");
    entry.has_children = false;
    entry.depth = 0;
    entry.is_loading = false;
    assert_eq!(browser_row_text(&entry, "◜"), "• DCIM");

    assert_eq!(browser_window(0, 3, 0, 5), None);
    assert_eq!(browser_window(10, 20, 0, 5), Some((5, 9)));
    assert_eq!(browser_window(10, 2, 4, 5), Some((2, 2)));
    assert_eq!(browser_window(3, 1, 7, 5), Some((1, 1)));
}
