use sorted::discovery::{
    build_device_info, collect_devices, decode_mount_field, linux_mount_candidates,
    linux_mount_device_name, linux_parent_block_device_name, normalize_device_name,
    parse_linux_mount_entry, platform_device_fallback_name, removable_flag,
    select_linux_mount_devices, should_include_disk, sort_by_display_name, should_include_linux_disk,
    should_include_macos_disk, should_include_windows_disk, validate_selected_device, DiskKind,
    DiskRecord, DeviceRegistry,
};
use sorted::types::{DeviceAvailability, DeviceInfo, PathProbe, Platform};

fn directory() -> PathProbe {
    PathProbe { exists: true, is_dir: true }
}

fn missing() -> PathProbe {
    PathProbe { exists: false, is_dir: false }
}

fn device(id: &str, name: &str) -> DeviceInfo {
    DeviceInfo {
        id: id.to_string(),
        display_name: name.to_string(),
        mount_path: id.to_string(),
        availability: DeviceAvailability::Available,
    }
}

#[test]
fn marks_missing_device_as_unavailable() {
    let device = DeviceInfo {
        id: "a".to_string(),
        display_name: "EOS R6".to_string(),
        mount_path: "/tmp/example".to_string(),
        availability: DeviceAvailability::Available,
    };

    let validated = validate_selected_device(&device, &vec![]).unwrap();
    assert!(!validated.is_available());
    assert_eq!(
        validated.availability,
        DeviceAvailability::Unavailable("device is no longer connected or readable".to_string())
    );
}

#[test]
fn validation_takes_the_visible_record() {
    let stale = device("/media/a", "Old");
    let mut fresh = device("/media/a", "New");
    fresh.availability = DeviceAvailability::Unavailable("busy".to_string());
    let validated = validate_selected_device(&stale, &vec![device("/media/b", "B"), fresh.clone()]).unwrap();
    assert_eq!(validated, fresh);
}

#[test]
fn builds_device_info_from_mount_path() {
    let device = build_device_info("", "/Volumes/NIKON Z 6_2".to_string(), &missing(), Platform::MacOs);
    assert_eq!(device.display_name, "NIKON Z 6_2");
}

#[test]
fn device_info_reports_its_mount_state() {
    let d = build_device_info("  Card  ", "/media/card".to_string(), &directory(), Platform::Linux);
    assert_eq!(d.id, "/media/card");
    assert_eq!(d.display_name, "Card");
    assert!(d.is_available());
    let d = build_device_info("Card", "/media/card".to_string(), &missing(), Platform::Linux);
    assert_eq!(
        d.availability,
        DeviceAvailability::Unavailable("device mount path is unavailable".to_string())
    );
}

#[test]
fn device_names_fall_back_by_platform() {
    assert_eq!(normalize_device_name("", "/", Platform::Windows), platform_device_fallback_name(Platform::Windows));
    assert_eq!(platform_device_fallback_name(Platform::Windows), "Removable Drive");
    assert_eq!(normalize_device_name("", "/", Platform::MacOs), "External Volume");
    assert_eq!(normalize_device_name("", "/", Platform::Linux), "Removable Media");
    assert_eq!(normalize_device_name("", "/", Platform::Other), "Device");
    assert_eq!(normalize_device_name("", "/media/..", Platform::Linux), "Removable Media");
    assert_eq!(normalize_device_name(" ", "/media/usb/", Platform::Linux), "usb");
}

#[test]
fn includes_linux_removable_mount_even_with_unknown_disk_kind() {
    assert!(should_include_linux_disk(true, &directory()));
}

#[test]
fn excludes_linux_mount_when_not_removable() {
    assert!(!should_include_linux_disk(false, &directory()));
}

#[test]
fn excludes_windows_unknown_disk_kind() {
    assert!(!should_include_windows_disk(DiskKind::Unknown(-1), true, &directory()));
    assert!(should_include_windows_disk(DiskKind::Ssd, true, &directory()));
    assert!(should_include_windows_disk(DiskKind::Unknown(3), true, &directory()));
}

#[test]
fn macos_lists_browsable_volumes_only() {
    assert!(should_include_macos_disk("/Volumes/CARD", &directory()));
    assert!(!should_include_macos_disk("/Volumes", &directory()));
    assert!(!should_include_macos_disk("/Volumes/CARD", &missing()));
    assert!(!should_include_macos_disk("/", &directory()));
    let disk = DiskRecord {
        name: "CARD".to_string(),
        mount_point: "/Volumes/CARD".to_string(),
        is_removable: false,
        kind: DiskKind::Unknown(-1),
    };
    assert!(should_include_disk(Platform::MacOs, &disk, &directory()));
    assert!(!should_include_disk(Platform::Linux, &disk, &directory()));
    assert!(!should_include_disk(Platform::Other, &disk, &directory()));
}

#[test]
fn parses_linux_parent_block_device_names() {
    assert_eq!(linux_parent_block_device_name("sdd1"), "sdd");
    assert_eq!(linux_parent_block_device_name("mmcblk0p1"), "mmcblk0");
    assert_eq!(linux_parent_block_device_name("nvme0n1p1"), "nvme0n1");
    assert_eq!(linux_parent_block_device_name("sdd"), "sdd");
}

#[test]
fn decodes_mount_fields() {
    assert_eq!(decode_mount_field("/media/My\\040Card"), "/media/My Card");
    assert_eq!(decode_mount_field("a\\011b\\012c\\134d"), "a\tb\nc\\d");
    assert_eq!(
        parse_linux_mount_entry("/dev/sdb1 /media/My\\040Card vfat rw 0 0"),
        Some(("/dev/sdb1".to_string(), "/media/My Card".to_string()))
    );
    assert_eq!(parse_linux_mount_entry("lonely"), None);
    assert_eq!(linux_mount_device_name("/dev/sdb1"), Some("sdb".to_string()));
    assert_eq!(linux_mount_device_name("/dev/"), Some("dev".to_string()));
    assert_eq!(linux_mount_device_name("/"), None);
    assert!(removable_flag("1\n"));
    assert!(!removable_flag("0\n"));
    assert!(!removable_flag("11"));
}

#[test]
fn discovers_linux_removable_mounts_from_proc_mounts_fallback() {
    let mount_path = "/tmp/root/share/external/DEV3301_1";
    let contents = format!(
        "/dev/sdd1 {} exfat rw,relatime 0 0\n/dev/md9 /mnt/HDA_ROOT ext4 rw 0 0\n",
        mount_path
    );
    let candidates = linux_mount_candidates(&contents);
    let probes: Vec<PathProbe> = candidates
        .iter()
        .map(|c| if c.mount_path == mount_path { directory() } else { missing() })
        .collect();
    let removable: Vec<bool> = candidates.iter().map(|c| c.device_name == "sdd").collect();

    let devices = select_linux_mount_devices(&candidates, &probes, &removable, Platform::Linux);

    assert_eq!(devices.len(), 1);
    assert_eq!(devices[0].mount_path, mount_path);
    assert_eq!(devices[0].display_name, "DEV3301_1");
}

#[test]
fn later_devices_replace_earlier_ones_with_the_same_id() {
    let found = vec![device("/b", "B1"), device("/a", "A"), device("/b", "B2")];
    let devices = collect_devices(&found);
    assert_eq!(devices, vec![device("/a", "A"), device("/b", "B2")]);

    let mut registry = DeviceRegistry::new();
    registry.insert(device("/z", "Z"));
    registry.insert(device("/c", "C"));
    registry.insert(device("/z", "Z2"));
    assert_eq!(registry.into_values(), vec![device("/c", "C"), device("/z", "Z2")]);
}

#[test]
fn discovers_macos_volumes_from_directory_entries() {
    let listed = vec!["/Volumes/SD_CARD", "/Volumes/NIKON Z 6_2"];
    let found: Vec<DeviceInfo> = listed
        .iter()
        .map(|p| {
            let raw = p.rsplit('/').next().unwrap();
            build_device_info(raw, p.to_string(), &directory(), Platform::MacOs)
        })
        .collect();

    let devices = sort_by_display_name(&found);

    assert_eq!(devices.len(), 2);
    assert_eq!(devices[0].display_name, "NIKON Z 6_2");
    assert_eq!(devices[1].display_name, "SD_CARD");
}

#[test]
fn windows_mount_paths_name_devices_by_their_rules() {
    assert_eq!(normalize_device_name("", "E:\\", Platform::Windows), "Removable Drive");
    assert_eq!(normalize_device_name("", "E:", Platform::Windows), "Removable Drive");
    assert_eq!(normalize_device_name("", "E:\\Cards\\EOS", Platform::Windows), "EOS");
    assert_eq!(normalize_device_name("", "F:/media/SD_CARD/", Platform::Windows), "SD_CARD");
    assert_eq!(normalize_device_name("", "\\\\server\\share", Platform::Windows), "Removable Drive");
    assert_eq!(normalize_device_name("", "\\\\server\\share\\Photos", Platform::Windows), "Photos");
    assert_eq!(normalize_device_name("", "E:\\Cards\\..", Platform::Windows), "Removable Drive");
    assert_eq!(normalize_device_name(" Card ", "E:\\", Platform::Windows), "Card");
    assert_eq!(normalize_device_name("", "/media/a\\b", Platform::Linux), "a\\b");
}
