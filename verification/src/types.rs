//! The records that flow through an import: devices, settings, the session
//! being edited, archive and copy plans, media files and date previews.
//! Paths are held as `String`s with `'/'` separators.
use vstd::prelude::*;

verus! {

/// Whether a device can be read from, and why not when it cannot.
#[derive(Debug, Clone, PartialEq, Eq)]
pub enum DeviceAvailability {
    Available,
    Unavailable(String),
}

/// The mathematical model of a `DeviceAvailability`.
pub enum AvailabilityView {
    Available,
    Unavailable(Seq<char>),
}

impl View for DeviceAvailability {
    type V = AvailabilityView;

    open spec fn view(&self) -> AvailabilityView {
        match self {
            DeviceAvailability::Available => AvailabilityView::Available,
            DeviceAvailability::Unavailable(reason) => AvailabilityView::Unavailable(reason@),
        }
    }
}

impl DeviceAvailability {
    /// A copy of this value.
    pub fn duplicate(&self) -> (r: Self)
        ensures
            r@ == self@,
    {
        match self {
            DeviceAvailability::Available => DeviceAvailability::Available,
            DeviceAvailability::Unavailable(reason) => DeviceAvailability::Unavailable(
                reason.clone(),
            ),
        }
    }
}

/// A removable device as the browser lists it.
#[derive(Debug, Clone, PartialEq, Eq)]
pub struct DeviceInfo {
    pub id: String,
    pub display_name: String,
    pub mount_path: String,
    pub availability: DeviceAvailability,
}

/// The mathematical model of a `DeviceInfo`.
pub struct DeviceView {
    pub id: Seq<char>,
    pub display_name: Seq<char>,
    pub mount_path: Seq<char>,
    pub availability: AvailabilityView,
}

impl View for DeviceInfo {
    type V = DeviceView;

    open spec fn view(&self) -> DeviceView {
        DeviceView {
            id: self.id@,
            display_name: self.display_name@,
            mount_path: self.mount_path@,
            availability: self.availability@,
        }
    }
}

impl DeviceInfo {
    pub fn is_available(&self) -> (r: bool)
        ensures
            r == (self.availability@ is Available),
    {
        match self.availability {
            DeviceAvailability::Available => true,
            DeviceAvailability::Unavailable(_) => false,
        }
    }

    /// A copy of this device.
    pub fn duplicate(&self) -> (r: Self)
        ensures
            r@ == self@,
    {
        DeviceInfo {
            id: self.id.clone(),
            display_name: self.display_name.clone(),
            mount_path: self.mount_path.clone(),
            availability: self.availability.duplicate(),
        }
    }
}

/// What the file system reported about a path when it was probed.
#[derive(Debug, Clone, Copy, PartialEq, Eq)]
pub struct PathProbe {
    pub exists: bool,
    pub is_dir: bool,
}

/// The persisted preferences: where archives go and how dates are written.
#[derive(Debug, Clone, PartialEq, Eq)]
pub struct ArchiveSettings {
    pub destination_root: String,
    pub date_format: String,
}

impl ArchiveSettings {
    /// The settings used when none were saved: `root` (the working directory)
    /// and the `%Y-%m-%d` date format.
    pub fn with_root(root: String) -> (r: Self)
        ensures
            r.destination_root@ == root@,
            r.date_format@ == "%Y-%m-%d"@,
    {
        ArchiveSettings { destination_root: root, date_format: crate::text::string_from("%Y-%m-%d") }
    }

    /// A copy of these settings.
    pub fn duplicate(&self) -> (r: Self)
        ensures
            r.destination_root@ == self.destination_root@,
            r.date_format@ == self.date_format@,
    {
        ArchiveSettings {
            destination_root: self.destination_root.clone(),
            date_format: self.date_format.clone(),
        }
    }
}

/// The import being prepared on the main screen.
#[derive(Debug, Clone, PartialEq, Eq)]
pub struct ImportSession {
    pub selected_device: Option<DeviceInfo>,
    pub selected_source: Option<String>,
    pub theme: String,
    pub device_directory_override: String,
    pub resolved_destination: Option<String>,
}

impl Default for ImportSession {
    fn default() -> (r: Self)
        ensures
            r.selected_device is None,
            r.selected_source is None,
            r.theme@ == Seq::<char>::empty(),
            r.device_directory_override@ == Seq::<char>::empty(),
            r.resolved_destination is None,
    {
        ImportSession {
            selected_device: None,
            selected_source: None,
            theme: String::new(),
            device_directory_override: String::new(),
            resolved_destination: None,
        }
    }
}

/// Where one import is archived: `destination_root/<theme><date>/<device>`.
#[derive(Debug, Clone, PartialEq, Eq)]
pub struct ArchivePlan {
    pub theme_segment: String,
    pub date_segment: String,
    pub device_segment: String,
    pub destination_root: String,
    pub archive_root: String,
}

/// A media file found under a source folder.
#[derive(Debug, Clone, PartialEq, Eq)]
pub struct MediaFile {
    pub source_path: String,
    pub relative_path: String,
    pub size_bytes: u64,
}

/// The mathematical model of a `MediaFile`.
pub struct MediaView {
    pub source_path: Seq<char>,
    pub relative_path: Seq<char>,
    pub size_bytes: u64,
}

impl View for MediaFile {
    type V = MediaView;

    open spec fn view(&self) -> MediaView {
        MediaView {
            source_path: self.source_path@,
            relative_path: self.relative_path@,
            size_bytes: self.size_bytes,
        }
    }
}

impl MediaFile {
    /// A copy of this file record.
    pub fn duplicate(&self) -> (r: Self)
        ensures
            r@ == self@,
    {
        MediaFile {
            source_path: self.source_path.clone(),
            relative_path: self.relative_path.clone(),
            size_bytes: self.size_bytes,
        }
    }
}

/// Everything a copy run needs.
#[derive(Debug, Clone, PartialEq, Eq)]
pub struct CopyPlan {
    pub source_device: DeviceInfo,
    pub source_root: String,
    pub archive_plan: ArchivePlan,
    pub files: Vec<MediaFile>,
}

/// A date format together with how it renders a given date-time.
#[derive(Debug, Clone, PartialEq, Eq)]
pub struct DatePreview {
    pub pattern: String,
    pub preview: String,
}

/// The operating system whose conventions apply.
#[derive(Debug, Clone, Copy, PartialEq, Eq)]
pub enum Platform {
    MacOs,
    Windows,
    Linux,
    Other,
}

} // verus!
