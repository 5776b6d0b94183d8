//! The state of the terminal application and how it answers keys and the
//! results of background work. Each step updates the state and names the
//! outside work to do next (`Effects`); the program performs that work and
//! hands its results back.
use vstd::prelude::*;
use crate::browser::{
    flatten_settings_tree, flatten_source_tree, load_view, visible_parent_path, RowView,
    DirectoryLoadState, DirectoryStates, LoadView, PathSet, SourceEntry,
};
use crate::copy::{CopyProgress, CopySummary};
use crate::discovery::{first_with_id, validate_selected_device};
use crate::text::{concat2, concat3, push_char, str_eq, str_to_chars, string_from};
use crate::types::{ArchiveSettings, AvailabilityView, DeviceInfo, DeviceView, ImportSession};
use crate::ui::{
    availability_message, availability_text, FocusField, Screen, StatusKind, StatusMessage,
};

pub mod settings_browser;
pub mod background;
pub mod import_flow;
pub mod keys;

pub use self::import_flow::summarize_media;
pub use self::keys::{classify_key, KeyAction};

verus! {

/// A value computed in the background.
#[derive(Debug, Clone, PartialEq, Eq)]
pub enum AsyncValue<T> {
    Idle,
    Loading,
    Ready(T),
    Error(String),
}

/// How many media files a source folder holds, and their total size.
#[derive(Debug, Clone, Copy, PartialEq, Eq)]
pub struct SourceSummary {
    pub file_count: usize,
    pub total_bytes: u64,
}

/// How a request to eject a device ended.
#[derive(Debug, Clone, PartialEq, Eq)]
pub enum DeviceEjectOutcome {
    Ejected,
    Unsupported(String),
    Failed(String),
}

/// A key as the application reads it.
#[derive(Debug, Clone, Copy, PartialEq, Eq, Structural)]
pub enum Key {
    Char(char),
    F(u8),
    Enter,
    Esc,
    Tab,
    Up,
    Down,
    Left,
    Right,
    Backspace,
    Other,
}

/// The outside work that a step asks for.
#[derive(Debug, Clone)]
pub struct Effects {
    /// Leave the application.
    pub quit: bool,
    /// Ask the copy in progress to stop after the current file.
    pub cancel_copy: bool,
    /// Look for devices in the background.
    pub refresh_devices: bool,
    /// List these folders of the source browser in the background.
    pub load_directories: Vec<String>,
    /// Sum up the media files of this folder in the background.
    pub source_summary: Option<String>,
    /// Probe the destination root and ask for its free space.
    pub free_space: bool,
    /// Rebuild the settings browser around the destination root.
    pub initialize_settings_browser: bool,
    /// List this folder of the settings browser now.
    pub read_settings_directory: Option<String>,
    /// Eject this device in the background.
    pub eject: Option<DeviceInfo>,
    /// Enter was pressed: carry on with the current screen's step.
    pub confirm: bool,
}

impl Effects {
    pub fn none() -> (r: Self)
        ensures
            r.is_none(),
    {
        Effects {
            quit: false,
            cancel_copy: false,
            refresh_devices: false,
            load_directories: Vec::new(),
            source_summary: None,
            free_space: false,
            initialize_settings_browser: false,
            read_settings_directory: None,
            eject: None,
            confirm: false,
        }
    }

    /// Asks for nothing.
    pub open spec fn is_none(self) -> bool {
        &&& !self.quit
        &&& !self.cancel_copy
        &&& !self.refresh_devices
        &&& self.load_directories@.len() == 0
        &&& self.source_summary is None
        &&& !self.free_space
        &&& !self.initialize_settings_browser
        &&& self.read_settings_directory is None
        &&& self.eject is None
        &&& !self.confirm
    }
}

/// The rows of the devices' trees, one device after the other.
pub open spec fn source_rows(devices: Seq<DeviceInfo>, dirs: DirectoryStates, expanded: PathSet) -> Seq<RowView>
    decreases devices.len(),
{
    if devices.len() == 0 {
        Seq::empty()
    } else {
        source_rows(devices.drop_last(), dirs, expanded) + crate::browser::device_rows(
            devices.last(),
            dirs,
            expanded,
            0,
        )
    }
}

/// The models of the rows of a browser.
pub open spec fn rows_of(entries: Seq<SourceEntry>) -> Seq<RowView> {
    entries.map_values(|e: SourceEntry| e@)
}

/// The first row whose path is `path`, if any.
pub open spec fn first_row_with_path(entries: Seq<SourceEntry>, path: Seq<char>) -> Option<int>
    decreases entries.len(),
{
    if entries.len() == 0 {
        None
    } else if first_row_with_path(entries.drop_last(), path) is Some {
        first_row_with_path(entries.drop_last(), path)
    } else if entries.last().path@ == path {
        Some(entries.len() - 1)
    } else {
        None
    }
}

proof fn lemma_first_row_prefix(entries: Seq<SourceEntry>, path: Seq<char>, k: int)
    requires
        0 <= k <= entries.len(),
        first_row_with_path(entries.take(k), path) is Some,
    ensures
        first_row_with_path(entries, path) == first_row_with_path(entries.take(k), path),
    decreases entries.len() - k,
{
    if k == entries.len() {
        assert(entries.take(k) =~= entries);
    } else {
        let d = entries.drop_last();
        assert(d.take(k) =~= entries.take(k));
        lemma_first_row_prefix(d, path, k);
    }
}

proof fn lemma_first_row_is_row(entries: Seq<SourceEntry>, path: Seq<char>)
    ensures
        first_row_with_path(entries, path) matches Some(k) ==> 0 <= k < entries.len()
            && entries[k].path@ == path,
    decreases entries.len(),
{
    if entries.len() > 0 {
        lemma_first_row_is_row(entries.drop_last(), path);
    }
}

/// The index of the first row whose path is `path`.
pub fn position_of_path(entries: &Vec<SourceEntry>, path: &str) -> (r: Option<usize>)
    ensures
        r matches Some(k) ==> first_row_with_path(entries@, path@) == Some(k as int) && k
            < entries@.len() && entries@[k as int].path@ == path@,
        r is None ==> first_row_with_path(entries@, path@) is None,
{
    let mut i: usize = 0;
    assert(entries@.take(0) =~= Seq::<SourceEntry>::empty());
    while i < entries.len()
        invariant
            i <= entries@.len(),
            first_row_with_path(entries@.take(i as int), path@) is None,
        decreases entries@.len() - i,
    {
        let ghost cur = entries@.take(i + 1);
        assert(cur.drop_last() =~= entries@.take(i as int));
        if str_eq(entries[i].path.as_str(), path) {
            proof {
                assert(first_row_with_path(cur, path@) == Some(i as int));
                lemma_first_row_prefix(entries@, path@, i + 1);
            }
            return Some(i);
        }
        i = i + 1;
    }
    assert(entries@.take(entries@.len() as int) =~= entries@);
    None
}

/// The first device with the id `id`.
fn find_device(devices: &Vec<DeviceInfo>, id: &str) -> (r: Option<DeviceInfo>)
    ensures
        r matches Some(d) ==> d.id@ == id@,
        r is None ==> forall|k: int| 0 <= k < devices@.len() ==> devices@[k].id@ != id@,
{
    let mut i: usize = 0;
    while i < devices.len()
        invariant
            i <= devices@.len(),
            forall|k: int| 0 <= k < i ==> devices@[k].id@ != id@,
        decreases devices@.len() - i,
    {
        if str_eq(devices[i].id.as_str(), id) {
            return Some(devices[i].duplicate());
        }
        i = i + 1;
    }
    None
}

/// What asking for the summary of `path` did: nothing when a summary of
/// `path` is ready or on its way; otherwise it marked `path` as loading and
/// returned it.
pub open spec fn summary_requested(
    old_summary: AsyncValue<SourceSummary>,
    old_path: Option<String>,
    summary: AsyncValue<SourceSummary>,
    summary_path: Option<String>,
    path: Seq<char>,
    r: Option<String>,
) -> bool {
    let busy = (old_path matches Some(q) && q@ == path) && (old_summary is Loading
        || old_summary is Ready);
    if busy {
        r is None && summary == old_summary && summary_path == old_path
    } else {
        (r matches Some(p) && p@ == path) && (summary_path matches Some(q) && q@ == path) && summary
            == AsyncValue::<SourceSummary>::Loading
    }
}

fn request_summary(
    summary: &mut AsyncValue<SourceSummary>,
    summary_path: &mut Option<String>,
    path: String,
) -> (r: Option<String>)
    ensures
        summary_requested(*old(summary), *old(summary_path), *final(summary), *final(summary_path), path@, r),
{
    let same = match &*summary_path {
        Some(q) => str_eq(q.as_str(), path.as_str()),
        None => false,
    };
    let busy = match &*summary {
        AsyncValue::Loading => true,
        AsyncValue::Ready(_) => true,
        _ => false,
    };
    if same && busy {
        return None;
    }
    *summary_path = Some(path.clone());
    *summary = AsyncValue::Loading;
    Some(path)
}

/// What selecting the source row `index` does: the session takes the row's
/// folder and the device with the row's device id, and the folder's summary
/// is asked for.
pub open spec fn selection_synced(
    entries: Seq<SourceEntry>,
    index: int,
    devices: Seq<DeviceInfo>,
    old_session: ImportSession,
    session: ImportSession,
    old_summary: AsyncValue<SourceSummary>,
    old_summary_path: Option<String>,
    summary: AsyncValue<SourceSummary>,
    summary_path: Option<String>,
    r: Option<String>,
) -> bool {
    if 0 <= index < entries.len() {
        let entry = entries[index];
        &&& session.selected_source matches Some(s) && s@ == entry.path@
        &&& session.selected_device matches Some(d) ==> d.id@ == entry.device_id@
        &&& session.selected_device is None ==> forall|k: int|
            0 <= k < devices.len() ==> devices[k].id@ != entry.device_id@
        &&& session.theme == old_session.theme
        &&& session.device_directory_override == old_session.device_directory_override
        &&& session.resolved_destination == old_session.resolved_destination
        &&& summary_requested(old_summary, old_summary_path, summary, summary_path, entry.path@, r)
    } else {
        r is None && session == old_session && summary == old_summary && summary_path
            == old_summary_path
    }
}

fn sync_selection(
    entries: &Vec<SourceEntry>,
    index: usize,
    devices: &Vec<DeviceInfo>,
    session: &mut ImportSession,
    summary: &mut AsyncValue<SourceSummary>,
    summary_path: &mut Option<String>,
) -> (r: Option<String>)
    ensures
        selection_synced(
            entries@,
            index as int,
            devices@,
            *old(session),
            *final(session),
            *old(summary),
            *old(summary_path),
            *final(summary),
            *final(summary_path),
            r,
        ),
{
    if index < entries.len() {
        let path = entries[index].path.clone();
        let device = find_device(devices, entries[index].device_id.as_str());
        session.selected_source = Some(path.clone());
        session.selected_device = device;
        request_summary(summary, summary_path, path)
    } else {
        None
    }
}

/// The folder that Left collapses: the highlighted one when expanded, else
/// the expanded folder that holds it.
pub open spec fn collapse_target(entries: Seq<SourceEntry>, index: int, expanded: Set<Seq<char>>) -> Option<
    Seq<char>,
> {
    if 0 <= index < entries.len() {
        let e = entries[index];
        if expanded.contains(e.path@) {
            Some(e.path@)
        } else {
            match crate::browser::parent_row_below(entries, index, e.depth as int) {
                Some(p) => if expanded.contains(entries[p].path@) {
                    Some(entries[p].path@)
                } else {
                    None
                },
                None => None,
            }
        }
    } else {
        None
    }
}

/// `s` without its last character.
pub fn drop_last_char(s: &String) -> (r: String)
    ensures
        r@ == if s@.len() == 0 {
            s@
        } else {
            s@.drop_last()
        },
{
    let v = str_to_chars(s.as_str());
    if v.len() == 0 {
        return String::new();
    }
    assert(v@.drop_last() =~= v@.subrange(0, v@.len() - 1));
    crate::text::slice_to_string(&v, 0, v.len() - 1)
}

/// Whether the focus is on a folder browser.
pub open spec fn directory_focus(screen: Screen, focus: FocusField) -> bool {
    (screen == Screen::Main && focus == FocusField::SourceTree) || (screen == Screen::Settings
        && focus == FocusField::DestinationRoot)
}

/// Where Tab moves the focus.
pub open spec fn next_focus(screen: Screen, focus: FocusField) -> FocusField {
    match screen {
        Screen::Settings => if focus == FocusField::DestinationRoot {
            FocusField::DateFormat
        } else {
            FocusField::DestinationRoot
        },
        _ => if focus == FocusField::SourceTree {
            FocusField::Theme
        } else {
            FocusField::SourceTree
        },
    }
}

/// The index `delta` rows away from `index`, kept within `len` rows.
pub open spec fn moved_index(len: int, index: int, delta: int) -> int {
    if index + delta < 0 {
        0
    } else if index + delta > len - 1 {
        len - 1
    } else {
        index + delta
    }
}

/// Half a viewport, and at least one row.
pub open spec fn half_page(height: int) -> int {
    if height / 2 < 1 {
        1
    } else {
        height / 2
    }
}

/// The half-page step of the focused browser: half its viewport, at least
/// one row; one row when no browser has the focus.
pub open spec fn focused_half_page(s: AppState) -> int {
    if s.screen == Screen::Main && s.focus == FocusField::SourceTree {
        half_page(s.source_viewport_height as int)
    } else if s.screen == Screen::Settings && s.focus == FocusField::DestinationRoot {
        half_page(s.settings_viewport_height as int)
    } else {
        1
    }
}

/// `a` and `b` agree on the folder maps and sets of both browsers.
pub open spec fn same_browsers(a: AppState, b: AppState) -> bool {
    &&& a.directory_state == b.directory_state
    &&& a.expanded_sources == b.expanded_sources
    &&& a.pending_directory_loads == b.pending_directory_loads
    &&& a.settings_directory_state == b.settings_directory_state
    &&& a.expanded_settings_directories == b.expanded_settings_directories
}

/// The application's state apart from its channels, threads and clock.
pub struct AppState {
    pub settings: ArchiveSettings,
    pub persisted_settings: ArchiveSettings,
    pub devices: Vec<DeviceInfo>,
    pub devices_loading: bool,
    pub directory_state: DirectoryStates,
    pub expanded_sources: PathSet,
    pub pending_directory_loads: PathSet,
    pub source_entries: Vec<SourceEntry>,
    pub source_index: usize,
    pub source_scroll_offset: usize,
    pub source_viewport_height: usize,
    pub import_session: ImportSession,
    pub status_message: StatusMessage,
    pub screen: Screen,
    pub focus: FocusField,
    pub copy_active: bool,
    pub cancel_requested: bool,
    pub copy_progress: Option<CopyProgress>,
    pub copy_result: Option<CopySummary>,
    pub pending_device_refresh_status: Option<StatusMessage>,
    pub source_summary: AsyncValue<SourceSummary>,
    pub source_summary_path: Option<String>,
    pub destination_free_space: AsyncValue<u64>,
    pub destination_free_path: Option<String>,
    pub settings_directory_state: DirectoryStates,
    pub expanded_settings_directories: PathSet,
    pub settings_entries: Vec<SourceEntry>,
    pub settings_index: usize,
    pub settings_scroll_offset: usize,
    pub settings_viewport_height: usize,
    pub settings_root: Option<String>,
}

impl AppState {
    /// The maps and sets keep their shape.
    pub open spec fn wf(self) -> bool {
        &&& self.directory_state.wf()
        &&& self.expanded_sources.wf()
        &&& self.pending_directory_loads.wf()
        &&& self.settings_directory_state.wf()
        &&& self.expanded_settings_directories.wf()
    }

    /// The state at start-up with the saved `settings`, scanning for devices.
    pub fn new(settings: ArchiveSettings) -> (r: Self)
        ensures
            r.wf(),
            r.settings.destination_root@ == settings.destination_root@,
            r.settings.date_format@ == settings.date_format@,
            r.persisted_settings.destination_root@ == settings.destination_root@,
            r.persisted_settings.date_format@ == settings.date_format@,
            r.devices@.len() == 0,
            r.devices_loading,
            r.source_entries@.len() == 0,
            r.screen == Screen::Main,
            r.focus == FocusField::SourceTree,
            !r.copy_active,
            r.status_message.kind == StatusKind::Info,
            r.status_message.text@ == "Starting up. Scanning devices in the background..."@,
            !r.cancel_requested,
            r.copy_progress is None,
            r.copy_result is None,
            r.pending_device_refresh_status is None,
            r.import_session.selected_device is None,
            r.import_session.selected_source is None,
            r.import_session.theme@ == Seq::<char>::empty(),
            r.import_session.device_directory_override@ == Seq::<char>::empty(),
            r.import_session.resolved_destination is None,
            r.source_index == 0,
            r.source_scroll_offset == 0,
            r.source_viewport_height == 0,
            r.source_summary == AsyncValue::<SourceSummary>::Idle,
            r.source_summary_path is None,
            r.destination_free_space == AsyncValue::<u64>::Idle,
            r.destination_free_path is None,
            forall|p: Seq<char>| #[trigger] r.directory_state.lookup(p) is None,
            forall|p: Seq<char>| #[trigger] r.settings_directory_state.lookup(p) is None,
            r.expanded_sources.view() == Set::<Seq<char>>::empty(),
            r.pending_directory_loads.view() == Set::<Seq<char>>::empty(),
            r.expanded_settings_directories.view() == Set::<Seq<char>>::empty(),
            r.settings_entries@.len() == 0,
            r.settings_index == 0,
            r.settings_scroll_offset == 0,
            r.settings_viewport_height == 0,
            r.settings_root is None,
    {
        let persisted = settings.duplicate();
        AppState {
            settings,
            persisted_settings: persisted,
            devices: Vec::new(),
            devices_loading: true,
            directory_state: DirectoryStates::new(),
            expanded_sources: PathSet::new(),
            pending_directory_loads: PathSet::new(),
            source_entries: Vec::new(),
            source_index: 0,
            source_scroll_offset: 0,
            source_viewport_height: 0,
            import_session: ImportSession::default(),
            status_message: StatusMessage::info(
                string_from("Starting up. Scanning devices in the background..."),
            ),
            screen: Screen::Main,
            focus: FocusField::SourceTree,
            copy_active: false,
            cancel_requested: false,
            copy_progress: None,
            copy_result: None,
            pending_device_refresh_status: None,
            source_summary: AsyncValue::Idle,
            source_summary_path: None,
            destination_free_space: AsyncValue::Idle,
            destination_free_path: None,
            settings_directory_state: DirectoryStates::new(),
            expanded_settings_directories: PathSet::new(),
            settings_entries: Vec::new(),
            settings_index: 0,
            settings_scroll_offset: 0,
            settings_viewport_height: 0,
            settings_root: None,
        }
    }

    pub fn is_copy_active(&self) -> (r: bool)
        ensures
            r == self.copy_active,
    {
        self.copy_active
    }

    pub fn is_cancel_requested(&self) -> (r: bool)
        ensures
            r == (self.copy_active && self.cancel_requested),
    {
        self.copy_active && self.cancel_requested
    }

    pub fn selected_source(&self) -> (r: Option<String>)
        ensures
            r matches Some(s) ==> self.import_session.selected_source matches Some(t) && s@ == t@,
            r is None ==> self.import_session.selected_source is None,
    {
        match &self.import_session.selected_source {
            Some(s) => Some(s.clone()),
            None => None,
        }
    }

    pub fn selected_device(&self) -> (r: Option<DeviceInfo>)
        ensures
            r matches Some(d) ==> self.import_session.selected_device matches Some(t) && d@ == t@,
            r is None ==> self.import_session.selected_device is None,
    {
        match &self.import_session.selected_device {
            Some(d) => Some(d.duplicate()),
            None => None,
        }
    }

    /// The folder highlighted in the settings browser.
    pub fn selected_settings_candidate(&self) -> (r: Option<String>)
        ensures
            self.settings_index < self.settings_entries@.len() ==> (r matches Some(s) && s@
                == self.settings_entries@[self.settings_index as int].path@),
            self.settings_index >= self.settings_entries@.len() ==> r is None,
    {
        if self.settings_index < self.settings_entries.len() {
            Some(self.settings_entries[self.settings_index].path.clone())
        } else {
            None
        }
    }

    pub fn is_directory_focus(&self) -> (r: bool)
        ensures
            r == directory_focus(self.screen, self.focus),
    {
        (self.screen == Screen::Main && self.focus == FocusField::SourceTree) || (self.screen
            == Screen::Settings && self.focus == FocusField::DestinationRoot)
    }

    pub fn cycle_focus(&mut self)
        ensures
            focus_outcome(*old(self), *final(self)),

    {
        self.focus = match self.screen {
            Screen::Settings => if self.focus == FocusField::DestinationRoot {
                FocusField::DateFormat
            } else {
                FocusField::DestinationRoot
            },
            _ => if self.focus == FocusField::SourceTree {
                FocusField::Theme
            } else {
                FocusField::SourceTree
            },
        };
    }

    /// Asks for a summary of `path` unless one is ready or on its way.
    pub fn request_source_summary(&mut self, path: String) -> (r: Option<String>)
        ensures
            summary_requested(
                old(self).source_summary,
                old(self).source_summary_path,
                final(self).source_summary,
                final(self).source_summary_path,
                path@,
                r,
            ),
    {
        request_summary(&mut self.source_summary, &mut self.source_summary_path, path)
    }

    /// Selects what the source row at the index holds: its folder and device.
    pub fn sync_selection_from_index(&mut self) -> (r: Option<String>)
        ensures
            final(self).persisted_settings == old(self).persisted_settings,
            selection_synced(
                old(self).source_entries@,
                old(self).source_index as int,
                old(self).devices@,
                old(self).import_session,
                final(self).import_session,
                old(self).source_summary,
                old(self).source_summary_path,
                final(self).source_summary,
                final(self).source_summary_path,
                r,
            ),
            final(self).directory_state == old(self).directory_state,
            final(self).expanded_sources == old(self).expanded_sources,
            final(self).pending_directory_loads == old(self).pending_directory_loads,
            final(self).settings_directory_state == old(self).settings_directory_state,
            final(self).expanded_settings_directories == old(self).expanded_settings_directories,
            final(self).source_entries == old(self).source_entries,
            final(self).source_index == old(self).source_index,
            final(self).devices == old(self).devices,
            final(self).screen == old(self).screen,
            final(self).focus == old(self).focus,
            final(self).settings == old(self).settings,
            final(self).status_message == old(self).status_message,
            final(self).devices_loading == old(self).devices_loading,
            final(self).pending_device_refresh_status == old(self).pending_device_refresh_status,
            final(self).copy_active == old(self).copy_active,
    {
        sync_selection(
            &self.source_entries,
            self.source_index,
            &self.devices,
            &mut self.import_session,
            &mut self.source_summary,
            &mut self.source_summary_path,
        )
    }

    /// Lists the devices' trees anew, keeping the index within the rows.
    pub fn rebuild_source_entries(&mut self)
        requires
            old(self).wf(),
        ensures
            *final(self) == (AppState {
                source_entries: final(self).source_entries,
                source_index: final(self).source_index,
                ..*old(self)
            }),
            final(self).persisted_settings == old(self).persisted_settings,
            final(self).wf(),
            rows_of(final(self).source_entries@) == source_rows(
                old(self).devices@,
                old(self).directory_state,
                old(self).expanded_sources,
            ),
            old(self).source_index < final(self).source_entries@.len() ==> final(self).source_index
                == old(self).source_index,
            old(self).source_index >= final(self).source_entries@.len() ==> final(self).source_index
                == if final(self).source_entries@.len() == 0 {
                0
            } else {
                final(self).source_entries@.len() - 1
            },
            final(self).devices == old(self).devices,
            final(self).directory_state == old(self).directory_state,
            final(self).expanded_sources == old(self).expanded_sources,
            final(self).screen == old(self).screen,
            final(self).focus == old(self).focus,
            final(self).import_session == old(self).import_session,
            final(self).settings_entries == old(self).settings_entries,
            final(self).settings_index == old(self).settings_index,
            final(self).pending_directory_loads == old(self).pending_directory_loads,
            final(self).settings_directory_state == old(self).settings_directory_state,
            final(self).expanded_settings_directories == old(self).expanded_settings_directories,
            final(self).settings_root == old(self).settings_root,
            final(self).settings == old(self).settings,
            final(self).status_message == old(self).status_message,
            final(self).source_summary == old(self).source_summary,
            final(self).source_summary_path == old(self).source_summary_path,
            final(self).devices_loading == old(self).devices_loading,
            final(self).pending_device_refresh_status == old(self).pending_device_refresh_status,
            final(self).copy_active == old(self).copy_active,
    {
        let mut entries: Vec<SourceEntry> = Vec::new();
        let mut i: usize = 0;
        assert(self.devices@.take(0) =~= Seq::<DeviceInfo>::empty());
        while i < self.devices.len()
            invariant
                i <= self.devices@.len(),
                self.directory_state.wf(),
                rows_of(entries@) == source_rows(
                    self.devices@.take(i as int),
                    self.directory_state,
                    self.expanded_sources,
                ),
            decreases self.devices@.len() - i,
        {
            let ghost before = entries@;
            flatten_source_tree(&self.devices[i], &self.directory_state, &self.expanded_sources, 0, &mut entries);
            proof {
                let cur = self.devices@.take(i + 1);
                assert(cur.drop_last() =~= self.devices@.take(i as int));
                assert(cur.last() == self.devices@[i as int]);
            }
            i = i + 1;
        }
        assert(self.devices@.take(self.devices@.len() as int) =~= self.devices@);
        self.source_entries = entries;
        if self.source_index >= self.source_entries.len() {
            self.source_index = if self.source_entries.len() == 0 {
                0
            } else {
                self.source_entries.len() - 1
            };
        }
    }

    /// Lists the settings browser's tree anew, keeping the index within the rows.
    pub fn rebuild_settings_entries(&mut self)
        requires
            old(self).wf(),
        ensures
            final(self).directory_state == old(self).directory_state,
            final(self).devices == old(self).devices,
            final(self).pending_directory_loads == old(self).pending_directory_loads,
            final(self).status_message == old(self).status_message,
            final(self).source_summary == old(self).source_summary,
            final(self).source_summary_path == old(self).source_summary_path,
            final(self).wf(),
            match old(self).settings_root {
                Some(root) => rows_of(final(self).settings_entries@) == crate::browser::settings_rows(
                    root@,
                    old(self).settings_directory_state,
                    old(self).expanded_settings_directories,
                ),
                None => final(self).settings_entries@.len() == 0 && final(self).settings_index == 0,
            },
            old(self).settings_index < final(self).settings_entries@.len() ==> final(self).settings_index == old(self).settings_index,
            old(self).settings_index >= final(self).settings_entries@.len() ==> final(self).settings_index == if final(self).settings_entries@.len() == 0 {
                0
            } else {
                final(self).settings_entries@.len() - 1
            },
            final(self).settings_directory_state == old(self).settings_directory_state,
            final(self).expanded_settings_directories == old(self).expanded_settings_directories,
            final(self).settings_root == old(self).settings_root,
            final(self).settings == old(self).settings,
            final(self).persisted_settings == old(self).persisted_settings,
            final(self).screen == old(self).screen,
            final(self).focus == old(self).focus,
            final(self).source_entries == old(self).source_entries,
            final(self).source_index == old(self).source_index,
            final(self).import_session == old(self).import_session,
            final(self).expanded_sources == old(self).expanded_sources,
    {
        match &self.settings_root {
            None => {
                self.settings_entries = Vec::new();
                self.settings_index = 0;
            },
            Some(root) => {
                let mut entries: Vec<SourceEntry> = Vec::new();
                flatten_settings_tree(
                    root.as_str(),
                    &self.settings_directory_state,
                    &self.expanded_settings_directories,
                    &mut entries,
                );
                assert(rows_of(Seq::<SourceEntry>::empty()) =~= Seq::<RowView>::empty());
                assert(rows_of(entries@) =~= crate::browser::settings_rows(
                    root@,
                    self.settings_directory_state,
                    self.expanded_settings_directories,
                ));
                self.settings_entries = entries;
                if self.settings_index >= self.settings_entries.len() {
                    self.settings_index = if self.settings_entries.len() == 0 {
                        0
                    } else {
                        self.settings_entries.len() - 1
                    };
                }
            },
        }
    }

    /// Collapses the highlighted folder of the focused browser when it is
    /// expanded, else the expanded folder that holds it, and highlights the
    /// collapsed folder; returns the folder to summarize when the source
    /// selection changed.
    pub fn handle_left(&mut self) -> (r: Option<String>)
        requires
            old(self).wf(),
        ensures
            collapse_outcome(*old(self), *final(self), r),
    {
        if self.screen == Screen::Main && self.focus == FocusField::SourceTree {
            if self.source_index >= self.source_entries.len() {
                return None;
            }
            let entry_path = self.source_entries[self.source_index].path.clone();
            if self.expanded_sources.remove(entry_path.as_str()) {
                self.rebuild_source_entries();
                proof {
                    lemma_first_row_is_row(self.source_entries@, entry_path@);
                }
                match position_of_path(&self.source_entries, entry_path.as_str()) {
                    Some(i) => {
                        self.source_index = i;
                    },
                    None => {},
                }
                return sync_selection(
                    &self.source_entries,
                    self.source_index,
                    &self.devices,
                    &mut self.import_session,
                    &mut self.source_summary,
                    &mut self.source_summary_path,
                );
            }
            assert(self.expanded_sources.view() =~= old(self).expanded_sources.view());
            let parent = match visible_parent_path(&self.source_entries, self.source_index) {
                Some(p) => p,
                None => return None,
            };
            if self.expanded_sources.remove(parent.as_str()) {
                self.rebuild_source_entries();
                proof {
                    lemma_first_row_is_row(self.source_entries@, parent@);
                }
                match position_of_path(&self.source_entries, parent.as_str()) {
                    Some(i) => {
                        self.source_index = i;
                    },
                    None => {},
                }
                return sync_selection(
                    &self.source_entries,
                    self.source_index,
                    &self.devices,
                    &mut self.import_session,
                    &mut self.source_summary,
                    &mut self.source_summary_path,
                );
            }
            assert(self.expanded_sources.view() =~= old(self).expanded_sources.view());
            None
        } else if self.screen == Screen::Settings && self.focus == FocusField::DestinationRoot {
            if self.settings_index >= self.settings_entries.len() {
                return None;
            }
            let entry_path = self.settings_entries[self.settings_index].path.clone();
            if self.expanded_settings_directories.remove(entry_path.as_str()) {
                self.rebuild_settings_entries();
                match position_of_path(&self.settings_entries, entry_path.as_str()) {
                    Some(i) => {
                        self.settings_index = i;
                    },
                    None => {},
                }
                return None;
            }
            assert(self.expanded_settings_directories.view() =~= old(self).expanded_settings_directories.view());
            let parent = match visible_parent_path(&self.settings_entries, self.settings_index) {
                Some(p) => p,
                None => return None,
            };
            if self.expanded_settings_directories.remove(parent.as_str()) {
                self.rebuild_settings_entries();
                match position_of_path(&self.settings_entries, parent.as_str()) {
                    Some(i) => {
                        self.settings_index = i;
                    },
                    None => {},
                }
            } else {
                assert(self.expanded_settings_directories.view() =~= old(self).expanded_settings_directories.view());
            }
            None
        } else {
            None
        }
    }

    /// Moves the selection of the focused browser by `delta` rows, staying
    /// within its rows; returns the folder to summarize when the source
    /// selection moved.
    pub fn move_selection(&mut self, delta: isize) -> (r: Option<String>)
        ensures
            move_outcome(*old(self), *final(self), delta, r),

    {
        if self.screen == Screen::Main && self.focus == FocusField::SourceTree {
            if self.source_entries.len() == 0 {
                return None;
            }
            let max = (self.source_entries.len() - 1) as i128;
            let target = (self.source_index as i128) + (delta as i128);
            let next = if target < 0 {
                0
            } else if target > max {
                max
            } else {
                target
            };
            self.source_index = next as usize;
            sync_selection(
                &self.source_entries,
                self.source_index,
                &self.devices,
                &mut self.import_session,
                &mut self.source_summary,
                &mut self.source_summary_path,
            )
        } else if self.screen == Screen::Settings && self.focus == FocusField::DestinationRoot {
            if self.settings_entries.len() == 0 {
                return None;
            }
            let max = (self.settings_entries.len() - 1) as i128;
            let target = (self.settings_index as i128) + (delta as i128);
            let next = if target < 0 {
                0
            } else if target > max {
                max
            } else {
                target
            };
            self.settings_index = next as usize;
            None
        } else {
            None
        }
    }

    /// Moves the selection of the focused browser by half its viewport,
    /// down when `direction` is 1 and up when it is -1.
    pub fn move_by_half_page(&mut self, direction: isize) -> (r: Option<String>)
        requires
            isize::MIN <= focused_half_page(*old(self)) * direction <= isize::MAX,
        ensures
            half_page_outcome(*old(self), *final(self), direction, r),
    {
        let height = if self.screen == Screen::Main && self.focus == FocusField::SourceTree {
            self.source_viewport_height
        } else if self.screen == Screen::Settings && self.focus == FocusField::DestinationRoot {
            self.settings_viewport_height
        } else {
            0
        };
        let half = height / 2;
        assert(height / 2 <= isize::MAX) by {
            assert(usize::MAX / 2 <= isize::MAX);
        }
        let step: i128 = if half < 1 {
            1
        } else {
            half as i128
        };
        assert(step == focused_half_page(*self));
        let d: i128 = direction as i128;
        assert(-0x8000_0000_0000_0000 <= d < 0x8000_0000_0000_0000);
        assert(1 <= step < 0x8000_0000_0000_0000);
        assert(-0x4000_0000_0000_0000_0000_0000_0000_0000 < step * d < 0x4000_0000_0000_0000_0000_0000_0000_0000) by (nonlinear_arith)
            requires
                -0x8000_0000_0000_0000 <= d < 0x8000_0000_0000_0000,
                1 <= step < 0x8000_0000_0000_0000,
        ;
        let delta: i128 = step * d;
        self.move_selection(delta as isize)
    }

    /// Removes the last character of the field being typed in.
    pub fn handle_backspace(&mut self)
        ensures
            erase_outcome(*old(self), *final(self)),

    {
        if self.focus == FocusField::Theme {
            self.import_session.theme = drop_last_char(&self.import_session.theme);
        } else if self.focus == FocusField::DateFormat && self.screen == Screen::Settings {
            self.settings.date_format = drop_last_char(&self.settings.date_format);
        }
    }

    /// Types `ch` into the field being typed in; control characters are ignored.
    pub fn handle_char(&mut self, ch: char)
        ensures
            type_outcome(*old(self), *final(self), ch),

    {
        if crate::text::char_is_control(ch) {
            return;
        }
        if self.focus == FocusField::Theme && self.screen == Screen::Main {
            push_char(&mut self.import_session.theme, ch);
        } else if self.focus == FocusField::DateFormat && self.screen == Screen::Settings {
            push_char(&mut self.settings.date_format, ch);
        }
    }
}


/// Marks `path` as loading and pending unless something is known of it or
/// a load is on its way; returns the folder to list.
fn request_directory_load(states: &mut DirectoryStates, pending: &mut PathSet, path: &str) -> (r: Option<String>)
    requires
        old(states).wf(),
        old(pending).wf(),
    ensures
        final(states).wf(),
        final(pending).wf(),
        (old(states).lookup(path@) is Some || old(pending).view().contains(path@)) ==> r is None
            && *final(states) == *old(states) && *final(pending) == *old(pending),
        !(old(states).lookup(path@) is Some || old(pending).view().contains(path@)) ==> {
            &&& r matches Some(p) && p@ == path@
            &&& final(states).lookup(path@) == Some(LoadView::Loading)
            &&& forall|q: Seq<char>| q != path@ ==> #[trigger] final(states).lookup(q) == old(states).lookup(q)
            &&& final(pending).view() == old(pending).view().insert(path@)
        },
{
    if states.contains(path) || pending.contains(path) {
        return None;
    }
    states.insert(string_from(path), DirectoryLoadState::Loading);
    pending.insert(string_from(path));
    Some(string_from(path))
}

impl AppState {
    /// Asks for the listing of `path` in the source browser unless it is
    /// known or on its way.
    pub fn ensure_directory_loaded(&mut self, path: &str) -> (r: Option<String>)
        requires
            old(self).wf(),
        ensures
            final(self).persisted_settings == old(self).persisted_settings,
            final(self).wf(),
            (old(self).directory_state.lookup(path@) is Some || old(self).pending_directory_loads.view().contains(path@)) ==> r is None
                && final(self).directory_state == old(self).directory_state && final(self).pending_directory_loads == old(self).pending_directory_loads,
            !(old(self).directory_state.lookup(path@) is Some || old(self).pending_directory_loads.view().contains(path@)) ==> {
                &&& r matches Some(p) && p@ == path@
                &&& final(self).directory_state.lookup(path@) == Some(LoadView::Loading)
                &&& forall|q: Seq<char>| q != path@ ==> #[trigger] final(self).directory_state.lookup(q) == old(self).directory_state.lookup(q)
                &&& final(self).pending_directory_loads.view() == old(self).pending_directory_loads.view().insert(path@)
            },
            final(self).expanded_sources == old(self).expanded_sources,
            final(self).devices == old(self).devices,
            final(self).source_entries == old(self).source_entries,
            final(self).source_index == old(self).source_index,
            final(self).import_session == old(self).import_session,
            final(self).settings_directory_state == old(self).settings_directory_state,
            final(self).expanded_settings_directories == old(self).expanded_settings_directories,
            final(self).screen == old(self).screen,
            final(self).focus == old(self).focus,
            final(self).settings == old(self).settings,
            final(self).status_message == old(self).status_message,
    {
        request_directory_load(&mut self.directory_state, &mut self.pending_directory_loads, path)
    }

    /// Expands the highlighted folder of the focused browser when it has
    /// children. In the source browser its listing is asked for when
    /// unknown and the selection is synced; in the settings browser its
    /// listing is read now when unknown, else the rows are rebuilt and the
    /// folder stays highlighted.
    pub fn handle_right(&mut self) -> (e: Effects)
        requires
            old(self).wf(),
        ensures
            expand_outcome(*old(self), *final(self), e),

    {
        let mut effects = Effects::none();
        if self.screen == Screen::Main && self.focus == FocusField::SourceTree {
            if self.source_index >= self.source_entries.len() {
                return effects;
            }
            if !self.source_entries[self.source_index].has_children {
                return effects;
            }
            let path = self.source_entries[self.source_index].path.clone();
            self.expanded_sources.insert(path.clone());
            match self.ensure_directory_loaded(path.as_str()) {
                Some(p) => effects.load_directories.push(p),
                None => {},
            }
            self.rebuild_source_entries();
            effects.source_summary = self.sync_selection_from_index();
            effects
        } else if self.screen == Screen::Settings && self.focus == FocusField::DestinationRoot {
            if self.settings_index >= self.settings_entries.len() {
                return effects;
            }
            if !self.settings_entries[self.settings_index].has_children {
                return effects;
            }
            let path = self.settings_entries[self.settings_index].path.clone();
            self.expanded_settings_directories.insert(path.clone());
            if !self.settings_directory_state.contains(path.as_str()) {
                effects.read_settings_directory = Some(path);
                return effects;
            }
            self.rebuild_settings_entries();
            proof {
                lemma_first_row_is_row(self.settings_entries@, path@);
            }
            match position_of_path(&self.settings_entries, path.as_str()) {
                Some(i) => {
                    self.settings_index = i;
                },
                None => {},
            }
            effects
        } else {
            effects
        }
    }

    /// Records the listing of the settings browser's folder `path` read on
    /// request, rebuilds the rows and highlights `path`.
    pub fn settings_directory_read(&mut self, path: String, children: Vec<String>)
        requires
            old(self).wf(),
        ensures
            final(self).wf(),
            old(self).settings_directory_state.lookup(path@) is None ==> final(self).settings_directory_state.lookup(path@)
                == Some(load_view(DirectoryLoadState::Loaded(children))),
            old(self).settings_directory_state.lookup(path@) is Some ==> final(self).settings_directory_state
                == old(self).settings_directory_state,
            forall|q: Seq<char>| q != path@ ==> #[trigger] final(self).settings_directory_state.lookup(q)
                == old(self).settings_directory_state.lookup(q),
            final(self).settings_root == old(self).settings_root,
            match final(self).settings_root {
                Some(root) => rows_of(final(self).settings_entries@) == crate::browser::settings_rows(
                    root@,
                    final(self).settings_directory_state,
                    final(self).expanded_settings_directories,
                ),
                None => final(self).settings_entries@.len() == 0,
            },
            first_row_with_path(final(self).settings_entries@, path@) matches Some(k) ==> final(self).settings_index == k,
            final(self).expanded_settings_directories == old(self).expanded_settings_directories,
            final(self).screen == old(self).screen,
            final(self).focus == old(self).focus,
    {
        if !self.settings_directory_state.contains(path.as_str()) {
            self.settings_directory_state.insert(path.clone(), DirectoryLoadState::Loaded(children));
        }
        self.rebuild_settings_entries();
        proof {
            lemma_first_row_is_row(self.settings_entries@, path@);
        }
        match position_of_path(&self.settings_entries, path.as_str()) {
            Some(i) => {
                self.settings_index = i;
            },
            None => {},
        }
    }
}


/// The record of `device` among the visible `devices`: the first one with its
/// id, else `device` marked as no longer connected.
pub open spec fn current_record(devices: Seq<DeviceInfo>, device: DeviceInfo) -> DeviceView {
    match first_with_id(devices, device.id@) {
        Some(k) => devices[k]@,
        None => DeviceView {
            availability: AvailabilityView::Unavailable("device is no longer connected or readable"@),
            ..device@
        },
    }
}

/// Asks for the settings browser to be built anew and for the free space
/// at the destination root, and for nothing else.
pub open spec fn asks_settings_browser(e: Effects) -> bool {
    &&& e.initialize_settings_browser
    &&& e.free_space
    &&& !e.quit
    &&& !e.cancel_copy
    &&& !e.refresh_devices
    &&& e.load_directories@.len() == 0
    &&& e.source_summary is None
    &&& e.read_settings_directory is None
    &&& e.eject is None
    &&& !e.confirm
}

/// What confirming the highlighted folder of the settings browser does (see
/// `AppState::confirm_settings_destination`): it becomes the pending
/// destination root, the saved settings stay, and its free space is asked
/// for; with no folder highlighted only the status line changes.
pub open spec fn destination_confirm_outcome(before: AppState, after: AppState, e: Effects) -> bool {
    &&& before.settings_index >= before.settings_entries@.len() ==> e.is_none()
        && only_status_changed(before, after) && after.status_message.kind == StatusKind::Warning
        && after.status_message.text@ == "Highlight a directory before confirming Destination Root."@
    &&& before.settings_index < before.settings_entries@.len() ==> {
        let path = before.settings_entries@[before.settings_index as int].path@;
        &&& asks_free_space(e)
        &&& after.settings.destination_root@ == path
        &&& after.settings.date_format == before.settings.date_format
        &&& after.status_message.kind == StatusKind::Info
        &&& after.status_message.text@ == "Destination Root set to "@ + path
            + ". Press Tab to review Date Format, then Enter to save."@
        &&& after == (AppState {
            settings: after.settings,
            status_message: after.status_message,
            ..before
        })
    }
}

/// What Enter does to the state and which work it asks for (see
/// `AppState::confirm_or_advance`).
pub open spec fn confirm_outcome(before: AppState, after: AppState, e: Effects) -> bool {
    &&& same_browsers(before, after)
    &&& (before.copy_active && before.screen != Screen::CopyResults) ==> e.is_none()
        && only_status_changed(before, after) && after.status_message.kind == StatusKind::Warning
        && after.status_message.text@ == "Copy already in progress. Wait for it to stop first."@
    &&& !(before.copy_active && before.screen != Screen::CopyResults) ==> match before.screen {
        Screen::CopyResults => e.is_none() && after.screen == Screen::Main && after.status_message.kind
            == StatusKind::Info && after.status_message.text@ == "Returned to import screen."@ && after
            == (AppState { screen: Screen::Main, status_message: after.status_message, ..before }),
        Screen::Settings => if before.focus == FocusField::DestinationRoot {
            destination_confirm_outcome(before, after, e)
        } else {
            asks_confirm_step(e) && after == before
        },
        _ => asks_confirm_step(e) && after == before,
    }
}

/// What Esc does to the state and which work it asks for (see
/// `AppState::go_back`).
pub open spec fn back_outcome(before: AppState, after: AppState, e: Effects) -> bool {
    &&& before.screen == Screen::Main ==> e.is_none() && after == before
    &&& before.screen != Screen::Main ==> {
        &&& after.screen == Screen::Main
        &&& after.focus == FocusField::SourceTree
        &&& after.status_message.kind == StatusKind::Info
        &&& after.status_message.text@ == "Returned to import screen."@
        &&& after == (AppState {
            settings: after.settings,
            screen: Screen::Main,
            focus: FocusField::SourceTree,
            status_message: after.status_message,
            ..before
        })
    }
    &&& before.screen == Screen::Settings ==> asks_settings_browser(e) && after.settings.destination_root@
        == before.persisted_settings.destination_root@ && after.settings.date_format@
        == before.persisted_settings.date_format@
    &&& (before.screen == Screen::Confirmation || before.screen == Screen::CopyResults) ==> e.is_none()
        && after.settings == before.settings
}

/// The source browser has the focus.
pub open spec fn browsing_sources(s: AppState) -> bool {
    s.screen == Screen::Main && s.focus == FocusField::SourceTree
}

/// The settings browser has the focus.
pub open spec fn browsing_settings(s: AppState) -> bool {
    s.screen == Screen::Settings && s.focus == FocusField::DestinationRoot
}

/// `s` without its last character, when it has one.
pub open spec fn without_last(s: Seq<char>) -> Seq<char> {
    if s.len() == 0 {
        s
    } else {
        s.drop_last()
    }
}

/// What Backspace does (see `AppState::handle_backspace`): the theme, or on
/// the settings screen the date format, loses its last character.
pub open spec fn erase_outcome(before: AppState, after: AppState) -> bool {
    let erase_format = before.focus == FocusField::DateFormat && before.screen == Screen::Settings;
    &&& after == (AppState {
        import_session: ImportSession { theme: after.import_session.theme, ..before.import_session },
        settings: ArchiveSettings { date_format: after.settings.date_format, ..before.settings },
        ..before
    })
    &&& same_browsers(before, after)
    &&& after.import_session.theme@ == if before.focus == FocusField::Theme {
        without_last(before.import_session.theme@)
    } else {
        before.import_session.theme@
    }
    &&& after.settings.date_format@ == if erase_format {
        without_last(before.settings.date_format@)
    } else {
        before.settings.date_format@
    }
    &&& after.screen == before.screen
    &&& after.focus == before.focus
}

/// What typing `ch` does (see `AppState::handle_char`): a character that is
/// no control character goes to the theme on the import screen, or to the
/// date format on the settings screen.
pub open spec fn type_outcome(before: AppState, after: AppState, ch: char) -> bool {
    let printable = !crate::text::is_control(ch);
    let to_theme = printable && before.focus == FocusField::Theme && before.screen == Screen::Main;
    let to_format = printable && before.focus == FocusField::DateFormat && before.screen
        == Screen::Settings;
    &&& after == (AppState {
        import_session: ImportSession { theme: after.import_session.theme, ..before.import_session },
        settings: ArchiveSettings { date_format: after.settings.date_format, ..before.settings },
        ..before
    })
    &&& same_browsers(before, after)
    &&& after.import_session.theme@ == if to_theme {
        before.import_session.theme@.push(ch)
    } else {
        before.import_session.theme@
    }
    &&& after.settings.date_format@ == if to_format {
        before.settings.date_format@.push(ch)
    } else {
        before.settings.date_format@
    }
    &&& after.screen == before.screen
    &&& after.focus == before.focus
}

/// The highlighted row of the source browser can be expanded.
pub open spec fn source_row_expandable(s: AppState) -> bool {
    browsing_sources(s) && s.source_index < s.source_entries@.len()
        && s.source_entries@[s.source_index as int].has_children
}

/// The highlighted row of the settings browser can be expanded.
pub open spec fn settings_row_expandable(s: AppState) -> bool {
    browsing_settings(s) && s.settings_index < s.settings_entries@.len()
        && s.settings_entries@[s.settings_index as int].has_children
}

/// What Right does (see `AppState::handle_right`).
pub open spec fn expand_outcome(before: AppState, after: AppState, e: Effects) -> bool {
    &&& !e.quit && !e.cancel_copy && !e.refresh_devices && !e.free_space
        && !e.initialize_settings_browser && e.eject is None && !e.confirm
    &&& after.settings == before.settings
    &&& after.persisted_settings == before.persisted_settings
    &&& after.wf()
    &&& after.screen == before.screen
    &&& after.focus == before.focus
    &&& source_row_expandable(before) ==> {
        let path = before.source_entries@[before.source_index as int].path@;
        let known = before.directory_state.lookup(path) is Some
            || before.pending_directory_loads.view().contains(path);
        &&& after.expanded_sources.view() == before.expanded_sources.view().insert(path)
        &&& known ==> e.load_directories@.len() == 0 && after.directory_state == before.directory_state
        &&& !known ==> e.load_directories@.len() == 1 && e.load_directories@[0]@ == path
            && after.directory_state.lookup(path) == Some(LoadView::Loading)
        &&& rows_of(after.source_entries@) == source_rows(
            before.devices@,
            after.directory_state,
            after.expanded_sources,
        )
        &&& after.source_index < after.source_entries@.len() ==> (after.import_session.selected_source
            matches Some(s) && s@ == after.source_entries@[after.source_index as int].path@)
    }
    &&& settings_row_expandable(before) ==> {
        let path = before.settings_entries@[before.settings_index as int].path@;
        &&& after.expanded_settings_directories.view()
            == before.expanded_settings_directories.view().insert(path)
        &&& after.settings_directory_state == before.settings_directory_state
        &&& before.settings_directory_state.lookup(path) is None ==> (e.read_settings_directory
            matches Some(p) && p@ == path) && after.settings_entries == before.settings_entries
            && after.settings_index == before.settings_index
        &&& before.settings_directory_state.lookup(path) is Some ==> e.read_settings_directory is None
            && match before.settings_root {
                Some(root) => rows_of(after.settings_entries@) == crate::browser::settings_rows(
                    root@,
                    after.settings_directory_state,
                    after.expanded_settings_directories,
                ),
                None => after.settings_entries@.len() == 0,
            }
            && (first_row_with_path(after.settings_entries@, path) matches Some(k)
            ==> after.settings_index == k)
    }
    &&& !(source_row_expandable(before) || settings_row_expandable(before)) ==> e.is_none()
        && after.expanded_sources == before.expanded_sources
        && after.expanded_settings_directories == before.expanded_settings_directories
}

/// What opening the settings does (see `AppState::open_settings`).
pub open spec fn open_settings_outcome(before: AppState, after: AppState, e: Effects) -> bool {
    &&& before.copy_active ==> e.is_none() && only_status_changed(before, after)
        && after.status_message.kind == StatusKind::Warning && after.status_message.text@
        == "Copy is running. Wait for it to finish before opening settings."@
    &&& !before.copy_active ==> {
        &&& asks_settings_browser(e)
        &&& after.settings.destination_root@ == before.persisted_settings.destination_root@
        &&& after.settings.date_format@ == before.persisted_settings.date_format@
        &&& after.status_message.kind == StatusKind::Info
        &&& after.status_message.text@
            == "Browsing persisted settings. Confirm a directory, then save when ready."@
        &&& after == (AppState {
            settings: after.settings,
            screen: Screen::Settings,
            focus: FocusField::DestinationRoot,
            status_message: after.status_message,
            ..before
        })
    }
}

/// What asking to eject does (see `AppState::request_safe_eject`).
pub open spec fn eject_outcome(before: AppState, after: AppState, r: Option<DeviceInfo>) -> bool {
    &&& only_status_changed(before, after)
    &&& match before.import_session.selected_device {
        None => r is None && after.status_message.kind == StatusKind::Warning
            && after.status_message.text@ == "Select a removable device before requesting eject."@,
        Some(selected) => if before.copy_active {
            r is None && after.status_message.kind == StatusKind::Warning && after.status_message.text@
                == selected.display_name@ + " cannot be ejected while copying is in progress."@
        } else {
            let d = current_record(before.devices@, selected);
            if d.availability is Available {
                (r matches Some(dev) && dev@ == d) && after.status_message.kind == StatusKind::Info
                    && after.status_message.text@ == "Requesting safe eject for "@ + d.display_name
                    + "..."@
            } else {
                r is None && (after.status_message.kind, after.status_message.text@)
                    == availability_text(d.display_name, d.availability)
            }
        },
    }
}

/// What asking for the devices does (see `AppState::request_device_refresh`).
pub open spec fn refresh_outcome(before: AppState, after: AppState, r: bool) -> bool {
    &&& r == !before.copy_active
    &&& before.copy_active ==> only_status_changed(before, after) && after.status_message.kind
        == StatusKind::Warning && after.status_message.text@
        == "Copy is running. Wait for it to finish before refreshing devices."@
    &&& !before.copy_active ==> after == (AppState {
        devices_loading: true,
        pending_device_refresh_status: None,
        status_message: after.status_message,
        ..before
    }) && after.status_message.kind == StatusKind::Info && after.status_message.text@
        == "Refreshing devices in the background..."@
}

/// What moving the selection by `delta` rows does (see
/// `AppState::move_selection`).
pub open spec fn move_outcome(before: AppState, after: AppState, delta: isize, r: Option<String>) -> bool {
    let moves_source = browsing_sources(before) && before.source_entries@.len() > 0;
    let moves_setting = browsing_settings(before) && before.settings_entries@.len() > 0;
    &&& moves_source ==> selection_synced(
        before.source_entries@,
        after.source_index as int,
        before.devices@,
        before.import_session,
        after.import_session,
        before.source_summary,
        before.source_summary_path,
        after.source_summary,
        after.source_summary_path,
        r,
    )
    &&& !moves_source ==> r is None
    &&& after == (AppState {
        source_index: after.source_index,
        settings_index: after.settings_index,
        import_session: after.import_session,
        source_summary: after.source_summary,
        source_summary_path: after.source_summary_path,
        ..before
    })
    &&& same_browsers(before, after)
    &&& after.source_index == if moves_source {
        moved_index(before.source_entries@.len() as int, before.source_index as int, delta as int)
    } else {
        before.source_index as int
    }
    &&& moves_source ==> (after.import_session.selected_source matches Some(s) && s@
        == before.source_entries@[after.source_index as int].path@)
    &&& after.settings_index == if moves_setting {
        moved_index(before.settings_entries@.len() as int, before.settings_index as int, delta as int)
    } else {
        before.settings_index as int
    }
    &&& after.source_entries == before.source_entries
    &&& after.settings_entries == before.settings_entries
    &&& after.screen == before.screen
    &&& after.focus == before.focus
    &&& after.settings == before.settings
}

/// What moving by half a viewport does (see `AppState::move_by_half_page`).
pub open spec fn half_page_outcome(before: AppState, after: AppState, direction: isize, r: Option<String>) -> bool {
    &&& after == (AppState {
        source_index: after.source_index,
        settings_index: after.settings_index,
        import_session: after.import_session,
        source_summary: after.source_summary,
        source_summary_path: after.source_summary_path,
        ..before
    })
    &&& same_browsers(before, after)
    &&& browsing_sources(before) && before.source_entries@.len() > 0 ==> after.source_index
        == moved_index(
        before.source_entries@.len() as int,
        before.source_index as int,
        half_page(before.source_viewport_height as int) * direction,
    )
    &&& browsing_settings(before) && before.settings_entries@.len() > 0 ==> after.settings_index
        == moved_index(
        before.settings_entries@.len() as int,
        before.settings_index as int,
        half_page(before.settings_viewport_height as int) * direction,
    )
    &&& after.screen == before.screen
    &&& after.focus == before.focus
}

/// What Tab does (see `AppState::cycle_focus`).
pub open spec fn focus_outcome(before: AppState, after: AppState) -> bool {
    after == (AppState { focus: next_focus(before.screen, before.focus), ..before })
}

/// What Left does (see `AppState::handle_left`).
pub open spec fn collapse_outcome(before: AppState, after: AppState, r: Option<String>) -> bool {
    &&& after.settings == before.settings
    &&& after.persisted_settings == before.persisted_settings
    &&& after.wf()
    &&& after.screen == before.screen
    &&& after.focus == before.focus
    &&& after.settings_root == before.settings_root
    &&& after.settings_directory_state == before.settings_directory_state
    &&& after.directory_state == before.directory_state
    &&& after.devices == before.devices
    &&& browsing_sources(before) ==> {
        let target = collapse_target(
            before.source_entries@,
            before.source_index as int,
            before.expanded_sources.view(),
        );
        &&& after.expanded_sources.view() == match target {
            Some(t) => before.expanded_sources.view().remove(t),
            None => before.expanded_sources.view(),
        }
        &&& target is None ==> r is None && after.source_entries == before.source_entries
            && after.source_index == before.source_index
        &&& target matches Some(t) ==> rows_of(after.source_entries@) == source_rows(
            before.devices@,
            before.directory_state,
            after.expanded_sources,
        ) && (first_row_with_path(after.source_entries@, t) matches Some(k) ==> (
        after.source_index == k && (after.import_session.selected_source matches Some(
            s,
        ) && s@ == t)))
    }
    &&& browsing_settings(before) ==> {
        let target = collapse_target(
            before.settings_entries@,
            before.settings_index as int,
            before.expanded_settings_directories.view(),
        );
        &&& after.expanded_settings_directories.view() == match target {
            Some(t) => before.expanded_settings_directories.view().remove(t),
            None => before.expanded_settings_directories.view(),
        }
        &&& r is None
        &&& target is None ==> after.settings_entries == before.settings_entries
            && after.settings_index == before.settings_index
        &&& target is Some ==> match before.settings_root {
            Some(root) => rows_of(after.settings_entries@) == crate::browser::settings_rows(
                root@,
                before.settings_directory_state,
                after.expanded_settings_directories,
            ),
            None => after.settings_entries@.len() == 0,
        }
        &&& target matches Some(t) ==> (first_row_with_path(after.settings_entries@, t) matches Some(
            k,
        ) ==> after.settings_index == k)
    }
    &&& !directory_focus(before.screen, before.focus) ==> r is None && after == before
}

/// `after` is `before` with only the status line changed.
pub open spec fn only_status_changed(before: AppState, after: AppState) -> bool {
    after == (AppState { status_message: after.status_message, ..before })
}

impl AppState {
    /// Starts looking for devices: marks them as loading, keeps `completed`
    /// to show once they arrive, and shows `loading` now when given.
    pub fn request_device_refresh_with(
        &mut self,
        completed: Option<StatusMessage>,
        loading: Option<StatusMessage>,
    )
        ensures
            *final(self) == (AppState {
                devices_loading: true,
                pending_device_refresh_status: completed,
                status_message: match loading {
                    Some(m) => m,
                    None => old(self).status_message,
                },
                ..*old(self)
            }),
    {
        self.devices_loading = true;
        self.pending_device_refresh_status = completed;
        match loading {
            Some(m) => {
                self.status_message = m;
            },
            None => {},
        }
    }

    /// Starts looking for devices unless a copy is running; tells whether
    /// the search should run.
    pub fn request_device_refresh(&mut self) -> (r: bool)
        ensures
            refresh_outcome(*old(self), *final(self), r),

    {
        if self.copy_active {
            self.status_message = StatusMessage::warning(
                string_from("Copy is running. Wait for it to finish before refreshing devices."),
            );
            return false;
        }
        self.request_device_refresh_with(
            None,
            Some(StatusMessage::info(string_from("Refreshing devices in the background..."))),
        );
        true
    }

    /// Checks that the selected device may be ejected and returns its
    /// current record when it may; otherwise says why not.
    pub fn request_safe_eject(&mut self) -> (r: Option<DeviceInfo>)
        ensures
            eject_outcome(*old(self), *final(self), r),

    {
        let selected = match &self.import_session.selected_device {
            Some(d) => d.duplicate(),
            None => {
                self.status_message = StatusMessage::warning(
                    string_from("Select a removable device before requesting eject."),
                );
                return None;
            },
        };
        if self.copy_active {
            self.status_message = StatusMessage::warning(
                concat2(selected.display_name.as_str(), " cannot be ejected while copying is in progress."),
            );
            return None;
        }
        let device = match validate_selected_device(&selected, &self.devices) {
            Ok(d) => d,
            Err(e) => {
                self.status_message = StatusMessage::error(
                    concat2("Could not validate the selected device: ", e.message().as_str()),
                );
                return None;
            },
        };
        if !device.is_available() {
            self.status_message = availability_message(&device);
            return None;
        }
        self.status_message = StatusMessage::info(
            concat3("Requesting safe eject for ", device.display_name.as_str(), "..."),
        );
        Some(device)
    }

    /// Opens the settings screen on the saved settings unless a copy is
    /// running; asks for the settings browser and the free space.
    pub fn open_settings(&mut self) -> (e: Effects)
        ensures
            open_settings_outcome(*old(self), *final(self), e),

    {
        let mut effects = Effects::none();
        if self.copy_active {
            self.status_message = StatusMessage::warning(
                string_from("Copy is running. Wait for it to finish before opening settings."),
            );
            return effects;
        }
        self.settings = self.persisted_settings.duplicate();
        self.screen = Screen::Settings;
        self.focus = FocusField::DestinationRoot;
        self.status_message = StatusMessage::info(
            string_from("Browsing persisted settings. Confirm a directory, then save when ready."),
        );
        effects.initialize_settings_browser = true;
        effects.free_space = true;
        effects
    }

    /// Returns to the import screen; leaving settings drops the changes not
    /// saved and asks for the settings browser and the free space again.
    pub fn go_back(&mut self) -> (e: Effects)
        ensures
            back_outcome(*old(self), *final(self), e),
    {
        let mut effects = Effects::none();
        if self.screen == Screen::Main {
            return effects;
        }
        if self.screen == Screen::Settings {
            self.settings = self.persisted_settings.duplicate();
            effects.initialize_settings_browser = true;
            effects.free_space = true;
        }
        self.screen = Screen::Main;
        self.focus = FocusField::SourceTree;
        self.status_message = StatusMessage::info(string_from("Returned to import screen."));
        effects
    }
}

/// Asks for the free space at the destination root, and for nothing else.
pub open spec fn asks_free_space(e: Effects) -> bool {
    &&& e.free_space
    &&& !e.initialize_settings_browser
    &&& !e.quit
    &&& !e.cancel_copy
    &&& !e.refresh_devices
    &&& e.load_directories@.len() == 0
    &&& e.source_summary is None
    &&& e.read_settings_directory is None
    &&& e.eject is None
    &&& !e.confirm
}

/// Asks for nothing but the current screen's own step to be carried on.
pub open spec fn asks_confirm_step(e: Effects) -> bool {
    &&& e.confirm
    &&& !e.free_space
    &&& !e.initialize_settings_browser
    &&& !e.quit
    &&& !e.cancel_copy
    &&& !e.refresh_devices
    &&& e.load_directories@.len() == 0
    &&& e.source_summary is None
    &&& e.read_settings_directory is None
    &&& e.eject is None
}

} // verus!
