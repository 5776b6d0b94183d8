//! Answers to background work: device searches, folder listings, summaries,
//! free space, ejects and copy runs.
use vstd::prelude::*;
use crate::browser::{DirectoryLoadState, LoadView, load_view};
use crate::copy::{CopyProgress, CopySummary};
use crate::text::{concat2, concat3, decimal, push_decimal, str_eq, string_from};
use crate::types::DeviceInfo;
use crate::ui::{
    Screen, StatusKind, StatusMessage, copy_status_message, copy_status_text, counted,
    duration_text, format_duration, pluralize,
};
use super::{
    AppState, AsyncValue, DeviceEjectOutcome, Effects, SourceSummary, first_row_with_path,
    lemma_first_row_is_row, only_status_changed, position_of_path, rows_of, same_browsers,
    source_rows,
};

verus! {

/// What the status line says when a copy run ends with `summary` after
/// `elapsed` seconds.
pub open spec fn copy_finished_status(summary: CopySummary, elapsed: nat) -> (StatusKind, Seq<char>) {
    if summary.was_cancelled {
        (
            StatusKind::Warning,
            "Copy interrupted after "@ + counted(summary.copied_files as nat, "file"@, "files"@) + " in "@
                + duration_text(elapsed) + "."@,
        )
    } else if summary.failures@.len() == 0 {
        (
            StatusKind::Success,
            "Copy finished: "@ + counted(summary.copied_files as nat, "file"@, "files"@)
                + " archived in "@ + duration_text(elapsed) + "."@,
        )
    } else {
        (
            StatusKind::Warning,
            "Copy completed in "@ + duration_text(elapsed) + " with "@ + counted(
                summary.failures@.len(),
                "failure"@,
                "failures"@,
            ) + "."@,
        )
    }
}

impl AppState {
    /// Records the listing of the source browser's folder `path`.
    pub fn directory_loaded(&mut self, path: String, children: Vec<String>)
        requires
            old(self).wf(),
        ensures
            *final(self) == (AppState {
                pending_directory_loads: final(self).pending_directory_loads,
                directory_state: final(self).directory_state,
                source_entries: final(self).source_entries,
                source_index: final(self).source_index,
                status_message: final(self).status_message,
                ..*old(self)
            }),
            final(self).wf(),
            final(self).pending_directory_loads.view() == old(self).pending_directory_loads.view().remove(path@),
            final(self).directory_state.lookup(path@) == Some(load_view(DirectoryLoadState::Loaded(children))),
            forall|q: Seq<char>| q != path@ ==> #[trigger] final(self).directory_state.lookup(q)
                == old(self).directory_state.lookup(q),
            rows_of(final(self).source_entries@) == source_rows(
                old(self).devices@,
                final(self).directory_state,
                old(self).expanded_sources,
            ),
            final(self).expanded_sources == old(self).expanded_sources,
            old(self).source_index < final(self).source_entries@.len() ==> final(self).source_index
                == old(self).source_index,
            old(self).source_index >= final(self).source_entries@.len() ==> final(self).source_index
                == if final(self).source_entries@.len() == 0 {
                0
            } else {
                final(self).source_entries@.len() - 1
            },
            final(self).status_message.kind == StatusKind::Info,
            final(self).status_message.text@ == "Loaded "@ + path@,
            final(self).screen == old(self).screen,
            final(self).focus == old(self).focus,
            final(self).import_session == old(self).import_session,
    {
        self.pending_directory_loads.remove(path.as_str());
        let message = concat2("Loaded ", path.as_str());
        self.directory_state.insert(path, DirectoryLoadState::Loaded(children));
        self.rebuild_source_entries();
        self.status_message = StatusMessage::info(message);
    }

    /// Records the summary of the folder `path` when it is still the one
    /// asked for.
    pub fn source_summary_loaded(&mut self, path: String, result: Result<SourceSummary, String>)
        ensures
            *final(self) == (AppState { source_summary: final(self).source_summary, ..*old(self) }),
            (old(self).source_summary_path matches Some(q) && q@ == path@) ==> final(self).source_summary == match result {
                Ok(summary) => AsyncValue::Ready(summary),
                Err(message) => AsyncValue::Error(message),
            },
            !(old(self).source_summary_path matches Some(q) && q@ == path@) ==> final(self).source_summary
                == old(self).source_summary,
    {
        let same = match &self.source_summary_path {
            Some(q) => str_eq(q.as_str(), path.as_str()),
            None => false,
        };
        if same {
            self.source_summary = match result {
                Ok(summary) => AsyncValue::Ready(summary),
                Err(message) => AsyncValue::Error(message),
            };
        }
    }

    /// Records the free space at `path` when it is still the root asked for.
    pub fn free_space_loaded(&mut self, path: String, result: Result<u64, String>)
        ensures
            *final(self) == (AppState { destination_free_space: final(self).destination_free_space, ..*old(self) }),
            (old(self).destination_free_path matches Some(q) && q@ == path@) ==> final(self).destination_free_space == match result {
                Ok(bytes) => AsyncValue::Ready(bytes),
                Err(message) => AsyncValue::Error(message),
            },
            !(old(self).destination_free_path matches Some(q) && q@ == path@) ==> final(self).destination_free_space
                == old(self).destination_free_space,
    {
        let same = match &self.destination_free_path {
            Some(q) => str_eq(q.as_str(), path.as_str()),
            None => false,
        };
        if same {
            self.destination_free_space = match result {
                Ok(bytes) => AsyncValue::Ready(bytes),
                Err(message) => AsyncValue::Error(message),
            };
        }
    }

    /// Records how far the copy run got.
    pub fn copy_progressed(&mut self, progress: CopyProgress)
        ensures
            *final(self) == (AppState {
                copy_progress: Some(progress),
                status_message: final(self).status_message,
                ..*old(self)
            }),
            (old(self).copy_active && old(self).cancel_requested) ==> final(self).status_message.kind
                == StatusKind::Warning && final(self).status_message.text@
                == "Stopping copy after the current file..."@,
            !(old(self).copy_active && old(self).cancel_requested) ==> final(self).status_message.kind
                == StatusKind::Info && final(self).status_message.text@ == copy_status_text(
                progress.copied_files as nat,
                progress.total_files as nat,
            ),
    {
        let message = if self.is_cancel_requested() {
            StatusMessage::warning(string_from("Stopping copy after the current file..."))
        } else {
            StatusMessage::info(copy_status_message(&progress))
        };
        self.copy_progress = Some(progress);
        self.status_message = message;
    }

    /// Records how the copy run ended, `elapsed_seconds` after it started.
    pub fn copy_finished(&mut self, result: Result<CopySummary, String>, elapsed_seconds: u64)
        ensures
            same_browsers(*old(self), *final(self)),
            !final(self).copy_active,
            !final(self).cancel_requested,
            final(self).copy_progress is None,
            final(self).screen == Screen::Main,
            final(self).focus == old(self).focus,
            final(self).settings == old(self).settings,
            final(self).import_session == old(self).import_session,
            final(self).devices == old(self).devices,
            match result {
                Ok(summary) => final(self).copy_result == Some(summary) && (
                final(self).status_message.kind,
                final(self).status_message.text@,
                ) == copy_finished_status(summary, elapsed_seconds as nat),
                Err(message) => final(self).copy_result is None && final(self).status_message.kind
                    == StatusKind::Error && final(self).status_message.text@ == "Copy failed: "@
                    + message@,
            },
    {
        self.copy_active = false;
        self.cancel_requested = false;
        self.copy_progress = None;
        self.screen = Screen::Main;
        match result {
            Ok(summary) => {
                let duration = format_duration(elapsed_seconds);
                let message = if summary.was_cancelled {
                    let files = pluralize(summary.copied_files, "file", "files");
                    let head = concat3("Copy interrupted after ", files.as_str(), " in ");
                    StatusMessage::warning(concat3(head.as_str(), duration.as_str(), "."))
                } else if summary.failures.len() == 0 {
                    let files = pluralize(summary.copied_files, "file", "files");
                    let head = concat3("Copy finished: ", files.as_str(), " archived in ");
                    StatusMessage::success(concat3(head.as_str(), duration.as_str(), "."))
                } else {
                    let failures = pluralize(summary.failures.len(), "failure", "failures");
                    let head = concat3("Copy completed in ", duration.as_str(), " with ");
                    StatusMessage::warning(concat3(head.as_str(), failures.as_str(), "."))
                };
                self.copy_result = Some(summary);
                self.status_message = message;
            },
            Err(message) => {
                self.copy_result = None;
                self.status_message = StatusMessage::error(concat2("Copy failed: ", message.as_str()));
            },
        }
    }

    /// Answers the end of an eject request for `device`: once ejected, the
    /// devices are looked for again and the device is then reported ready
    /// to remove; otherwise the reason is shown.
    pub fn device_ejected(&mut self, device: &DeviceInfo, outcome: DeviceEjectOutcome) -> (e: Effects)
        ensures
            match outcome {
                DeviceEjectOutcome::Ejected => e.refresh_devices && final(self).devices_loading
                    && (final(self).pending_device_refresh_status matches Some(m) && m.kind
                    == StatusKind::Success && m.text@ == device.display_name@ + " is ready to remove."@)
                    && final(self).status_message == old(self).status_message,
                DeviceEjectOutcome::Unsupported(reason) => e.is_none() && only_status_changed(*old(self), *final(self))
                    && final(self).status_message.kind == StatusKind::Warning
                    && final(self).status_message.text@ == device.display_name@ + " could not be ejected safely: "@ + reason@,
                DeviceEjectOutcome::Failed(reason) => e.is_none() && only_status_changed(*old(self), *final(self))
                    && final(self).status_message.kind == StatusKind::Warning
                    && final(self).status_message.text@ == device.display_name@ + " is not safe to remove yet: "@ + reason@,
            },
    {
        let mut effects = Effects::none();
        match outcome {
            DeviceEjectOutcome::Ejected => {
                let message = StatusMessage::success(
                    concat2(device.display_name.as_str(), " is ready to remove."),
                );
                self.request_device_refresh_with(Some(message), None);
                effects.refresh_devices = true;
            },
            DeviceEjectOutcome::Unsupported(reason) => {
                self.status_message = StatusMessage::warning(
                    concat3(device.display_name.as_str(), " could not be ejected safely: ", reason.as_str()),
                );
            },
            DeviceEjectOutcome::Failed(reason) => {
                self.status_message = StatusMessage::warning(
                    concat3(device.display_name.as_str(), " is not safe to remove yet: ", reason.as_str()),
                );
            },
        }
        effects
    }
}


/// The mount paths of `devices`.
pub open spec fn mount_paths(devices: Seq<DeviceInfo>) -> Set<Seq<char>>
    decreases devices.len(),
{
    if devices.len() == 0 {
        Set::empty()
    } else {
        mount_paths(devices.drop_last()).insert(devices.last().mount_path@)
    }
}

/// The status line after a device search found `devices`: the message kept
/// for it, else how many devices were found.
pub open spec fn devices_found_status(kept: Option<StatusMessage>, count: nat) -> (StatusKind, Seq<char>) {
    match kept {
        Some(m) => (m.kind, m.text@),
        None => if count == 0 {
            (StatusKind::Warning, "No removable devices found."@)
        } else {
            (StatusKind::Success, "Found "@ + decimal(count) + " removable device(s)."@)
        },
    }
}

impl AppState {
    /// Takes `devices` as the devices found: the browser starts over with a
    /// row per device, each mount path is listed in the background, and the
    /// folder selected before stays selected when it is still shown.
    pub fn apply_devices(&mut self, devices: Vec<DeviceInfo>) -> (e: Effects)
        requires
            old(self).wf(),
        ensures
            final(self).wf(),
            final(self).devices == devices,
            forall|p: Seq<char>| #[trigger] final(self).directory_state.lookup(p) == if mount_paths(devices@).contains(p) {
                Some(LoadView::Loading)
            } else {
                None
            },
            final(self).pending_directory_loads.view() == mount_paths(devices@),
            final(self).expanded_sources.view() == Set::<Seq<char>>::empty(),
            e.load_directories@.map_values(|s: String| s@) == devices@.map_values(|d: DeviceInfo| d.mount_path@),
            rows_of(final(self).source_entries@) == source_rows(
                devices@,
                final(self).directory_state,
                final(self).expanded_sources,
            ),
            match old(self).import_session.selected_source {
                Some(p) => match first_row_with_path(final(self).source_entries@, p@) {
                    Some(k) => final(self).source_index == k,
                    None => final(self).source_index == 0,
                },
                None => final(self).source_index == 0,
            },
            final(self).source_entries@.len() > 0 ==> {
                let entry = final(self).source_entries@[final(self).source_index as int];
                &&& final(self).import_session.selected_source matches Some(s) && s@ == entry.path@
                &&& final(self).import_session.selected_device matches Some(d) ==> d.id@ == entry.device_id@
                &&& final(self).import_session.selected_device is None ==> forall|k: int|
                    0 <= k < devices@.len() ==> devices@[k].id@ != entry.device_id@
                &&& final(self).source_summary == AsyncValue::<SourceSummary>::Loading
                &&& final(self).source_summary_path matches Some(s) && s@ == entry.path@
                &&& e.source_summary matches Some(s) && s@ == entry.path@
            },
            final(self).source_entries@.len() == 0 ==> final(self).import_session.selected_source is None
                && final(self).import_session.selected_device is None
                && final(self).source_summary == AsyncValue::<SourceSummary>::Idle
                && final(self).source_summary_path is None && e.source_summary is None,
            final(self).pending_device_refresh_status is None,
            (final(self).status_message.kind, final(self).status_message.text@) == devices_found_status(
                old(self).pending_device_refresh_status,
                devices@.len(),
            ),
            final(self).screen == old(self).screen,
            final(self).focus == old(self).focus,
            final(self).settings == old(self).settings,
            final(self).import_session.theme == old(self).import_session.theme,
            final(self).devices_loading == old(self).devices_loading,
            !e.quit && !e.cancel_copy && !e.refresh_devices && !e.free_space && !e.confirm
                && !e.initialize_settings_browser && e.read_settings_directory is None && e.eject is None,
    {
        let mut effects = Effects::none();
        let previous = match &self.import_session.selected_source {
            Some(p) => Some(p.clone()),
            None => None,
        };
        self.devices = devices;
        self.directory_state.clear();
        self.pending_directory_loads.clear();
        self.expanded_sources.clear();
        self.source_entries = Vec::new();
        self.source_index = 0;
        self.import_session.selected_device = None;
        self.import_session.selected_source = None;
        self.source_summary = AsyncValue::Idle;
        self.source_summary_path = None;
        let mut i: usize = 0;
        assert(self.devices@.take(0) =~= Seq::<DeviceInfo>::empty());
        assert(effects.load_directories@.map_values(|s: String| s@) =~= self.devices@.take(0).map_values(|d: DeviceInfo| d.mount_path@));
        while i < self.devices.len()
            invariant
                i <= self.devices@.len(),
                self.devices == devices,
                self.directory_state.wf(),
                self.pending_directory_loads.wf(),
                self.expanded_sources.wf(),
                self.settings_directory_state.wf(),
                self.expanded_settings_directories.wf(),
                self.expanded_sources.view() == Set::<Seq<char>>::empty(),
                forall|p: Seq<char>| #[trigger] self.directory_state.lookup(p) == if mount_paths(self.devices@.take(i as int)).contains(p) {
                    Some(LoadView::Loading)
                } else {
                    None
                },
                self.pending_directory_loads.view() == mount_paths(self.devices@.take(i as int)),
                effects.load_directories@.map_values(|s: String| s@) == self.devices@.take(i as int).map_values(|d: DeviceInfo| d.mount_path@),
                effects.is_none() == (effects.load_directories@.len() == 0),
                !effects.quit && !effects.cancel_copy && !effects.refresh_devices && !effects.free_space && !effects.confirm
                    && !effects.initialize_settings_browser && effects.read_settings_directory is None && effects.eject is None
                    && effects.source_summary is None,
                self.source_entries@.len() == 0,
                self.source_index == 0,
                self.import_session.selected_source is None,
                self.import_session.selected_device is None,
                self.import_session.theme == old(self).import_session.theme,
                self.source_summary == AsyncValue::<SourceSummary>::Idle,
                self.source_summary_path is None,
                self.screen == old(self).screen,
                self.focus == old(self).focus,
                self.settings == old(self).settings,
                self.status_message == old(self).status_message,
                self.pending_device_refresh_status == old(self).pending_device_refresh_status,
                self.devices_loading == old(self).devices_loading,
            decreases self.devices@.len() - i,
        {
            let ghost cur = self.devices@.take(i + 1);
            assert(cur.drop_last() =~= self.devices@.take(i as int));
            assert(cur.last() == self.devices@[i as int]);
            let mount = self.devices[i].mount_path.clone();
            self.directory_state.insert(mount.clone(), DirectoryLoadState::Loading);
            self.pending_directory_loads.insert(mount.clone());
            let ghost before = effects.load_directories@.map_values(|s: String| s@);
            effects.load_directories.push(mount);
            assert(effects.load_directories@.map_values(|s: String| s@) =~= before.push(self.devices@[i as int].mount_path@));
            assert(cur.map_values(|d: DeviceInfo| d.mount_path@) =~= self.devices@.take(i as int).map_values(|d: DeviceInfo| d.mount_path@).push(self.devices@[i as int].mount_path@));
            i = i + 1;
        }
        assert(self.devices@.take(self.devices@.len() as int) =~= self.devices@);
        self.rebuild_source_entries();
        match previous {
            Some(path) => {
                proof {
                    lemma_first_row_is_row(self.source_entries@, path@);
                }
                match position_of_path(&self.source_entries, path.as_str()) {
                    Some(k) => {
                        self.source_index = k;
                    },
                    None => {},
                }
            },
            None => {},
        }
        effects.source_summary = self.sync_selection_from_index();
        if self.source_entries.len() == 0 {
            self.source_summary = AsyncValue::Idle;
            self.source_summary_path = None;
        }
        let kept = self.pending_device_refresh_status.take();
        self.status_message = match kept {
            Some(m) => m,
            None => if self.devices.len() == 0 {
                StatusMessage::warning(string_from("No removable devices found."))
            } else {
                let mut text = string_from("Found ");
                push_decimal(&mut text, self.devices.len() as u64);
                text.append(" removable device(s).");
                StatusMessage::success(text)
            },
        };
        effects
    }

    /// Answers the end of a device search: the devices found are taken, or
    /// the browser is emptied and the failure shown.
    pub fn devices_loaded(&mut self, result: Result<Vec<DeviceInfo>, String>) -> (e: Effects)
        requires
            old(self).wf(),
        ensures
            final(self).wf(),
            !final(self).devices_loading,
            final(self).screen == old(self).screen,
            final(self).focus == old(self).focus,
            match result {
                Ok(devices) => {
                    &&& final(self).devices == devices
                    &&& (final(self).status_message.kind, final(self).status_message.text@)
                        == devices_found_status(old(self).pending_device_refresh_status, devices@.len())
                    &&& e.load_directories@.map_values(|s: String| s@) == devices@.map_values(|d: DeviceInfo| d.mount_path@)
                    &&& forall|p: Seq<char>| #[trigger] final(self).directory_state.lookup(p) == if mount_paths(devices@).contains(p) {
                        Some(LoadView::Loading)
                    } else {
                        None
                    }
                    &&& final(self).pending_directory_loads.view() == mount_paths(devices@)
                    &&& final(self).expanded_sources.view() == Set::<Seq<char>>::empty()
                    &&& rows_of(final(self).source_entries@) == source_rows(
                        devices@,
                        final(self).directory_state,
                        final(self).expanded_sources,
                    )
                    &&& match old(self).import_session.selected_source {
                        Some(p) => match first_row_with_path(final(self).source_entries@, p@) {
                            Some(k) => final(self).source_index == k,
                            None => final(self).source_index == 0,
                        },
                        None => final(self).source_index == 0,
                    }
                    &&& final(self).source_entries@.len() > 0 ==> {
                        let entry = final(self).source_entries@[final(self).source_index as int];
                        &&& final(self).import_session.selected_source matches Some(s) && s@ == entry.path@
                        &&& final(self).import_session.selected_device matches Some(d) ==> d.id@ == entry.device_id@
                        &&& final(self).import_session.selected_device is None ==> forall|k: int|
                            0 <= k < devices@.len() ==> devices@[k].id@ != entry.device_id@
                        &&& final(self).source_summary == AsyncValue::<SourceSummary>::Loading
                        &&& final(self).source_summary_path matches Some(s) && s@ == entry.path@
                        &&& e.source_summary matches Some(s) && s@ == entry.path@
                    }
                    &&& final(self).source_entries@.len() == 0 ==> final(self).import_session.selected_source is None
                        && final(self).import_session.selected_device is None
                        && final(self).source_summary == AsyncValue::<SourceSummary>::Idle
                        && final(self).source_summary_path is None && e.source_summary is None
                    &&& final(self).pending_device_refresh_status is None
                    &&& final(self).settings == old(self).settings
                    &&& final(self).import_session.theme == old(self).import_session.theme
                    &&& !e.quit && !e.cancel_copy && !e.refresh_devices && !e.free_space && !e.confirm
                        && !e.initialize_settings_browser && e.read_settings_directory is None && e.eject is None
                },
                Err(message) => {
                    &&& e.is_none()
                    &&& final(self).devices@.len() == 0
                    &&& final(self).source_entries@.len() == 0
                    &&& final(self).import_session.selected_device is None
                    &&& final(self).import_session.selected_source is None
                    &&& final(self).pending_device_refresh_status is None
                    &&& final(self).status_message.kind == StatusKind::Error
                    &&& final(self).status_message.text@ == "Device refresh failed: "@ + message@
                },
            },
    {
        self.devices_loading = false;
        match result {
            Ok(devices) => {
                let e = self.apply_devices(devices);
                e
            },
            Err(message) => {
                self.pending_device_refresh_status = None;
                self.devices = Vec::new();
                self.source_entries = Vec::new();
                self.import_session.selected_device = None;
                self.import_session.selected_source = None;
                self.status_message = StatusMessage::error(concat2("Device refresh failed: ", message.as_str()));
                Effects::none()
            },
        }
    }
}

} // verus!
