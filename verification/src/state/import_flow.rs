//! Going from the import screen to the review and into a copy run.
use vstd::prelude::*;
use crate::archive::{archive_plan_error, archive_root_for, build_archive_plan};
use crate::browser::{DirectoryLoadState, LoadView};
use crate::config::check_settings;
use crate::copy::CopyProgress;
use crate::datetime::LocalDateTime;
use crate::discovery::validate_selected_device;
use crate::errors::{ErrorView, SortedError};
use crate::text::{concat2, concat3, decimal, push_decimal, str_to_chars, string_from, trim_bounds};
use crate::types::{
    ArchivePlan, ArchiveSettings, CopyPlan, DeviceInfo, DeviceView, ImportSession, MediaFile,
    PathProbe,
};
use crate::ui::{
    FocusField, Screen, StatusKind, StatusMessage, availability_message, availability_text,
};
use super::{AppState, Effects, SourceSummary, confirm_outcome, current_record, only_status_changed};

verus! {

/// Whether `s` is blank once its white space is trimmed.
fn is_blank(s: &str) -> (r: bool)
    ensures
        r == (crate::text::trim_ws(s@).len() == 0),
{
    let v = str_to_chars(s);
    let (a, b) = trim_bounds(&v, false);
    a == b
}

/// Why the import screen cannot go on to the review, before planning:
/// the status line it shows and whether the theme gets the focus.
pub open spec fn main_step_blocked(state: AppState, device: DeviceView) -> Option<(StatusKind, Seq<char>, bool)> {
    if !(device.availability is Available) {
        let (kind, text) = availability_text(device.display_name, device.availability);
        Some((kind, text, false))
    } else {
        match state.import_session.selected_source {
            None => Some((StatusKind::Warning, "Pick a source folder before continuing."@, false)),
            Some(source) => if state.directory_state.lookup(source@) == Some(LoadView::Loading) {
                Some((StatusKind::Warning, "That folder is still loading. Try again in a moment."@, false))
            } else if crate::text::trim_ws(state.import_session.theme@).len() == 0 {
                Some((StatusKind::Warning, "Enter a theme before starting the import."@, true))
            } else {
                None
            },
        }
    }
}

impl AppState {
    /// Enter: refused while a copy runs (but on the results screen); leaves
    /// the results screen; confirms the highlighted destination root in the
    /// settings browser; otherwise asks the program to carry on with the
    /// screen's step (`confirm_main`, saving the settings, or starting the
    /// copy).
    pub fn confirm_or_advance(&mut self) -> (e: Effects)
        ensures
            confirm_outcome(*old(self), *final(self), e),
    {
        let mut effects = Effects::none();
        if self.copy_active && self.screen != Screen::CopyResults {
            self.status_message = StatusMessage::warning(
                string_from("Copy already in progress. Wait for it to stop first."),
            );
            return effects;
        }
        match self.screen {
            Screen::CopyResults => {
                self.screen = Screen::Main;
                self.status_message = StatusMessage::info(string_from("Returned to import screen."));
                effects
            },
            Screen::Settings => {
                if self.focus == FocusField::DestinationRoot {
                    self.confirm_settings_destination()
                } else {
                    effects.confirm = true;
                    effects
                }
            },
            _ => {
                effects.confirm = true;
                effects
            },
        }
    }

    /// The import screen's step on Enter: checks the selected device, folder
    /// and theme and plans the archive at `now`, `destination` and `mount`
    /// being the file system states of the destination root and of the
    /// device's current mount path. Returns the device and plan when the
    /// archive folder remains to be checked (`finish_confirmation`), nothing
    /// when the status line says why it stopped, and an error when no
    /// device is selected or the plan is refused.
    pub fn confirm_main(&mut self, now: &LocalDateTime, destination: &PathProbe, mount: &PathProbe) -> (r: Result<
        Option<(DeviceInfo, ArchivePlan)>,
        SortedError,
    >)
        requires
            old(self).wf(),
        ensures
            match old(self).import_session.selected_device {
                None => (r matches Err(e) && e@ == ErrorView::NoSourceSelected) && *final(self) == *old(self),
                Some(selected) => {
                    let d = current_record(old(self).devices@, selected);
                    match main_step_blocked(*old(self), d) {
                        Some((kind, text, to_theme)) => r matches Ok(None) && final(self).status_message.kind == kind
                            && final(self).status_message.text@ == text && *final(self) == (AppState {
                            status_message: final(self).status_message,
                            focus: if to_theme {
                                FocusField::Theme
                            } else {
                                old(self).focus
                            },
                            ..*old(self)
                        }),
                        None => *final(self) == *old(self) && match archive_plan_error(
                            old(self).settings,
                            old(self).import_session.theme@,
                            d,
                            *destination,
                            *mount,
                        ) {
                            Some(err) => r matches Err(e) && e@ == err,
                            None => r matches Ok(Some((dev, plan))) && dev@ == d && plan.archive_root@
                                == archive_root_for(
                                old(self).settings.destination_root@,
                                old(self).import_session.theme@,
                                now.rendering(old(self).settings.date_format@),
                                d.display_name,
                            ) && plan.date_segment@ == now.rendering(old(self).settings.date_format@)
                                && plan.destination_root@ == old(self).settings.destination_root@,
                        },
                    }
                },
            },
    {
        let selected = match &self.import_session.selected_device {
            Some(d) => d.duplicate(),
            None => return Err(SortedError::NoSourceSelected),
        };
        let device = match validate_selected_device(&selected, &self.devices) {
            Ok(d) => d,
            Err(e) => return Err(e),
        };
        if !device.is_available() {
            self.status_message = availability_message(&device);
            return Ok(None);
        }
        let source = match &self.import_session.selected_source {
            Some(s) => s.clone(),
            None => {
                self.status_message = StatusMessage::warning(string_from("Pick a source folder before continuing."));
                return Ok(None);
            },
        };
        let loading = match self.directory_state.get(source.as_str()) {
            Some(DirectoryLoadState::Loading) => true,
            _ => false,
        };
        if loading {
            self.status_message = StatusMessage::warning(
                string_from("That folder is still loading. Try again in a moment."),
            );
            return Ok(None);
        }
        if is_blank(self.import_session.theme.as_str()) {
            self.status_message = StatusMessage::warning(string_from("Enter a theme before starting the import."));
            self.focus = FocusField::Theme;
            return Ok(None);
        }
        match build_archive_plan(&self.settings, self.import_session.theme.as_str(), &device, now, destination, mount) {
            Ok(plan) => Ok(Some((device, plan))),
            Err(e) => Err(e),
        }
    }

    /// Ends the import screen's step once the archive folder of `plan` is
    /// known to exist or not: an existing one is refused, else the review
    /// screen opens with `device` selected.
    pub fn finish_confirmation(&mut self, device: DeviceInfo, plan: &ArchivePlan, exists: bool)
        ensures
            exists ==> final(self).status_message.kind == StatusKind::Error
                && final(self).status_message.text@ == "Archive destination "@ + plan.archive_root@ + " already exists."@
                && *final(self) == (AppState {
                    status_message: final(self).status_message,
                    focus: FocusField::SourceTree,
                    ..*old(self)
                }),
            !exists ==> final(self).status_message.kind == StatusKind::Info
                && final(self).status_message.text@ == "Review the source folder and archive destination before copy starts."@
                && final(self).import_session.selected_device == Some(device)
                && *final(self) == (AppState {
                    status_message: final(self).status_message,
                    screen: Screen::Confirmation,
                    import_session: final(self).import_session,
                    ..*old(self)
                }) && final(self).import_session == (ImportSession {
                    selected_device: Some(device),
                    ..old(self).import_session
                }),
    {
        if exists {
            self.status_message = StatusMessage::error(
                concat3("Archive destination ", plan.archive_root.as_str(), " already exists."),
            );
            self.focus = FocusField::SourceTree;
            return;
        }
        self.import_session.selected_device = Some(device);
        self.screen = Screen::Confirmation;
        self.status_message = StatusMessage::info(
            string_from("Review the source folder and archive destination before copy starts."),
        );
    }

    /// The settings screen's step on Enter away from the browser: the
    /// pending settings to save when they pass the checks (`probe` being
    /// the file system state of the destination root), else the status line
    /// says why they cannot be saved.
    pub fn settings_to_save(&mut self, probe: &PathProbe) -> (r: Option<ArchiveSettings>)
        ensures
            match crate::config::settings_error(old(self).settings, *probe) {
                Some(err) => r is None && only_status_changed(*old(self), *final(self))
                    && final(self).status_message.kind == StatusKind::Error
                    && final(self).status_message.text@ == "Settings could not be saved: "@
                    + crate::errors::error_text(err),
                None => *final(self) == *old(self) && (r matches Some(saved)
                    && saved.destination_root@ == old(self).settings.destination_root@
                    && saved.date_format@ == old(self).settings.date_format@),
            },
    {
        match check_settings(&self.settings, probe) {
            Ok(()) => Some(self.settings.duplicate()),
            Err(e) => {
                self.status_message = StatusMessage::error(
                    concat2("Settings could not be saved: ", e.message().as_str()),
                );
                None
            },
        }
    }

    /// The settings were saved to `config_path`: they become the persisted
    /// ones and the import screen opens.
    pub fn settings_saved(&mut self, saved: ArchiveSettings, config_path: &str)
        ensures
            final(self).persisted_settings.destination_root@ == saved.destination_root@,
            final(self).persisted_settings.date_format@ == saved.date_format@,
            final(self).settings == saved,
            final(self).screen == Screen::Main,
            final(self).focus == FocusField::SourceTree,
            final(self).status_message.kind == StatusKind::Success,
            final(self).status_message.text@ == "Saved settings to "@ + config_path@,
            *final(self) == (AppState {
                persisted_settings: final(self).persisted_settings,
                settings: saved,
                screen: Screen::Main,
                focus: FocusField::SourceTree,
                status_message: final(self).status_message,
                ..*old(self)
            }),
    {
        self.persisted_settings = saved.duplicate();
        self.settings = saved;
        self.screen = Screen::Main;
        self.focus = FocusField::SourceTree;
        self.status_message = StatusMessage::success(concat2("Saved settings to ", config_path));
    }

    /// Writing the settings failed with `message`.
    pub fn settings_save_failed(&mut self, message: &str)
        ensures
            only_status_changed(*old(self), *final(self)),
            final(self).status_message.kind == StatusKind::Error,
            final(self).status_message.text@ == "Settings could not be saved: "@ + message@,
    {
        self.status_message = StatusMessage::error(concat2("Settings could not be saved: ", message));
    }

    /// The review screen's step on Enter: checks the selected device, theme
    /// and folder once more. Returns the device's current record and the
    /// folder when the copy may be planned, nothing when the status line
    /// says why not, and an error when no device or no folder is selected.
    pub fn prepare_copy(&mut self) -> (r: Result<Option<(DeviceInfo, String)>, SortedError>)
        ensures
            match old(self).import_session.selected_device {
                None => (r matches Err(e) && e@ == ErrorView::NoSourceToImport) && *final(self) == *old(self),
                Some(selected) => {
                    let d = current_record(old(self).devices@, selected);
                    if !(d.availability is Available) {
                        r matches Ok(None) && (final(self).status_message.kind, final(self).status_message.text@)
                            == availability_text(d.display_name, d.availability) && *final(self) == (AppState {
                            status_message: final(self).status_message,
                            screen: Screen::Main,
                            ..*old(self)
                        })
                    } else if crate::text::trim_ws(old(self).import_session.theme@).len() == 0 {
                        r matches Ok(None) && final(self).status_message.kind == StatusKind::Warning
                            && final(self).status_message.text@ == "Enter a theme before starting the import."@
                            && *final(self) == (AppState {
                            status_message: final(self).status_message,
                            screen: Screen::Main,
                            focus: FocusField::Theme,
                            ..*old(self)
                        })
                    } else {
                        *final(self) == *old(self) && match old(self).import_session.selected_source {
                            None => r matches Err(e) && e@ == ErrorView::NoSourceFolder,
                            Some(source) => r matches Ok(Some((dev, folder))) && dev@ == d && folder@ == source@,
                        }
                    }
                },
            },
    {
        let selected = match &self.import_session.selected_device {
            Some(d) => d.duplicate(),
            None => return Err(SortedError::NoSourceToImport),
        };
        let device = match validate_selected_device(&selected, &self.devices) {
            Ok(d) => d,
            Err(e) => return Err(e),
        };
        if !device.is_available() {
            self.status_message = availability_message(&device);
            self.screen = Screen::Main;
            return Ok(None);
        }
        if is_blank(self.import_session.theme.as_str()) {
            self.status_message = StatusMessage::warning(string_from("Enter a theme before starting the import."));
            self.screen = Screen::Main;
            self.focus = FocusField::Theme;
            return Ok(None);
        }
        match &self.import_session.selected_source {
            Some(source) => Ok(Some((device, source.clone()))),
            None => Err(SortedError::NoSourceFolder),
        }
    }

    /// The copy could not be planned, for the reason `message`.
    pub fn copy_plan_failed(&mut self, message: &str)
        ensures
            final(self).status_message.kind == StatusKind::Error,
            final(self).status_message.text@ == "Import could not start: "@ + message@,
            *final(self) == (AppState {
                status_message: final(self).status_message,
                screen: Screen::Main,
                focus: FocusField::SourceTree,
                ..*old(self)
            }),
    {
        self.screen = Screen::Main;
        self.focus = FocusField::SourceTree;
        self.status_message = StatusMessage::error(concat2("Import could not start: ", message));
    }

    /// The copy of `plan` starts: no file is copied yet.
    pub fn copy_started(&mut self, plan: &CopyPlan)
        ensures
            final(self).copy_active,
            !final(self).cancel_requested,
            final(self).copy_progress matches Some(p) && p.copied_files == 0 && p.total_files
                == plan.files@.len() && p.current_file is None,
            final(self).copy_result is None,
            final(self).status_message.kind == StatusKind::Info,
            final(self).status_message.text@ == "Copying "@ + decimal(plan.files@.len()) + " media file(s) from "@
                + plan.source_root@,
            *final(self) == (AppState {
                copy_active: true,
                cancel_requested: false,
                copy_progress: final(self).copy_progress,
                copy_result: None,
                status_message: final(self).status_message,
                screen: Screen::Main,
                focus: FocusField::SourceTree,
                ..*old(self)
            }),
    {
        let mut text = string_from("Copying ");
        push_decimal(&mut text, plan.files.len() as u64);
        text.append(" media file(s) from ");
        text.append(plan.source_root.as_str());
        self.status_message = StatusMessage::info(text);
        self.copy_progress = Some(CopyProgress { copied_files: 0, total_files: plan.files.len(), current_file: None });
        self.copy_result = None;
        self.copy_active = true;
        self.cancel_requested = false;
        self.screen = Screen::Main;
        self.focus = FocusField::SourceTree;
    }
}


impl AppState {
    /// The archive folder the selected device would be imported into at
    /// `now`, when the plan holds (`destination` and `mount` being the file
    /// system states of the destination root and of the device's mount path).
    pub fn preview_path(&self, now: &LocalDateTime, destination: &PathProbe, mount: &PathProbe) -> (r: Option<String>)
        ensures
            match self.import_session.selected_device {
                None => r is None,
                Some(device) => match archive_plan_error(
                    self.settings,
                    self.import_session.theme@,
                    device@,
                    *destination,
                    *mount,
                ) {
                    Some(_) => r is None,
                    None => r matches Some(p) && p@ == archive_root_for(
                        self.settings.destination_root@,
                        self.import_session.theme@,
                        now.rendering(self.settings.date_format@),
                        device.display_name@,
                    ),
                },
            },
    {
        match &self.import_session.selected_device {
            None => None,
            Some(device) => match build_archive_plan(
                &self.settings,
                self.import_session.theme.as_str(),
                device,
                now,
                destination,
                mount,
            ) {
                Ok(plan) => Some(crate::archive::destination_preview(&plan)),
                Err(_) => None,
            },
        }
    }
}


/// The total size of `files`.
pub open spec fn total_size(files: Seq<MediaFile>) -> int
    decreases files.len(),
{
    if files.len() == 0 {
        0
    } else {
        total_size(files.drop_last()) + files.last().size_bytes
    }
}

proof fn lemma_total_size_grows(files: Seq<MediaFile>, i: int)
    requires
        0 <= i <= files.len(),
    ensures
        0 <= total_size(files.take(i)) <= total_size(files),
    decreases files.len() - i,
{
    if i == files.len() {
        assert(files.take(i) =~= files);
    } else {
        lemma_total_size_grows(files.drop_last(), i);
        assert(files.drop_last().take(i) =~= files.take(i));
    }
    lemma_total_size_nonnegative(files);
    lemma_total_size_nonnegative(files.take(i));
}

proof fn lemma_total_size_nonnegative(files: Seq<MediaFile>)
    ensures
        total_size(files) >= 0,
    decreases files.len(),
{
    if files.len() > 0 {
        lemma_total_size_nonnegative(files.drop_last());
    }
}

/// How many media files there are and their total size, unless the total
/// does not fit in 64 bits.
pub fn summarize_media(files: &Vec<MediaFile>) -> (r: Option<SourceSummary>)
    ensures
        total_size(files@) <= u64::MAX ==> (r matches Some(s) && s.file_count == files@.len()
            && s.total_bytes == total_size(files@)),
        total_size(files@) > u64::MAX ==> r is None,
{
    let mut total: u64 = 0;
    let mut i: usize = 0;
    assert(files@.take(0) =~= Seq::<MediaFile>::empty());
    while i < files.len()
        invariant
            i <= files@.len(),
            total == total_size(files@.take(i as int)),
        decreases files@.len() - i,
    {
        let ghost cur = files@.take(i + 1);
        assert(cur.drop_last() =~= files@.take(i as int));
        assert(cur.last() == files@[i as int]);
        match total.checked_add(files[i].size_bytes) {
            Some(t) => {
                total = t;
            },
            None => {
                proof {
                    lemma_total_size_grows(files@, i + 1);
                }
                return None;
            },
        }
        i = i + 1;
    }
    assert(files@.take(files@.len() as int) =~= files@);
    Some(SourceSummary { file_count: files.len(), total_bytes: total })
}

} // verus!
