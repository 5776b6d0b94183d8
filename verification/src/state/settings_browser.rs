//! The settings screen: its folder browser, the pending destination root,
//! its free space, and saving.
use vstd::prelude::*;
use crate::browser::{DirectoryLoadState, LoadView, load_view};
use crate::config::{validate_destination_root, validate_settings};
use crate::datetime::LocalDateTime;
use crate::text::{concat2, concat3, str_eq, string_from};
use crate::types::PathProbe;
use crate::ui::{StatusKind, StatusMessage};
use super::{
    AppState, AsyncValue, Effects, destination_confirm_outcome, first_row_with_path, lemma_first_row_is_row,
    only_status_changed, position_of_path, rows_of,
};

verus! {

/// The folders that a list of listings names.
pub open spec fn listing_paths(ls: Seq<(String, Vec<String>)>) -> Set<Seq<char>>
    decreases ls.len(),
{
    if ls.len() == 0 {
        Set::empty()
    } else {
        listing_paths(ls.drop_last()).insert(ls.last().0@)
    }
}

/// The last listing of `path` in `ls`, as a load state.
pub open spec fn last_listing(ls: Seq<(String, Vec<String>)>, path: Seq<char>) -> Option<LoadView>
    decreases ls.len(),
{
    if ls.len() == 0 {
        None
    } else if ls.last().0@ == path {
        Some(load_view(DirectoryLoadState::Loaded(ls.last().1)))
    } else {
        last_listing(ls.drop_last(), path)
    }
}

impl AppState {
    /// Builds the settings browser anew around `root`: each listed folder is
    /// expanded with its listing, and `focus_path` is highlighted.
    pub fn install_settings_browser(
        &mut self,
        root: String,
        focus_path: String,
        listings: Vec<(String, Vec<String>)>,
    )
        requires
            old(self).wf(),
        ensures
            final(self).wf(),
            final(self).settings_root matches Some(r) && r@ == root@,
            final(self).expanded_settings_directories.view() == listing_paths(listings@),
            forall|p: Seq<char>| #[trigger] final(self).settings_directory_state.lookup(p) == last_listing(listings@, p),
            rows_of(final(self).settings_entries@) == crate::browser::settings_rows(
                root@,
                final(self).settings_directory_state,
                final(self).expanded_settings_directories,
            ),
            first_row_with_path(final(self).settings_entries@, focus_path@) matches Some(k) ==> final(self).settings_index == k,
            first_row_with_path(final(self).settings_entries@, focus_path@) is None ==> final(self).settings_index == 0,
            final(self).screen == old(self).screen,
            final(self).focus == old(self).focus,
            final(self).settings == old(self).settings,
            final(self).source_entries == old(self).source_entries,
            final(self).expanded_sources == old(self).expanded_sources,
    {
        self.settings_directory_state.clear();
        self.expanded_settings_directories.clear();
        self.settings_entries = Vec::new();
        self.settings_index = 0;
        let mut i: usize = 0;
        assert(listings@.take(0) =~= Seq::<(String, Vec<String>)>::empty());
        while i < listings.len()
            invariant
                i <= listings@.len(),
                self.settings_directory_state.wf(),
                self.expanded_settings_directories.wf(),
                self.expanded_settings_directories.view() == listing_paths(listings@.take(i as int)),
                forall|p: Seq<char>| #[trigger] self.settings_directory_state.lookup(p) == last_listing(listings@.take(i as int), p),
                self.wf() == (self.directory_state.wf() && self.expanded_sources.wf() && self.pending_directory_loads.wf()
                    && self.settings_directory_state.wf() && self.expanded_settings_directories.wf()),
                self.directory_state.wf(),
                self.expanded_sources.wf(),
                self.pending_directory_loads.wf(),
                self.settings_index == 0,
                self.screen == old(self).screen,
                self.focus == old(self).focus,
                self.settings == old(self).settings,
                self.source_entries == old(self).source_entries,
                self.expanded_sources == old(self).expanded_sources,
            decreases listings@.len() - i,
        {
            let ghost cur = listings@.take(i + 1);
            assert(cur.drop_last() =~= listings@.take(i as int));
            assert(cur.last() == listings@[i as int]);
            let path = listings[i].0.clone();
            let children = listings[i].1.clone();
            self.expanded_settings_directories.insert(path.clone());
            self.settings_directory_state.insert(path, DirectoryLoadState::Loaded(children));
            i = i + 1;
        }
        assert(listings@.take(listings@.len() as int) =~= listings@);
        self.settings_root = Some(root.clone());
        self.rebuild_settings_entries();
        proof {
            lemma_first_row_is_row(self.settings_entries@, focus_path@);
        }
        match position_of_path(&self.settings_entries, focus_path.as_str()) {
            Some(k) => {
                self.settings_index = k;
            },
            None => {},
        }
    }

    /// Asks for the free space at the destination root once the root is
    /// valid (its file system state is `probe`), unless it is known or on
    /// its way; returns the root to measure.
    pub fn request_destination_free_space(&mut self, probe: &PathProbe) -> (r: Option<String>)
        ensures
            *final(self) == (AppState {
                destination_free_space: final(self).destination_free_space,
                destination_free_path: final(self).destination_free_path,
                ..*old(self)
            }),
            crate::config::destination_root_error(old(self).settings.destination_root@, *probe) is Some ==> r is None
                && final(self).destination_free_path is None
                && (final(self).destination_free_space matches AsyncValue::Error(m) && m@ == "Free space appears after the destination path is valid."@),
            crate::config::destination_root_error(old(self).settings.destination_root@, *probe) is None ==> {
                let path = old(self).settings.destination_root@;
                let busy = (old(self).destination_free_path matches Some(q) && q@ == path) && (
                old(self).destination_free_space is Loading || old(self).destination_free_space is Ready);
                &&& busy ==> r is None && *final(self) == *old(self)
                &&& !busy ==> (r matches Some(p) && p@ == path) && (final(self).destination_free_path matches Some(q) && q@ == path)
                    && final(self).destination_free_space == AsyncValue::<u64>::Loading
            },
    {
        match validate_destination_root(self.settings.destination_root.as_str(), probe) {
            Err(_) => {
                self.destination_free_path = None;
                self.destination_free_space = AsyncValue::Error(
                    string_from("Free space appears after the destination path is valid."),
                );
                return None;
            },
            Ok(()) => {},
        }
        let path = self.settings.destination_root.clone();
        let same = match &self.destination_free_path {
            Some(q) => str_eq(q.as_str(), path.as_str()),
            None => false,
        };
        let busy = match &self.destination_free_space {
            AsyncValue::Loading => true,
            AsyncValue::Ready(_) => true,
            _ => false,
        };
        if same && busy {
            return None;
        }
        self.destination_free_path = Some(path.clone());
        self.destination_free_space = AsyncValue::Loading;
        Some(path)
    }

    /// Takes the folder highlighted in the settings browser as the pending
    /// destination root and asks for its free space.
    pub fn confirm_settings_destination(&mut self) -> (e: Effects)
        ensures
            destination_confirm_outcome(*old(self), *final(self), e),
    {
        let mut effects = Effects::none();
        let path = match self.selected_settings_candidate() {
            Some(p) => p,
            None => {
                self.status_message = StatusMessage::warning(
                    string_from("Highlight a directory before confirming Destination Root."),
                );
                return effects;
            },
        };
        self.settings.destination_root = path.clone();
        self.status_message = StatusMessage::info(
            concat3(
                "Destination Root set to ",
                path.as_str(),
                ". Press Tab to review Date Format, then Enter to save.",
            ),
        );
        effects.free_space = true;
        effects
    }

    /// What the settings screen says of the pending settings, whose
    /// destination root's file system state is `probe`, previewing dates at `now`.
    pub fn settings_feedback(&self, probe: &PathProbe, now: &LocalDateTime) -> (r: StatusMessage)
        ensures
            match crate::config::settings_error(self.settings, *probe) {
                Some(err) => r.kind == StatusKind::Error && r.text@ == "Fix this before saving: "@
                    + crate::errors::error_text(err),
                None => r.kind == StatusKind::Success && r.text@
                    == "Ready to save. Destination resolves to "@ + self.settings.destination_root@
                    + " and renders dates like "@ + now.rendering(self.settings.date_format@) + "."@,
            },
    {
        match validate_settings(&self.settings, probe, now) {
            Ok(preview) => {
                let head = concat3(
                    "Ready to save. Destination resolves to ",
                    self.settings.destination_root.as_str(),
                    " and renders dates like ",
                );
                let text = concat3(head.as_str(), preview.preview.as_str(), ".");
                StatusMessage::success(text)
            },
            Err(e) => StatusMessage::error(concat2("Fix this before saving: ", e.message().as_str())),
        }
    }
}

} // verus!
