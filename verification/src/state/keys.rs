//! What each key press asks for, and how the state answers it.
use vstd::prelude::*;
use crate::text::string_from;
use crate::ui::{FocusField, Screen, StatusKind, StatusMessage};
use super::{
    AppState, Effects, Key, back_outcome, collapse_outcome, confirm_outcome, directory_focus,
    eject_outcome, erase_outcome, expand_outcome, focus_outcome, half_page_outcome,
    move_outcome, moved_index, open_settings_outcome, refresh_outcome, type_outcome,
};

verus! {

/// What a key press asks for.
#[derive(Debug, Clone, Copy, PartialEq, Eq, Structural)]
pub enum KeyAction {
    Quit,
    Eject,
    Refresh,
    OpenSettings,
    HalfPageDown,
    HalfPageUp,
    Confirm,
    Back,
    CycleFocus,
    MoveUp,
    MoveDown,
    Collapse,
    Expand,
    Erase,
    Type(char),
    Ignore,
}

/// What `key` asks for, with Ctrl held or not, when a folder browser has
/// the focus or not: Ctrl+Q quits, Ctrl+E ejects, Ctrl+R and F5 refresh,
/// Ctrl+S and F2 open the settings, Ctrl+D and Ctrl+U move half a page in a
/// browser; h, j, k and l move in a browser as the arrows do; other
/// characters are typed.
pub open spec fn key_action(key: Key, ctrl: bool, browsing: bool) -> KeyAction {
    if ctrl {
        match key {
            Key::Char(c) => if c == 'q' || c == 'Q' {
                KeyAction::Quit
            } else if c == 'e' || c == 'E' {
                KeyAction::Eject
            } else if c == 'r' || c == 'R' {
                KeyAction::Refresh
            } else if c == 's' || c == 'S' {
                KeyAction::OpenSettings
            } else if (c == 'd' || c == 'D') && browsing {
                KeyAction::HalfPageDown
            } else if (c == 'u' || c == 'U') && browsing {
                KeyAction::HalfPageUp
            } else {
                KeyAction::Ignore
            },
            _ => KeyAction::Ignore,
        }
    } else {
        match key {
            Key::F(n) => if n == 5 {
                KeyAction::Refresh
            } else if n == 2 {
                KeyAction::OpenSettings
            } else {
                KeyAction::Ignore
            },
            Key::Enter => KeyAction::Confirm,
            Key::Esc => KeyAction::Back,
            Key::Tab => KeyAction::CycleFocus,
            Key::Up => KeyAction::MoveUp,
            Key::Down => KeyAction::MoveDown,
            Key::Left => KeyAction::Collapse,
            Key::Right => KeyAction::Expand,
            Key::Backspace => KeyAction::Erase,
            Key::Char(c) => if browsing && (c == 'h' || c == 'H') {
                KeyAction::Collapse
            } else if browsing && (c == 'j' || c == 'J') {
                KeyAction::MoveDown
            } else if browsing && (c == 'k' || c == 'K') {
                KeyAction::MoveUp
            } else if browsing && (c == 'l' || c == 'L') {
                KeyAction::Expand
            } else {
                KeyAction::Type(c)
            },
            Key::Other => KeyAction::Ignore,
        }
    }
}

pub fn classify_key(key: Key, ctrl: bool, browsing: bool) -> (r: KeyAction)
    ensures
        r == key_action(key, ctrl, browsing),
{
    if ctrl {
        match key {
            Key::Char(c) => if c == 'q' || c == 'Q' {
                KeyAction::Quit
            } else if c == 'e' || c == 'E' {
                KeyAction::Eject
            } else if c == 'r' || c == 'R' {
                KeyAction::Refresh
            } else if c == 's' || c == 'S' {
                KeyAction::OpenSettings
            } else if (c == 'd' || c == 'D') && browsing {
                KeyAction::HalfPageDown
            } else if (c == 'u' || c == 'U') && browsing {
                KeyAction::HalfPageUp
            } else {
                KeyAction::Ignore
            },
            _ => KeyAction::Ignore,
        }
    } else {
        match key {
            Key::F(n) => if n == 5 {
                KeyAction::Refresh
            } else if n == 2 {
                KeyAction::OpenSettings
            } else {
                KeyAction::Ignore
            },
            Key::Enter => KeyAction::Confirm,
            Key::Esc => KeyAction::Back,
            Key::Tab => KeyAction::CycleFocus,
            Key::Up => KeyAction::MoveUp,
            Key::Down => KeyAction::MoveDown,
            Key::Left => KeyAction::Collapse,
            Key::Right => KeyAction::Expand,
            Key::Backspace => KeyAction::Erase,
            Key::Char(c) => if browsing && (c == 'h' || c == 'H') {
                KeyAction::Collapse
            } else if browsing && (c == 'j' || c == 'J') {
                KeyAction::MoveDown
            } else if browsing && (c == 'k' || c == 'K') {
                KeyAction::MoveUp
            } else if browsing && (c == 'l' || c == 'L') {
                KeyAction::Expand
            } else {
                KeyAction::Type(c)
            },
            Key::Other => KeyAction::Ignore,
        }
    }
}

/// Only the source summary may be asked for.
pub open spec fn asks_at_most_summary(e: Effects) -> bool {
    &&& !e.quit
    &&& !e.cancel_copy
    &&& !e.refresh_devices
    &&& e.load_directories@.len() == 0
    &&& !e.free_space
    &&& !e.initialize_settings_browser
    &&& e.read_settings_directory is None
    &&& e.eject is None
    &&& !e.confirm
}

/// How the state `before` becomes `after`, naming the outside work `e`,
/// when the action `action` is carried out.
pub open spec fn action_outcome(before: AppState, action: KeyAction, after: AppState, e: Effects) -> bool {
    match action {
        KeyAction::Quit => if before.copy_active {
            !e.quit && e.cancel_copy && after.cancel_requested
                && after.status_message.kind == StatusKind::Warning
                && after.status_message.text@ == "Stopping copy after the current file..."@
                && after == (AppState {
                    cancel_requested: true,
                    status_message: after.status_message,
                    ..before
                })
        } else {
            e.quit && !e.cancel_copy && after == before
        },
        KeyAction::Eject => eject_outcome(before, after, e.eject) && !e.quit && !e.cancel_copy
            && !e.refresh_devices && e.load_directories@.len() == 0 && e.source_summary is None,
        KeyAction::Refresh => refresh_outcome(before, after, e.refresh_devices) && !e.quit && !e.cancel_copy
            && e.load_directories@.len() == 0 && e.source_summary is None && !e.free_space
            && !e.initialize_settings_browser && e.read_settings_directory is None && e.eject is None
            && !e.confirm,
        KeyAction::OpenSettings => open_settings_outcome(before, after, e),
        KeyAction::HalfPageDown => asks_at_most_summary(e) && half_page_outcome(before, after, 1isize, e.source_summary),
        KeyAction::HalfPageUp => asks_at_most_summary(e) && half_page_outcome(before, after, -1isize, e.source_summary),
        KeyAction::Confirm => confirm_outcome(before, after, e),
        KeyAction::Back => back_outcome(before, after, e),
        KeyAction::CycleFocus => e.is_none() && focus_outcome(before, after),
        KeyAction::MoveUp => asks_at_most_summary(e) && move_outcome(before, after, -1isize, e.source_summary),
        KeyAction::MoveDown => asks_at_most_summary(e) && move_outcome(before, after, 1isize, e.source_summary),
        KeyAction::Collapse => asks_at_most_summary(e) && collapse_outcome(before, after, e.source_summary),
        KeyAction::Expand => expand_outcome(before, after, e),
        KeyAction::Erase => e.is_none() && erase_outcome(before, after),
        KeyAction::Type(c) => e.is_none() && type_outcome(before, after, c),
        KeyAction::Ignore => e.is_none() && after == before,
    }
}

/// What a key press does: the action it asks for, given whether a folder
/// browser has the focus.
pub open spec fn key_press_outcome(before: AppState, key: Key, ctrl: bool, after: AppState, e: Effects) -> bool {
    action_outcome(before, key_action(key, ctrl, directory_focus(before.screen, before.focus)), after, e)
}

impl AppState {
    /// Answers a key press (`ctrl` when Ctrl is held) and names the outside
    /// work it calls for.
    pub fn handle_key(&mut self, key: Key, ctrl: bool) -> (e: Effects)
        requires
            old(self).wf(),
        ensures
            final(self).wf(),
            key_press_outcome(*old(self), key, ctrl, *final(self), e),
    {
        let browsing = self.is_directory_focus();
        let mut effects = Effects::none();
        match classify_key(key, ctrl, browsing) {
            KeyAction::Quit => {
                if self.copy_active {
                    self.cancel_requested = true;
                    self.status_message = StatusMessage::warning(
                        string_from("Stopping copy after the current file..."),
                    );
                    effects.cancel_copy = true;
                } else {
                    effects.quit = true;
                }
                effects
            },
            KeyAction::Eject => {
                effects.eject = self.request_safe_eject();
                effects
            },
            KeyAction::Refresh => {
                effects.refresh_devices = self.request_device_refresh();
                effects
            },
            KeyAction::OpenSettings => self.open_settings(),
            KeyAction::HalfPageDown => {
                effects.source_summary = self.move_by_half_page(1);
                effects
            },
            KeyAction::HalfPageUp => {
                effects.source_summary = self.move_by_half_page(-1);
                effects
            },
            KeyAction::Confirm => self.confirm_or_advance(),
            KeyAction::Back => self.go_back(),
            KeyAction::CycleFocus => {
                self.cycle_focus();
                effects
            },
            KeyAction::MoveUp => {
                effects.source_summary = self.move_selection(-1);
                effects
            },
            KeyAction::MoveDown => {
                effects.source_summary = self.move_selection(1);
                effects
            },
            KeyAction::Collapse => {
                effects.source_summary = self.handle_left();
                effects
            },
            KeyAction::Expand => self.handle_right(),
            KeyAction::Erase => {
                self.handle_backspace();
                effects
            },
            KeyAction::Type(c) => {
                self.handle_char(c);
                effects
            },
            KeyAction::Ignore => effects,
        }
    }
}


/// Outside a folder browser, and without Ctrl, every character key is typed,
/// the browser letters `h`, `j`, `k` and `l` included.
pub proof fn lemma_characters_type_outside_browsers(c: char)
    ensures
        key_action(Key::Char(c), false, false) == KeyAction::Type(c),
{
}

/// Ctrl+D and Ctrl+U move only inside a folder browser.
pub proof fn lemma_half_pages_need_a_browser(c: char)
    requires
        c == 'd' || c == 'D' || c == 'u' || c == 'U',
    ensures
        key_action(Key::Char(c), true, false) == KeyAction::Ignore,
        key_action(Key::Char(c), true, true) == if c == 'd' || c == 'D' {
            KeyAction::HalfPageDown
        } else {
            KeyAction::HalfPageUp
        },
{
}

/// A moved selection stays on one of the rows, however far it moves.
pub proof fn lemma_moved_index_in_rows(len: int, index: int, delta: int)
    requires
        len > 0,
    ensures
        0 <= moved_index(len, index, delta) < len,
{
}


/// The keys of the keyboard list act as the list says, whatever has the
/// focus: Ctrl+R refreshes the devices, Ctrl+S opens the settings, Tab
/// cycles the focus, Up and Down move the selection one row, Left and Right
/// collapse and expand, Enter confirms and Esc goes back. Each key's outcome
/// is exactly the predicate that the method doing that step alone has as its
/// contract: `refresh_outcome` (`request_device_refresh`, whose result is
/// the refresh effect, no other effect being asked), `open_settings_outcome`
/// (`open_settings`), `focus_outcome` (`cycle_focus`), `move_outcome` with
/// -1 and 1 (`move_selection`, whose result is the summary effect),
/// `collapse_outcome` (`handle_left`), `expand_outcome` (`handle_right`),
/// `confirm_outcome` (`confirm_or_advance`) and `back_outcome` (`go_back`).
/// None of these keys quits.
pub proof fn lemma_listed_keys(before: AppState, after: AppState, e: Effects)
    ensures
        key_press_outcome(before, Key::Char('r'), true, after, e) == (refresh_outcome(
            before,
            after,
            e.refresh_devices,
        ) && Effects { refresh_devices: false, ..e }.is_none()),
        key_press_outcome(before, Key::Char('s'), true, after, e) == open_settings_outcome(before, after, e),
        key_press_outcome(before, Key::Tab, false, after, e) == (e.is_none() && focus_outcome(before, after)),
        key_press_outcome(before, Key::Up, false, after, e) == (asks_at_most_summary(e) && move_outcome(
            before,
            after,
            -1isize,
            e.source_summary,
        )),
        key_press_outcome(before, Key::Down, false, after, e) == (asks_at_most_summary(e) && move_outcome(
            before,
            after,
            1isize,
            e.source_summary,
        )),
        key_press_outcome(before, Key::Left, false, after, e) == (asks_at_most_summary(e)
            && collapse_outcome(before, after, e.source_summary)),
        key_press_outcome(before, Key::Right, false, after, e) == expand_outcome(before, after, e),
        key_press_outcome(before, Key::Enter, false, after, e) == confirm_outcome(before, after, e),
        key_press_outcome(before, Key::Esc, false, after, e) == back_outcome(before, after, e),
        key_press_outcome(before, Key::Char('r'), true, after, e) ==> !e.quit,
        key_press_outcome(before, Key::Char('s'), true, after, e) ==> !e.quit,
        key_press_outcome(before, Key::Tab, false, after, e) ==> !e.quit,
        key_press_outcome(before, Key::Up, false, after, e) ==> !e.quit,
        key_press_outcome(before, Key::Down, false, after, e) ==> !e.quit,
        key_press_outcome(before, Key::Left, false, after, e) ==> !e.quit,
        key_press_outcome(before, Key::Right, false, after, e) ==> !e.quit,
        key_press_outcome(before, Key::Enter, false, after, e) ==> !e.quit,
        key_press_outcome(before, Key::Esc, false, after, e) ==> !e.quit,
        key_press_outcome(before, Key::F(5), false, after, e) == key_press_outcome(
            before,
            Key::Char('r'),
            true,
            after,
            e,
        ),
        key_press_outcome(before, Key::F(2), false, after, e) == open_settings_outcome(before, after, e),
{
}

/// How the keys relate, whatever has the focus: F5 and F2 do what Ctrl+R
/// and Ctrl+S do (refresh, open the settings); a Ctrl letter means the same
/// in either case; with Ctrl held no key types; in a folder browser `h`,
/// `j`, `k` and `l` do what Left, Down, Up and Right do, and outside one
/// they are typed like any other character; Ctrl+D and Ctrl+U move by half
/// a page only in a browser.
pub proof fn lemma_key_map_relations(key: Key, c: char, b: bool, b2: bool)
    ensures
        key_action(Key::F(5), false, b) == key_action(Key::Char('r'), true, b2),
        key_action(Key::F(5), false, b) == KeyAction::Refresh,
        key_action(Key::F(2), false, b) == key_action(Key::Char('s'), true, b2),
        key_action(Key::F(2), false, b) == KeyAction::OpenSettings,
        'a' <= c <= 'z' ==> key_action(Key::Char(c), true, b) == key_action(
            Key::Char(((c as u32) - 32) as char),
            true,
            b,
        ),
        !(key_action(key, true, b) is Type),
        key_action(Key::Char('h'), false, true) == key_action(Key::Left, false, b),
        key_action(Key::Char('j'), false, true) == key_action(Key::Down, false, b),
        key_action(Key::Char('k'), false, true) == key_action(Key::Up, false, b),
        key_action(Key::Char('l'), false, true) == key_action(Key::Right, false, b),
        key_action(Key::Char('d'), true, true) == KeyAction::HalfPageDown,
        key_action(Key::Char('u'), true, true) == KeyAction::HalfPageUp,
        key_action(key, false, b) != KeyAction::Quit && key_action(key, false, b) != KeyAction::Eject,
        key_action(Key::Char('q'), true, b) == KeyAction::Quit,
        key_action(Key::Char('e'), true, b) == KeyAction::Eject,
{
    if 'a' <= c <= 'z' {
        let u = ((c as u32) - 32) as char;
        assert(u == 'Q' <==> c == 'q');
        assert(u == 'E' <==> c == 'e');
        assert(u == 'R' <==> c == 'r');
        assert(u == 'S' <==> c == 's');
        assert(u == 'D' <==> c == 'd');
        assert(u == 'U' <==> c == 'u');
        assert(u != 'q' && u != 'e' && u != 'r' && u != 's' && u != 'd' && u != 'u');
    }
}

} // verus!
