//! What the terminal screens show and how their selection moves: screens,
//! focus, status messages, help texts, scrolling, and the wording of
//! progress and results.
use vstd::prelude::*;
use crate::browser::SourceEntry;
use crate::copy::CopyProgress;
use crate::text::{concat2, concat3, decimal, push_decimal, push_two_digits, string_from};
use crate::types::{AvailabilityView, DeviceAvailability, DeviceInfo};

verus! {

#[derive(Debug, Clone, Copy, PartialEq, Eq, Structural)]
pub enum Screen {
    Main,
    Settings,
    Confirmation,
    CopyResults,
}

#[derive(Debug, Clone, Copy, PartialEq, Eq, Structural)]
pub enum FocusField {
    SourceTree,
    Theme,
    DestinationRoot,
    DateFormat,
}

#[derive(Debug, Clone, Copy, PartialEq, Eq, Structural)]
pub enum StatusKind {
    Info,
    Success,
    Warning,
    Error,
}

pub open spec fn icon_of(kind: StatusKind) -> Seq<char> {
    match kind {
        StatusKind::Info => "◎"@,
        StatusKind::Success => "●"@,
        StatusKind::Warning => "▲"@,
        StatusKind::Error => "✕"@,
    }
}

impl StatusKind {
    pub fn icon(self) -> (r: &'static str)
        ensures
            r@ == icon_of(self),
    {
        match self {
            StatusKind::Info => "◎",
            StatusKind::Success => "●",
            StatusKind::Warning => "▲",
            StatusKind::Error => "✕",
        }
    }
}

/// A line of feedback and how it is meant.
#[derive(Debug, Clone, PartialEq, Eq)]
pub struct StatusMessage {
    pub kind: StatusKind,
    pub text: String,
}

impl StatusMessage {
    pub fn info(text: String) -> (r: Self)
        ensures
            r.kind == StatusKind::Info,
            r.text@ == text@,
    {
        StatusMessage { kind: StatusKind::Info, text }
    }

    pub fn success(text: String) -> (r: Self)
        ensures
            r.kind == StatusKind::Success,
            r.text@ == text@,
    {
        StatusMessage { kind: StatusKind::Success, text }
    }

    pub fn warning(text: String) -> (r: Self)
        ensures
            r.kind == StatusKind::Warning,
            r.text@ == text@,
    {
        StatusMessage { kind: StatusKind::Warning, text }
    }

    pub fn error(text: String) -> (r: Self)
        ensures
            r.kind == StatusKind::Error,
            r.text@ == text@,
    {
        StatusMessage { kind: StatusKind::Error, text }
    }

    /// A copy of this message.
    pub fn duplicate(&self) -> (r: Self)
        ensures
            r.kind == self.kind,
            r.text@ == self.text@,
    {
        StatusMessage { kind: self.kind, text: self.text.clone() }
    }
}

/// The help line for what has focus on a screen.
pub open spec fn help_for(screen: Screen, focus: FocusField) -> Seq<char> {
    match screen {
        Screen::Main => match focus {
            FocusField::SourceTree => "Arrows or j/k move | h goes to parent or collapses | l expands folders | Ctrl+U/Ctrl+D move half a page | Tab switches to theme | Enter reviews the import"@,
            FocusField::Theme => "Type to edit the theme | Tab switches back to source browsing | Enter reviews the import"@,
            _ => "Tab cycles focus between source browsing and theme entry."@,
        },
        Screen::Settings => match focus {
            FocusField::DestinationRoot => "Arrows or j/k move | h goes to parent or collapses | l expands folders | Ctrl+U/Ctrl+D move half a page | Enter confirms Destination Root | Tab switches to Date Format"@,
            FocusField::DateFormat => "Type to edit the format | Tab switches back to Destination Root | Enter saves all pending settings | Esc returns"@,
            _ => "Edit archive preferences in-place, then press Enter to save."@,
        },
        Screen::Confirmation => "Enter starts the copy | Esc cancels and returns to the archive screen"@,
        Screen::CopyResults => "Enter or Esc returns to the archive screen"@,
    }
}

pub fn contextual_help(screen: Screen, focus: FocusField) -> (r: &'static str)
    ensures
        r@ == help_for(screen, focus),
{
    match screen {
        Screen::Main => match focus {
            FocusField::SourceTree => "Arrows or j/k move | h goes to parent or collapses | l expands folders | Ctrl+U/Ctrl+D move half a page | Tab switches to theme | Enter reviews the import",
            FocusField::Theme => "Type to edit the theme | Tab switches back to source browsing | Enter reviews the import",
            _ => "Tab cycles focus between source browsing and theme entry.",
        },
        Screen::Settings => match focus {
            FocusField::DestinationRoot => "Arrows or j/k move | h goes to parent or collapses | l expands folders | Ctrl+U/Ctrl+D move half a page | Enter confirms Destination Root | Tab switches to Date Format",
            FocusField::DateFormat => "Type to edit the format | Tab switches back to Destination Root | Enter saves all pending settings | Esc returns",
            _ => "Edit archive preferences in-place, then press Enter to save.",
        },
        Screen::Confirmation => "Enter starts the copy | Esc cancels and returns to the archive screen",
        Screen::CopyResults => "Enter or Esc returns to the archive screen",
    }
}

/// The help line for the keys that work on every screen.
pub fn global_help_text(screen: Screen) -> (r: &'static str)
    ensures
        r@ == "Ctrl+Q quit | Ctrl+R refresh | Ctrl+S settings | Ctrl+E eject"@,
{
    "Ctrl+Q quit | Ctrl+R refresh | Ctrl+S settings | Ctrl+E eject"
}

/// `a + b` held at `usize::MAX`.
pub open spec fn sat_add(a: int, b: int) -> int {
    if a + b > usize::MAX {
        usize::MAX as int
    } else {
        a + b
    }
}

/// `a - b` held at 0.
pub open spec fn sat_sub(a: int, b: int) -> int {
    if a - b < 0 {
        0
    } else {
        a - b
    }
}

/// The first visible row that keeps `selected_index` on screen: unchanged
/// while the selection is visible, else scrolled just enough.
pub open spec fn scroll_offset(current_offset: int, selected_index: int, viewport_height: int) -> int {
    if viewport_height == 0 {
        0
    } else if selected_index < current_offset {
        selected_index
    } else if selected_index >= sat_add(current_offset, viewport_height) {
        sat_sub(sat_add(selected_index, 1), viewport_height)
    } else {
        current_offset
    }
}

pub fn autoscroll_offset(current_offset: usize, selected_index: usize, viewport_height: usize) -> (r:
    usize)
    ensures
        r == scroll_offset(current_offset as int, selected_index as int, viewport_height as int),
{
    if viewport_height == 0 {
        return 0;
    }
    let viewport_end = current_offset.saturating_add(viewport_height);
    if selected_index < current_offset {
        selected_index
    } else if selected_index >= viewport_end {
        selected_index.saturating_add(1).saturating_sub(viewport_height)
    } else {
        current_offset
    }
}

/// Keeping the selection visible: after scrolling, the selected row lies
/// within the viewport.
pub proof fn lemma_scroll_keeps_selection_visible(
    current_offset: int,
    selected_index: int,
    viewport_height: int,
)
    requires
        0 <= current_offset,
        0 <= selected_index < usize::MAX,
        0 < viewport_height,
        current_offset + viewport_height <= usize::MAX,
    ensures
        scroll_offset(current_offset, selected_index, viewport_height) <= selected_index
            < scroll_offset(current_offset, selected_index, viewport_height) + viewport_height,
        0 <= scroll_offset(current_offset, selected_index, viewport_height),
{
}

/// `n` and the singular or plural noun: `1 file`, `3 files`.
pub open spec fn counted(n: nat, singular: Seq<char>, plural: Seq<char>) -> Seq<char> {
    if n == 1 {
        "1 "@ + singular
    } else {
        decimal(n) + " "@ + plural
    }
}

pub fn pluralize(count: usize, singular: &str, plural: &str) -> (r: String)
    ensures
        r@ == counted(count as nat, singular@, plural@),
{
    if count == 1 {
        concat2("1 ", singular)
    } else {
        let mut s = String::new();
        push_decimal(&mut s, count as u64);
        s.append(" ");
        s.append(plural);
        s
    }
}

/// Two-digit rendering with a leading zero below ten.
pub open spec fn two_digits(n: nat) -> Seq<char> {
    if n < 10 {
        seq!['0'] + decimal(n)
    } else {
        decimal(n)
    }
}

/// A duration in seconds as `1h 02m 03s`, `2m 03s` or `3s`.
pub open spec fn duration_text(total: nat) -> Seq<char> {
    let hours = total / 3600;
    let minutes = (total % 3600) / 60;
    let seconds = total % 60;
    if hours > 0 {
        decimal(hours) + "h "@ + two_digits(minutes) + "m "@ + two_digits(seconds) + "s"@
    } else if minutes > 0 {
        decimal(minutes) + "m "@ + two_digits(seconds) + "s"@
    } else {
        decimal(seconds) + "s"@
    }
}

pub fn format_duration(total_seconds: u64) -> (r: String)
    ensures
        r@ == duration_text(total_seconds as nat),
{
    let hours = total_seconds / 3600;
    let minutes = (total_seconds % 3600) / 60;
    let seconds = total_seconds % 60;
    let mut s = String::new();
    if hours > 0 {
        push_decimal(&mut s, hours);
        s.append("h ");
        push_two_digits(&mut s, minutes);
        s.append("m ");
        push_two_digits(&mut s, seconds);
        s.append("s");
    } else if minutes > 0 {
        push_decimal(&mut s, minutes);
        s.append("m ");
        push_two_digits(&mut s, seconds);
        s.append("s");
    } else {
        push_decimal(&mut s, seconds);
        s.append("s");
    }
    s
}

/// The status line while files are copied.
pub open spec fn copy_status_text(copied: nat, total: nat) -> Seq<char> {
    "Copying media files: "@ + decimal(copied) + "/"@ + decimal(total) + " complete"@
}

pub fn copy_status_message(progress: &CopyProgress) -> (r: String)
    ensures
        r@ == copy_status_text(progress.copied_files as nat, progress.total_files as nat),
{
    let mut s = string_from("Copying media files: ");
    push_decimal(&mut s, progress.copied_files as u64);
    s.append("/");
    push_decimal(&mut s, progress.total_files as u64);
    s.append(" complete");
    s
}

/// The label of the progress gauge.
pub open spec fn progress_summary_text(progress: Option<CopyProgress>) -> Seq<char> {
    match progress {
        Some(p) => if p.total_files > 0 {
            decimal(p.copied_files as nat) + " of "@ + decimal(p.total_files as nat)
                + " files copied"@
        } else {
            "Preparing copy job..."@
        },
        None => "Preparing copy job..."@,
    }
}

pub fn copy_progress_summary(progress: Option<&CopyProgress>) -> (r: String)
    ensures
        r@ == progress_summary_text(
            match progress {
                Some(p) => Some(*p),
                None => None,
            },
        ),
{
    match progress {
        Some(p) => {
            if p.total_files > 0 {
                let mut s = String::new();
                push_decimal(&mut s, p.copied_files as u64);
                s.append(" of ");
                push_decimal(&mut s, p.total_files as u64);
                s.append(" files copied");
                s
            } else {
                string_from("Preparing copy job...")
            }
        },
        None => string_from("Preparing copy job..."),
    }
}

/// The file being copied, as shown under the gauge.
pub fn copy_progress_current_file(progress: Option<&CopyProgress>) -> (r: String)
    ensures
        match progress {
            Some(p) => match p.current_file {
                Some(f) => r@ == f@,
                None => r@ == "Preparing copy job..."@,
            },
            None => r@ == "Preparing copy job..."@,
        },
{
    match progress {
        Some(p) => match &p.current_file {
            Some(f) => f.clone(),
            None => string_from("Preparing copy job..."),
        },
        None => string_from("Preparing copy job..."),
    }
}

/// Whether the free space covers the selected files, once both are known.
pub fn capacity_state(source_total_bytes: Option<u64>, free_bytes: Option<u64>) -> (r: Option<bool>)
    ensures
        match (source_total_bytes, free_bytes) {
            (Some(s), Some(f)) => r == Some(f >= s),
            _ => r is None,
        },
{
    match (source_total_bytes, free_bytes) {
        (Some(source), Some(free)) => Some(free >= source),
        _ => None,
    }
}

/// What to tell the user about a device's availability.
pub open spec fn availability_text(name: Seq<char>, availability: AvailabilityView) -> (
    StatusKind,
    Seq<char>,
) {
    match availability {
        AvailabilityView::Available => (StatusKind::Success, name + " is ready to import."@),
        AvailabilityView::Unavailable(reason) => (
            StatusKind::Warning,
            name + " cannot be used: "@ + reason,
        ),
    }
}

pub fn availability_message(device: &DeviceInfo) -> (r: StatusMessage)
    ensures
        (r.kind, r.text@) == availability_text(device.display_name@, device.availability@),
{
    match &device.availability {
        DeviceAvailability::Available => StatusMessage::success(
            concat2(device.display_name.as_str(), " is ready to import."),
        ),
        DeviceAvailability::Unavailable(reason) => StatusMessage::warning(
            concat3(device.display_name.as_str(), " cannot be used: ", reason.as_str()),
        ),
    }
}

/// How a root is labelled in the settings browser: `/` for the empty path,
/// else the path itself.
pub open spec fn root_label(path: Seq<char>) -> Seq<char> {
    if path.len() == 0 {
        "/"@
    } else {
        path
    }
}

/// How a root is labelled in the settings browser: `/` for the empty path.
pub fn display_root_label(path: &str) -> (r: String)
    ensures
        r@ == root_label(path@),
{
    if path.unicode_len() == 0 {
        string_from("/")
    } else {
        string_from(path)
    }
}


/// Two spaces per nesting level.
pub open spec fn indent(depth: nat) -> Seq<char> {
    Seq::new(2 * depth, |i: int| ' ')
}

/// The marker before a row's label: expanded, collapsed, or no children.
pub open spec fn row_marker(has_children: bool, is_expanded: bool) -> Seq<char> {
    if has_children {
        if is_expanded {
            "▾"@
        } else {
            "▸"@
        }
    } else {
        "•"@
    }
}

/// How a browser row reads: its indentation, marker and label, and the
/// loading glyph while its folder is listed.
pub open spec fn row_text(entry: SourceEntry, glyph: Seq<char>) -> Seq<char> {
    indent(entry.depth as nat) + row_marker(entry.has_children, entry.is_expanded) + " "@ + entry.label@
        + if entry.is_loading {
        "  "@ + glyph
    } else {
        Seq::<char>::empty()
    }
}

pub fn browser_row_text(entry: &SourceEntry, glyph: &str) -> (r: String)
    ensures
        r@ == row_text(*entry, glyph@),
{
    let mut out = String::new();
    let mut i: usize = 0;
    assert(out@ =~= indent(0));
    while i < entry.depth
        invariant
            i <= entry.depth,
            out@ == indent(i as nat),
        decreases entry.depth - i,
    {
        let ghost before = out@;
        out.append("  ");
        proof {
            reveal_strlit("  ");
            assert(out@ =~= indent((i + 1) as nat));
        }
        i = i + 1;
    }
    let marker = if entry.has_children {
        if entry.is_expanded {
            "▾"
        } else {
            "▸"
        }
    } else {
        "•"
    };
    out.append(marker);
    out.append(" ");
    out.append(entry.label.as_str());
    if entry.is_loading {
        out.append("  ");
        out.append(glyph);
    } else {
        assert(out@ + Seq::<char>::empty() =~= out@);
    }
    out
}

/// The first row shown and the row highlighted in a list of `count` rows
/// whose viewport holds `height` rows, when there are rows.
pub open spec fn list_window(count: int, selected: int, offset: int, height: int) -> Option<(int, int)> {
    if count == 0 {
        None
    } else {
        let highlighted = if selected < count - 1 {
            selected
        } else {
            count - 1
        };
        let first = scroll_offset(offset, highlighted, height);
        Some((if first < count - 1 {
            first
        } else {
            count - 1
        }, highlighted))
    }
}

pub fn browser_window(count: usize, selected: usize, offset: usize, height: usize) -> (r: Option<(usize, usize)>)
    ensures
        match list_window(count as int, selected as int, offset as int, height as int) {
            Some((first, highlighted)) => r matches Some((f, h)) && f == first && h == highlighted,
            None => r is None,
        },
{
    if count == 0 {
        return None;
    }
    let highlighted = if selected < count - 1 {
        selected
    } else {
        count - 1
    };
    let first = autoscroll_offset(offset, highlighted, height);
    let first = if first < count - 1 {
        first
    } else {
        count - 1
    };
    Some((first, highlighted))
}

} // verus!
