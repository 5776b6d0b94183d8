//! Naming archive folders: `<destination>/<theme><formatted-date>/<device-name>/`,
//! with every name made safe to use as a path component.
use vstd::prelude::*;
use crate::config::{check_date_format, date_format_error, settings_error, validate_destination_root};
use crate::datetime::LocalDateTime;
use crate::errors::{ErrorView, SortedError};
use crate::text::{
    char_is_control, is_white_space, lemma_join_chars, lemma_runs_chars, lemma_runs_single,
    lemma_trim_noop, lemma_trim_shape, concat2, is_control, is_dot, join_runs, join_with, push_char, slice_to_string,
    str_to_chars, string_from, trim_bounds, trim_by, trim_ws, words, lemma_runs_shape,
};
use crate::types::{ArchivePlan, ArchiveSettings, DeviceInfo, DeviceView, PathProbe};

verus! {

/// Characters that cannot stand in a file name on some platform.
pub open spec fn reserved_char(c: char) -> bool {
    c == '<' || c == '>' || c == ':' || c == '"' || c == '/' || c == '\\' || c == '|' || c == '?'
        || c == '*'
}

/// A reserved or control character becomes `'_'`; any other stays.
pub open spec fn safe_char(c: char) -> char {
    if reserved_char(c) || is_control(c) {
        '_'
    } else {
        c
    }
}

pub open spec fn sanitize(s: Seq<char>) -> Seq<char> {
    s.map_values(|c: char| safe_char(c))
}

/// A name made safe as one path component: trimmed, reserved and control
/// characters replaced by `'_'`, runs of white space collapsed into one
/// `'_'` between words, and leading and trailing dots dropped.
pub open spec fn normalized_component(s: Seq<char>) -> Seq<char> {
    trim_ws(trim_by(join_with(words(sanitize(trim_ws(s))), '_'), |c: char| is_dot(c)))
}

/// A character that a normalized name may hold.
pub open spec fn component_char(c: char) -> bool {
    !reserved_char(c) && !is_control(c) && !is_white_space(c)
}

/// A normalized name holds no reserved, control or white-space character,
/// and neither begins nor ends with a dot.
pub proof fn lemma_normalized_is_safe(s: Seq<char>)
    ensures
        forall|k: int|
            0 <= k < normalized_component(s).len() ==> component_char(
                #[trigger] normalized_component(s)[k],
            ),
        normalized_component(s).len() > 0 ==> normalized_component(s)[0] != '.'
            && normalized_component(s).last() != '.',
{
    let t = trim_ws(s);
    let z = sanitize(t);
    let ws = |c: char| is_white_space(c);
    let dot = |c: char| is_dot(c);
    let no_bad = |c: char| !reserved_char(c) && !is_control(c);
    assert forall|k: int| 0 <= k < z.len() implies no_bad(#[trigger] z[k]) by {
        assert(z[k] == safe_char(t[k]));
    }
    lemma_runs_chars(z, ws, no_bad);
    lemma_runs_shape(z, ws);
    let w = words(z);
    let q = |c: char| component_char(c);
    assert forall|i: int, k: int| 0 <= i < w.len() && 0 <= k < w[i].len() implies q(
        #[trigger] w[i][k],
    ) by {
        assert(no_bad(w[i][k]));
        assert(!ws(w[i][k]));
    }
    lemma_join_chars(w, '_', q);
    let j = join_with(w, '_');
    lemma_trim_shape(j, dot, q);
    let m = trim_by(j, dot);
    lemma_trim_shape(m, ws, q);
    lemma_trim_noop(m, ws);
}

/// Normalizing a normalized name changes nothing.
pub proof fn lemma_normalize_idempotent(s: Seq<char>)
    ensures
        normalized_component(normalized_component(s)) == normalized_component(s),
{
    let x = normalized_component(s);
    lemma_normalized_is_safe(s);
    let ws = |c: char| is_white_space(c);
    let dot = |c: char| is_dot(c);
    lemma_trim_noop(x, ws);
    assert(trim_ws(x) == x);
    assert(sanitize(x) =~= x) by {
        assert forall|k: int| 0 <= k < x.len() implies sanitize(x)[k] == x[k] by {
            assert(component_char(x[k]));
        }
    }
    assert forall|k: int| 0 <= k < x.len() implies !ws(#[trigger] x[k]) by {
        assert(component_char(x[k]));
    }
    lemma_runs_single(x, ws);
    assert(join_with(words(x), '_') == x);
    lemma_trim_noop(x, dot);
}

/// `PathBuf::join` on `'/'`-separated paths: an absolute `seg` replaces
/// `root`; otherwise a separator is put between them unless `root` is empty
/// or already ends with one.
pub open spec fn spec_join_path(root: Seq<char>, seg: Seq<char>) -> Seq<char> {
    if seg.len() > 0 && seg[0] == '/' {
        seg
    } else if root.len() == 0 {
        seg
    } else if root.last() == '/' {
        root + seg
    } else {
        root + seq!['/'] + seg
    }
}

fn char_safe(c: char) -> (r: char)
    ensures
        r == safe_char(c),
{
    if c == '<' || c == '>' || c == ':' || c == '"' || c == '/' || c == '\\' || c == '|' || c
        == '?' || c == '*' || char_is_control(c) {
        '_'
    } else {
        c
    }
}

/// The characters `v[a..b]`.
pub fn subvec(v: &Vec<char>, a: usize, b: usize) -> (r: Vec<char>)
    requires
        a <= b <= v@.len(),
    ensures
        r@ == v@.subrange(a as int, b as int),
{
    let mut out: Vec<char> = Vec::new();
    let mut i = a;
    while i < b
        invariant
            a <= i <= b,
            b <= v@.len(),
            out@ == v@.subrange(a as int, i as int),
        decreases b - i,
    {
        out.push(v[i]);
        assert(v@.subrange(a as int, i + 1) =~= v@.subrange(a as int, i as int).push(v@[i as int]));
        i = i + 1;
    }
    out
}

pub fn normalize_path_component(input: &str) -> (r: String)
    ensures
        r@ == normalized_component(input@),
{
    let v = str_to_chars(input);
    let (a, b) = trim_bounds(&v, false);
    let ghost trimmed = v@.subrange(a as int, b as int);
    let mut safe: Vec<char> = Vec::new();
    let mut i = a;
    while i < b
        invariant
            a <= i <= b,
            b <= v@.len(),
            trimmed == v@.subrange(a as int, b as int),
            safe@ == sanitize(v@.subrange(a as int, i as int)),
        decreases b - i,
    {
        safe.push(char_safe(v[i]));
        assert(sanitize(v@.subrange(a as int, i + 1)) =~= sanitize(
            v@.subrange(a as int, i as int),
        ).push(safe_char(v@[i as int])));
        i = i + 1;
    }
    let joined = join_runs(&safe, true, '_');
    let (c, d) = trim_bounds(&joined, true);
    let undotted = subvec(&joined, c, d);
    let (e, f) = trim_bounds(&undotted, false);
    slice_to_string(&undotted, e, f)
}

pub fn join_path(root: &str, seg: &str) -> (r: String)
    ensures
        r@ == spec_join_path(root@, seg@),
{
    let rv = str_to_chars(root);
    let sv = str_to_chars(seg);
    if sv.len() > 0 && sv[0] == '/' {
        return string_from(seg);
    }
    if rv.len() == 0 {
        return string_from(seg);
    }
    let mut out = string_from(root);
    if rv[rv.len() - 1] != '/' {
        push_char(&mut out, '/');
    }
    out.append(seg);
    out
}

/// Why an archive plan is refused, if it is, in the order of the checks:
/// the settings, the device's availability, its mount path, then the two
/// names that must keep at least one character.
pub open spec fn archive_plan_error(
    settings: ArchiveSettings,
    theme: Seq<char>,
    device: DeviceView,
    destination: PathProbe,
    mount: PathProbe,
) -> Option<ErrorView> {
    if settings_error(settings, destination) is Some {
        settings_error(settings, destination)
    } else if !(device.availability is Available) {
        Some(ErrorView::DeviceUnavailable)
    } else if !mount.exists {
        Some(ErrorView::MountPathMissing(device.mount_path))
    } else if normalized_component(theme).len() == 0 {
        Some(ErrorView::EmptyTheme)
    } else if normalized_component(device.display_name).len() == 0 {
        Some(ErrorView::EmptyDeviceName)
    } else {
        None
    }
}

/// The archive folder for `theme`, rendered at `now`, from `device`:
/// `root/<theme><date>/<device>`.
pub open spec fn archive_root_for(
    root: Seq<char>,
    theme: Seq<char>,
    date: Seq<char>,
    device_name: Seq<char>,
) -> Seq<char> {
    spec_join_path(
        spec_join_path(root, normalized_component(theme) + date),
        normalized_component(device_name),
    )
}

/// Plans where an import is archived, `date_segment` being the date as the
/// settings' format renders it. `destination` is what the file system
/// reported about the destination root, `mount` about the device's mount
/// path.
pub fn plan_archive(
    settings: &ArchiveSettings,
    theme: &str,
    device: &DeviceInfo,
    date_segment: String,
    destination: &PathProbe,
    mount: &PathProbe,
) -> (r: Result<ArchivePlan, SortedError>)
    ensures
        match r {
            Ok(plan) => {
                &&& archive_plan_error(*settings, theme@, device@, *destination, *mount) is None
                &&& plan.theme_segment@ == normalized_component(theme@)
                &&& plan.date_segment@ == date_segment@
                &&& plan.device_segment@ == normalized_component(device.display_name@)
                &&& plan.destination_root@ == settings.destination_root@
                &&& plan.archive_root@ == archive_root_for(
                    settings.destination_root@,
                    theme@,
                    date_segment@,
                    device.display_name@,
                )
            },
            Err(e) => archive_plan_error(*settings, theme@, device@, *destination, *mount) == Some(
                e@,
            ),
        },
{
    match validate_destination_root(settings.destination_root.as_str(), destination) {
        Ok(()) => {},
        Err(e) => return Err(e),
    }
    match check_date_format(settings.date_format.as_str()) {
        Ok(()) => {},
        Err(e) => return Err(e),
    }
    if !device.is_available() {
        return Err(SortedError::DeviceUnavailable);
    }
    if !mount.exists {
        return Err(SortedError::MountPathMissing(device.mount_path.clone()));
    }
    let normalized_theme = normalize_path_component(theme);
    if normalized_theme.unicode_len() == 0 {
        return Err(SortedError::EmptyTheme);
    }
    let normalized_device = normalize_path_component(device.display_name.as_str());
    if normalized_device.unicode_len() == 0 {
        return Err(SortedError::EmptyDeviceName);
    }
    let folder = concat2(normalized_theme.as_str(), date_segment.as_str());
    let dated = join_path(settings.destination_root.as_str(), folder.as_str());
    let archive_root = join_path(dated.as_str(), normalized_device.as_str());
    Ok(
        ArchivePlan {
            theme_segment: normalized_theme,
            date_segment,
            device_segment: normalized_device,
            destination_root: settings.destination_root.clone(),
            archive_root,
        },
    )
}

/// Plans where an import is archived, with the date rendered at `now`.
/// `destination` is what the file system reported about the destination
/// root, `mount` about the device's mount path.
pub fn build_archive_plan(
    settings: &ArchiveSettings,
    theme: &str,
    device: &DeviceInfo,
    now: &LocalDateTime,
    destination: &PathProbe,
    mount: &PathProbe,
) -> (r: Result<ArchivePlan, SortedError>)
    ensures
        match r {
            Ok(plan) => {
                &&& archive_plan_error(*settings, theme@, device@, *destination, *mount) is None
                &&& plan.theme_segment@ == normalized_component(theme@)
                &&& plan.date_segment@ == now.rendering(settings.date_format@)
                &&& plan.device_segment@ == normalized_component(device.display_name@)
                &&& plan.destination_root@ == settings.destination_root@
                &&& plan.archive_root@ == archive_root_for(
                    settings.destination_root@,
                    theme@,
                    now.rendering(settings.date_format@),
                    device.display_name@,
                )
            },
            Err(e) => archive_plan_error(*settings, theme@, device@, *destination, *mount) == Some(
                e@,
            ),
        },
{
    match validate_destination_root(settings.destination_root.as_str(), destination) {
        Ok(()) => {},
        Err(e) => return Err(e),
    }
    match check_date_format(settings.date_format.as_str()) {
        Ok(()) => {},
        Err(e) => return Err(e),
    }
    let date_segment = now.render(settings.date_format.as_str());
    plan_archive(settings, theme, device, date_segment, destination, mount)
}

/// The archive folder, as shown to the user.
pub fn destination_preview(plan: &ArchivePlan) -> (r: String)
    ensures
        r@ == plan.archive_root@,
{
    plan.archive_root.clone()
}

/// Whether a destination can receive archives: it exists and is a directory.
pub fn is_destination_writable(probe: &PathProbe) -> (r: bool)
    ensures
        r == (probe.exists && probe.is_dir),
{
    probe.exists && probe.is_dir
}


/// An archive folder lies under its destination root: the root is a
/// prefix of it, the normalized theme follows the root (after a separator
/// when the root is not empty and does not end with one), and the folder
/// ends with the normalized device name, itself after a separator.
pub proof fn lemma_archive_root_layout(root: Seq<char>, theme: Seq<char>, date: Seq<char>, device: Seq<char>)
    requires
        normalized_component(theme).len() > 0,
        normalized_component(device).len() > 0,
    ensures
        ({
            let a = archive_root_for(root, theme, date, device);
            let t = normalized_component(theme);
            let d = normalized_component(device);
            let rl = root.len() as int;
            let lead: int = if root.len() == 0 || root.last() == '/' {
                rl
            } else {
                rl + 1
            };
            &&& a.len() >= lead + t.len() + 1 + d.len()
            &&& a.take(rl) == root
            &&& (lead > rl ==> a[rl] == '/')
            &&& a.subrange(lead, lead + t.len()) == t
            &&& a.skip(a.len() - d.len()) == d
            &&& a[a.len() - d.len() - 1] == '/'
        }),
{
    let t = normalized_component(theme);
    let d = normalized_component(device);
    let rl = root.len() as int;
    let tl = t.len() as int;
    lemma_normalized_is_safe(theme);
    lemma_normalized_is_safe(device);
    assert(component_char(t[0]));
    assert(component_char(d[0]));
    let mid = t + date;
    assert(mid[0] == t[0]);
    let first = spec_join_path(root, mid);
    let a = spec_join_path(first, d);
    let lead: int = if root.len() == 0 || root.last() == '/' {
        rl
    } else {
        rl + 1
    };
    if root.len() == 0 {
        assert(first == mid);
    } else if root.last() == '/' {
        assert(first == root + mid);
    } else {
        assert(first == root + seq!['/'] + mid);
        assert(first[rl] == '/');
    }
    assert(first.take(rl) =~= root);
    assert(first.subrange(lead, lead + tl) =~= t);
    assert(first.len() > 0);
    if first.last() == '/' {
        if date.len() == 0 {
            assert(mid.last() == t[tl - 1]);
            assert(component_char(t[tl - 1]));
        }
        assert(date.len() > 0);
        assert(a == first + d);
    } else {
        assert(a == first + seq!['/'] + d);
    }
    assert(a.take(first.len() as int) =~= first);
    assert(a.take(rl) =~= first.take(rl));
    assert(a.skip(a.len() - d.len()) =~= d);
    assert(a.subrange(lead, lead + tl) =~= first.subrange(lead, lead + tl));
    if lead > rl {
        assert(a[rl] == first[rl]);
    }
}

} // verus!
