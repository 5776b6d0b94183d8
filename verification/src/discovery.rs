//! Removable devices: which disks are listed, what they are called, how
//! Linux mount tables are read, and how the devices found are merged.
use vstd::prelude::*;
use crate::errors::SortedError;
use crate::paths::{file_name_chars, platform_file_name, platform_file_name_chars, seq_lt, spec_file_name, text_key, text_key_of, key_lt,
    lemma_seq_lt_asymmetric, lemma_seq_lt_irreflexive, lemma_seq_lt_total, lemma_seq_lt_transitive,
    path_components, components_of, sorted_positions};
use crate::text::{
    char_is_ascii_digit, chars_to_string, is_ascii_digit, replace_all, replace_chars, runs,
    separator_of, slice_to_string, split_runs, str_eq, str_starts_with, str_to_chars, string_from,
    trim_bounds, trim_ws, words, Separator,
};
use crate::types::{AvailabilityView, DeviceAvailability, DeviceInfo, DeviceView, PathProbe, Platform};

verus! {

/// How a disk's storage is reported (`sysinfo::DiskKind`).
#[derive(Debug, Clone, Copy, PartialEq, Eq)]
pub enum DiskKind {
    Hdd,
    Ssd,
    Unknown(isize),
}

/// A disk as the system lists it.
#[derive(Debug, Clone, PartialEq, Eq)]
pub struct DiskRecord {
    pub name: String,
    pub mount_point: String,
    pub is_removable: bool,
    pub kind: DiskKind,
}

/// The name given to a device whose mount path names nothing.
pub open spec fn fallback_name(platform: Platform) -> Seq<char> {
    match platform {
        Platform::MacOs => "External Volume"@,
        Platform::Windows => "Removable Drive"@,
        Platform::Linux => "Removable Media"@,
        Platform::Other => "Device"@,
    }
}

pub fn platform_device_fallback_name(platform: Platform) -> (r: String)
    ensures
        r@ == fallback_name(platform),
{
    match platform {
        Platform::MacOs => string_from("External Volume"),
        Platform::Windows => string_from("Removable Drive"),
        Platform::Linux => string_from("Removable Media"),
        Platform::Other => string_from("Device"),
    }
}

/// A device's display name: its trimmed name, else the last component of
/// its mount path (read by the platform's path rules), else the platform's
/// fallback.
pub open spec fn device_name_for(raw: Seq<char>, mount_path: Seq<char>, platform: Platform) -> Seq<
    char,
> {
    if trim_ws(raw).len() > 0 {
        trim_ws(raw)
    } else {
        match platform_file_name(mount_path, platform) {
            Some(n) => if n.len() > 0 {
                n
            } else {
                fallback_name(platform)
            },
            None => fallback_name(platform),
        }
    }
}

pub fn normalize_device_name(raw_name: &str, mount_path: &str, platform: Platform) -> (r: String)
    ensures
        r@ == device_name_for(raw_name@, mount_path@, platform),
{
    let v = str_to_chars(raw_name);
    let (a, b) = trim_bounds(&v, false);
    if a < b {
        return slice_to_string(&v, a, b);
    }
    match platform_file_name_chars(mount_path, platform) {
        Some(n) => {
            if n.len() > 0 {
                chars_to_string(&n)
            } else {
                platform_device_fallback_name(platform)
            }
        },
        None => platform_device_fallback_name(platform),
    }
}

/// The device mounted at `mount_path`, named `raw_name` by the system;
/// `probe` is what the file system reported about `mount_path`.
pub fn build_device_info(raw_name: &str, mount_path: String, probe: &PathProbe, platform: Platform) -> (r:
    DeviceInfo)
    ensures
        r.id@ == mount_path@,
        r.mount_path@ == mount_path@,
        r.display_name@ == device_name_for(raw_name@, mount_path@, platform),
        (probe.exists && probe.is_dir) ==> r.availability@ == AvailabilityView::Available,
        !(probe.exists && probe.is_dir) ==> r.availability@ == AvailabilityView::Unavailable(
            "device mount path is unavailable"@,
        ),
{
    let name = normalize_device_name(raw_name, mount_path.as_str(), platform);
    let availability = if probe.exists && probe.is_dir {
        DeviceAvailability::Available
    } else {
        DeviceAvailability::Unavailable(string_from("device mount path is unavailable"))
    };
    DeviceInfo { id: mount_path.clone(), display_name: name, mount_path, availability }
}

/// The first device of `visible` with the id `id`, if any.
pub open spec fn first_with_id(visible: Seq<DeviceInfo>, id: Seq<char>) -> Option<int>
    decreases visible.len(),
{
    if visible.len() == 0 {
        None
    } else if first_with_id(visible.drop_last(), id) is Some {
        first_with_id(visible.drop_last(), id)
    } else if visible.last().id@ == id {
        Some(visible.len() - 1)
    } else {
        None
    }
}

/// The up-to-date record of `device`: the first visible device with its id,
/// or `device` marked as no longer connected when none is visible.
pub fn validate_selected_device(device: &DeviceInfo, visible_devices: &Vec<DeviceInfo>) -> (r:
    Result<DeviceInfo, SortedError>)
    ensures
        r matches Ok(d) && match first_with_id(visible_devices@, device.id@) {
            Some(k) => d@ == visible_devices@[k]@,
            None => d@ == (DeviceView {
                availability: AvailabilityView::Unavailable(
                    "device is no longer connected or readable"@,
                ),
                ..device@
            }),
        },
{
    let mut i: usize = 0;
    assert(visible_devices@.take(0) =~= Seq::<DeviceInfo>::empty());
    while i < visible_devices.len()
        invariant
            i <= visible_devices@.len(),
            first_with_id(visible_devices@.take(i as int), device.id@) is None,
        decreases visible_devices@.len() - i,
    {
        let candidate = &visible_devices[i];
        let ghost cur = visible_devices@.take(i + 1);
        assert(cur.drop_last() =~= visible_devices@.take(i as int));
        if candidate.id == device.id {
            proof {
                assert(first_with_id(cur, device.id@) == Some(i as int));
                lemma_first_with_id_prefix(visible_devices@, device.id@, i + 1);
            }
            return Ok(candidate.duplicate());
        }
        i = i + 1;
    }
    assert(visible_devices@.take(visible_devices@.len() as int) =~= visible_devices@);
    Ok(
        DeviceInfo {
            id: device.id.clone(),
            display_name: device.display_name.clone(),
            mount_path: device.mount_path.clone(),
            availability: DeviceAvailability::Unavailable(
                string_from("device is no longer connected or readable"),
            ),
        },
    )
}

proof fn lemma_first_with_id_prefix(visible: Seq<DeviceInfo>, id: Seq<char>, k: int)
    requires
        0 <= k <= visible.len(),
        first_with_id(visible.take(k), id) is Some,
    ensures
        first_with_id(visible, id) == first_with_id(visible.take(k), id),
    decreases visible.len() - k,
{
    if k == visible.len() {
        assert(visible.take(k) =~= visible);
    } else {
        let d = visible.drop_last();
        assert(d.take(k) =~= visible.take(k));
        lemma_first_with_id_prefix(d, id, k);
    }
}

/// Whether a mount point can be browsed: it is a directory.
pub fn has_browsable_mount_point(probe: &PathProbe) -> (r: bool)
    ensures
        r == probe.is_dir,
{
    probe.is_dir
}

/// macOS lists a volume mounted below `/Volumes`, when it can be browsed.
pub open spec fn macos_includes(mount_point: Seq<char>, is_dir: bool) -> bool {
    &&& mount_point.len() > 0
    &&& mount_point[0] == '/'
    &&& path_components(mount_point).len() >= 2
    &&& path_components(mount_point)[0] == "Volumes"@
    &&& is_dir
}

pub fn should_include_macos_disk(mount_point: &str, probe: &PathProbe) -> (r: bool)
    ensures
        r == macos_includes(mount_point@, probe.is_dir),
{
    let v = str_to_chars(mount_point);
    if v.len() == 0 || v[0] != '/' {
        return false;
    }
    let cs = components_of(mount_point);
    if cs.len() < 2 {
        return false;
    }
    let first = chars_to_string(&cs[0]);
    str_eq(first.as_str(), "Volumes") && has_browsable_mount_point(probe)
}

pub fn should_include_linux_disk(is_removable: bool, probe: &PathProbe) -> (r: bool)
    ensures
        r == (is_removable && probe.is_dir),
{
    is_removable && has_browsable_mount_point(probe)
}

pub fn should_include_windows_disk(kind: DiskKind, is_removable: bool, probe: &PathProbe) -> (r:
    bool)
    ensures
        r == (kind != DiskKind::Unknown(-1isize) && is_removable && probe.is_dir),
{
    let unknown_minus_one = match kind {
        DiskKind::Unknown(k) => k == -1,
        _ => false,
    };
    !unknown_minus_one && is_removable && has_browsable_mount_point(probe)
}

/// Whether a listed disk is offered as a removable device on `platform`.
pub open spec fn disk_included(platform: Platform, disk: DiskRecord, is_dir: bool) -> bool {
    match platform {
        Platform::MacOs => macos_includes(disk.mount_point@, is_dir),
        Platform::Linux => disk.is_removable && is_dir,
        Platform::Windows => disk.kind != DiskKind::Unknown(-1isize) && disk.is_removable && is_dir,
        Platform::Other => false,
    }
}

/// Which listed disks are offered as removable devices. On Linux and
/// Windows a disk that the system reports as fixed is never offered (macOS
/// goes by where the volume is mounted); on Windows neither is a disk of
/// the kind `Unknown(-1)`; nothing is offered on another platform; and a
/// disk whose mount point cannot be browsed is never offered. A removable,
/// browsable disk is offered on Linux, and on Windows unless its kind is
/// `Unknown(-1)`.
pub proof fn lemma_only_removable_disks_are_offered(platform: Platform, disk: DiskRecord, is_dir: bool)
    ensures
        disk_included(platform, disk, is_dir) ==> is_dir,
        disk_included(platform, disk, is_dir) ==> disk.is_removable || platform == Platform::MacOs,
        disk_included(platform, disk, is_dir) ==> platform != Platform::Other,
        platform == Platform::Windows && disk.kind == DiskKind::Unknown(-1isize) ==> !disk_included(
            platform,
            disk,
            is_dir,
        ),
        (platform == Platform::Linux || (platform == Platform::Windows && disk.kind
            != DiskKind::Unknown(-1isize))) && disk.is_removable && is_dir ==> disk_included(
            platform,
            disk,
            is_dir,
        ),
        disk_included(Platform::Windows, disk, is_dir) ==> disk_included(Platform::Linux, disk, is_dir),
{
}

pub fn should_include_disk(platform: Platform, disk: &DiskRecord, probe: &PathProbe) -> (r: bool)
    ensures
        r == disk_included(platform, *disk, probe.is_dir),
        r ==> probe.is_dir,
        r ==> disk.is_removable || platform == Platform::MacOs,
{
    proof {
        lemma_only_removable_disks_are_offered(platform, *disk, probe.is_dir);
    }
    match platform {
        Platform::MacOs => should_include_macos_disk(disk.mount_point.as_str(), probe),
        Platform::Linux => should_include_linux_disk(disk.is_removable, probe),
        Platform::Windows => should_include_windows_disk(disk.kind, disk.is_removable, probe),
        Platform::Other => false,
    }
}

// ---------------------------------------------------------------------------
// Linux mount tables
// ---------------------------------------------------------------------------
/// A field of `/proc/mounts` with its octal escapes for space, tab, newline
/// and backslash decoded, in that order.
pub open spec fn decoded_field(s: Seq<char>) -> Seq<char> {
    replace_all(
        replace_all(
            replace_all(replace_all(s, "\\040"@, " "@), "\\011"@, "\t"@),
            "\\012"@,
            "\n"@,
        ),
        "\\134"@,
        "\\"@,
    )
}

pub fn decode_mount_field(value: &str) -> (r: String)
    ensures
        r@ == decoded_field(value@),
{
    proof {
        reveal_strlit("\\040");
        reveal_strlit("\\011");
        reveal_strlit("\\012");
        reveal_strlit("\\134");
    }
    let v = str_to_chars(value);
    let a = replace_chars(&v, &str_to_chars("\\040"), &str_to_chars(" "));
    let b = replace_chars(&a, &str_to_chars("\\011"), &str_to_chars("\t"));
    let c = replace_chars(&b, &str_to_chars("\\012"), &str_to_chars("\n"));
    let d = replace_chars(&c, &str_to_chars("\\134"), &str_to_chars("\\"));
    chars_to_string(&d)
}

/// The source and mount path of a mount table line: its first two fields, decoded.
pub open spec fn mount_entry(line: Seq<char>) -> Option<(Seq<char>, Seq<char>)> {
    let fs = words(line);
    if fs.len() < 2 {
        None
    } else {
        Some((decoded_field(fs[0]), decoded_field(fs[1])))
    }
}

pub fn parse_linux_mount_entry(line: &str) -> (r: Option<(String, String)>)
    ensures
        r is Some == mount_entry(line@) is Some,
        r matches Some(e) ==> e.0@ == mount_entry(line@)->Some_0.0 && e.1@ == mount_entry(
            line@,
        )->Some_0.1,
{
    let v = str_to_chars(line);
    let fields = split_runs(&v, Separator::WhiteSpace);
    assert(separator_of(Separator::WhiteSpace) == |c: char| crate::text::is_white_space(c));
    if fields.len() < 2 {
        return None;
    }
    let source = chars_to_string(&fields[0]);
    let mount = chars_to_string(&fields[1]);
    Some((decode_mount_field(source.as_str()), decode_mount_field(mount.as_str())))
}

/// The index of the last `c` in `s`, or -1.
pub open spec fn last_index_of(s: Seq<char>, c: char) -> int
    decreases s.len(),
{
    if s.len() == 0 {
        -1
    } else if s.last() == c {
        s.len() - 1
    } else {
        last_index_of(s.drop_last(), c)
    }
}

/// The whole-disk device of a partition name: `sdd1` is on `sdd`,
/// `mmcblk0p1` on `mmcblk0`, `nvme0n1p1` on `nvme0n1`. One trailing digit
/// is dropped unless that leaves a name ending in `p`; otherwise what
/// precedes the last `p` is taken when it ends in a digit.
pub open spec fn parent_block_name(d: Seq<char>) -> Seq<char> {
    if d.len() > 0 && is_ascii_digit(d.last()) && d.drop_last().len() > 0 && d.drop_last().last()
        != 'p' {
        d.drop_last()
    } else if last_index_of(d, 'p') > 0 && is_ascii_digit(d[last_index_of(d, 'p') - 1]) {
        d.take(last_index_of(d, 'p'))
    } else {
        d
    }
}

pub fn linux_parent_block_device_name(device: &str) -> (r: String)
    ensures
        r@ == parent_block_name(device@),
{
    let v = str_to_chars(device);
    let n = v.len();
    if n > 0 && char_is_ascii_digit(v[n - 1]) {
        let m = n - 1;
        if m > 0 && v[m - 1] != 'p' {
            assert(v@.drop_last() =~= v@.subrange(0, m as int));
            return slice_to_string(&v, 0, m);
        }
    }
    let mut k: usize = n;
    assert(v@.take(n as int) =~= v@);
    while k > 0 && v[k - 1] != 'p'
        invariant
            k <= n,
            n == v@.len(),
            last_index_of(v@, 'p') == last_index_of(v@.take(k as int), 'p'),
        decreases k,
    {
        assert(v@.take(k as int).drop_last() =~= v@.take(k - 1));
        k = k - 1;
    }
    proof {
        if k > 0 {
            assert(v@.take(k as int).last() == 'p');
        } else {
            assert(v@.take(0) =~= Seq::<char>::empty());
        }
    }
    if k > 1 && char_is_ascii_digit(v[k - 2]) {
        assert(v@.take(k - 1) =~= v@.subrange(0, k - 1));
        return slice_to_string(&v, 0, k - 1);
    }
    string_from(device)
}

/// The whole-disk device name behind a mount source such as `/dev/sdd1`.
pub open spec fn mount_device_name(source: Seq<char>) -> Option<Seq<char>> {
    match spec_file_name(source) {
        Some(n) => Some(parent_block_name(n)),
        None => None,
    }
}

pub fn linux_mount_device_name(source: &str) -> (r: Option<String>)
    ensures
        r is Some == mount_device_name(source@) is Some,
        r matches Some(n) ==> n@ == mount_device_name(source@)->Some_0,
{
    match file_name_chars(source) {
        None => None,
        Some(n) => {
            let s = chars_to_string(&n);
            Some(linux_parent_block_device_name(s.as_str()))
        },
    }
}

/// A mounted block device read from a mount table.
#[derive(Debug, Clone, PartialEq, Eq)]
pub struct LinuxMount {
    pub source: String,
    pub mount_path: String,
    pub device_name: String,
}

/// The model of a `LinuxMount`: source, mount path, device name.
pub open spec fn mount_view(m: LinuxMount) -> (Seq<char>, Seq<char>, Seq<char>) {
    (m.source@, m.mount_path@, m.device_name@)
}

/// The block-device mounts of the lines of a mount table, in order: those
/// lines with two fields whose source is under `/dev/` and names a device.
pub open spec fn mount_candidates(lines: Seq<Seq<char>>) -> Seq<(Seq<char>, Seq<char>, Seq<char>)>
    decreases lines.len(),
{
    if lines.len() == 0 {
        Seq::empty()
    } else {
        let prev = mount_candidates(lines.drop_last());
        match mount_entry(lines.last()) {
            Some((source, mount)) => if "/dev/"@.len() <= source.len() && source.take(
                "/dev/"@.len() as int,
            ) == "/dev/"@ && mount_device_name(source) is Some {
                prev.push((source, mount, mount_device_name(source)->Some_0))
            } else {
                prev
            },
            None => prev,
        }
    }
}

/// The block-device mounts listed in the mount table `contents`.
pub fn linux_mount_candidates(contents: &str) -> (r: Vec<LinuxMount>)
    ensures
        r@.map_values(|m: LinuxMount| mount_view(m)) == mount_candidates(
            runs(contents@, |c: char| c == '\n'),
        ),
{
    let v = str_to_chars(contents);
    let lines = split_runs(&v, Separator::Newline);
    let ghost ls = runs(contents@, |c: char| c == '\n');
    assert(separator_of(Separator::Newline) == |c: char| c == '\n');
    let mut out: Vec<LinuxMount> = Vec::new();
    let mut i: usize = 0;
    assert(ls.take(0) =~= Seq::<Seq<char>>::empty());
    while i < lines.len()
        invariant
            i <= lines@.len(),
            lines@.len() == ls.len(),
            forall|k: int| 0 <= k < lines@.len() ==> (#[trigger] lines@[k])@ == ls[k],
            out@.map_values(|m: LinuxMount| mount_view(m)) == mount_candidates(ls.take(i as int)),
        decreases lines@.len() - i,
    {
        let ghost cur = ls.take(i + 1);
        assert(cur.drop_last() =~= ls.take(i as int));
        assert(cur.last() == lines@[i as int]@);
        let line = chars_to_string(&lines[i]);
        match parse_linux_mount_entry(line.as_str()) {
            None => {},
            Some((source, mount)) => {
                if str_starts_with(source.as_str(), "/dev/") {
                    match linux_mount_device_name(source.as_str()) {
                        None => {},
                        Some(name) => {
                            let ghost before = out@;
                            out.push(LinuxMount { source, mount_path: mount, device_name: name });
                            assert(out@.map_values(|m: LinuxMount| mount_view(m)) =~= before.map_values(
                                |m: LinuxMount| mount_view(m),
                            ).push(mount_view(out@.last())));
                        },
                    }
                }
            },
        }
        i = i + 1;
    }
    assert(ls.take(ls.len() as int) =~= ls);
    out
}

/// The availability that a mount path's probe gives.
pub open spec fn availability_for(probe: PathProbe) -> AvailabilityView {
    if probe.exists && probe.is_dir {
        AvailabilityView::Available
    } else {
        AvailabilityView::Unavailable("device mount path is unavailable"@)
    }
}

/// The device of a mount path, named after its last component.
pub open spec fn mount_device(mount: Seq<char>, probe: PathProbe, platform: Platform) -> DeviceView {
    DeviceView {
        id: mount,
        display_name: device_name_for(
            match spec_file_name(mount) {
                Some(n) => n,
                None => Seq::empty(),
            },
            mount,
            platform,
        ),
        mount_path: mount,
        availability: availability_for(probe),
    }
}

/// The devices of the candidate mounts whose mount path can be browsed and
/// whose disk is removable, in order.
pub open spec fn linux_mount_devices(
    mounts: Seq<LinuxMount>,
    probes: Seq<PathProbe>,
    removable: Seq<bool>,
    platform: Platform,
) -> Seq<DeviceView>
    decreases mounts.len(),
{
    if mounts.len() == 0 {
        Seq::empty()
    } else {
        let k = mounts.len() - 1;
        let prev = linux_mount_devices(
            mounts.drop_last(),
            probes.take(k),
            removable.take(k),
            platform,
        );
        if probes[k].is_dir && removable[k] {
            prev.push(mount_device(mounts[k].mount_path@, probes[k], platform))
        } else {
            prev
        }
    }
}

/// `d` is the device of one of the first `mounts`, whose mount path can be
/// browsed and whose disk is removable.
pub open spec fn from_removable_mount(
    mounts: Seq<LinuxMount>,
    probes: Seq<PathProbe>,
    removable: Seq<bool>,
    platform: Platform,
    d: DeviceView,
) -> bool {
    exists|k: int|
        0 <= k < mounts.len() && removable[k] && probes[k].is_dir && #[trigger] mount_device(
            mounts[k].mount_path@,
            probes[k],
            platform,
        ) == d
}

/// Of the mount table, exactly the mounts on a removable disk whose mount
/// path can be browsed give devices: every device selected is one of them,
/// each of them gives its device (in table order), and there are no more
/// devices than such mounts.
pub proof fn lemma_only_removable_mounts_are_selected(
    mounts: Seq<LinuxMount>,
    probes: Seq<PathProbe>,
    removable: Seq<bool>,
    platform: Platform,
)
    requires
        probes.len() == mounts.len(),
        removable.len() == mounts.len(),
    ensures
        forall|j: int|
            0 <= j < linux_mount_devices(mounts, probes, removable, platform).len() ==> from_removable_mount(
                mounts,
                probes,
                removable,
                platform,
                #[trigger] linux_mount_devices(mounts, probes, removable, platform)[j],
            ),
        forall|k: int|
            0 <= k < mounts.len() && removable[k] && probes[k].is_dir ==> linux_mount_devices(
                mounts,
                probes,
                removable,
                platform,
            ).contains(mount_device(#[trigger] mounts[k].mount_path@, probes[k], platform)),
        linux_mount_devices(mounts, probes, removable, platform).len() <= mounts.len(),
        (forall|k: int| 0 <= k < mounts.len() ==> !#[trigger] removable[k]) ==> linux_mount_devices(
            mounts,
            probes,
            removable,
            platform,
        ).len() == 0,
    decreases mounts.len(),
{
    let devs = linux_mount_devices(mounts, probes, removable, platform);
    if mounts.len() > 0 {
        let k = mounts.len() - 1;
        let ms = mounts.drop_last();
        let ps = probes.take(k);
        let rs = removable.take(k);
        lemma_only_removable_mounts_are_selected(ms, ps, rs, platform);
        let prev = linux_mount_devices(ms, ps, rs, platform);
        assert forall|j: int| 0 <= j < devs.len() implies from_removable_mount(
            mounts,
            probes,
            removable,
            platform,
            #[trigger] devs[j],
        ) by {
            if j < prev.len() {
                assert(devs[j] == prev[j]);
                assert(from_removable_mount(ms, ps, rs, platform, prev[j]));
                let m = choose|m: int|
                    0 <= m < ms.len() && rs[m] && ps[m].is_dir && #[trigger] mount_device(
                        ms[m].mount_path@,
                        ps[m],
                        platform,
                    ) == prev[j];
                assert(ms[m] == mounts[m] && ps[m] == probes[m] && rs[m] == removable[m]);
                assert(mount_device(mounts[m].mount_path@, probes[m], platform) == devs[j]);
            } else {
                assert(removable[k] && probes[k].is_dir);
                assert(mount_device(mounts[k].mount_path@, probes[k], platform) == devs[j]);
            }
        }
        assert forall|i: int|
            0 <= i < mounts.len() && removable[i] && probes[i].is_dir implies devs.contains(
            mount_device(#[trigger] mounts[i].mount_path@, probes[i], platform),
        ) by {
            if i < k {
                assert(ms[i] == mounts[i] && ps[i] == probes[i] && rs[i] == removable[i]);
                assert(prev.contains(mount_device(ms[i].mount_path@, ps[i], platform)));
                let j = choose|j: int| 0 <= j < prev.len() && prev[j] == mount_device(ms[i].mount_path@, ps[i], platform);
                assert(devs[j] == prev[j]);
            } else {
                assert(devs[devs.len() - 1] == mount_device(mounts[k].mount_path@, probes[k], platform));
            }
        }
        if forall|i: int| 0 <= i < mounts.len() ==> !#[trigger] removable[i] {
            assert forall|i: int| 0 <= i < ms.len() implies !#[trigger] rs[i] by {
                assert(rs[i] == removable[i]);
            }
            assert(!removable[k]);
        }
    }
}

/// The devices of the candidate mounts that can be browsed and sit on a
/// removable disk. `mount_probes[k]` is what the file system reported about
/// the k-th mount path, `removable[k]` whether its device is removable.
pub fn select_linux_mount_devices(
    candidates: &Vec<LinuxMount>,
    mount_probes: &Vec<PathProbe>,
    removable: &Vec<bool>,
    platform: Platform,
) -> (r: Vec<DeviceInfo>)
    requires
        mount_probes@.len() == candidates@.len(),
        removable@.len() == candidates@.len(),
    ensures
        r@.map_values(|d: DeviceInfo| d@) == linux_mount_devices(
            candidates@,
            mount_probes@,
            removable@,
            platform,
        ),
        forall|j: int|
            0 <= j < r@.len() ==> from_removable_mount(
                candidates@,
                mount_probes@,
                removable@,
                platform,
                #[trigger] r@[j]@,
            ),
{
    proof {
        lemma_only_removable_mounts_are_selected(candidates@, mount_probes@, removable@, platform);
    }
    let mut out: Vec<DeviceInfo> = Vec::new();
    let mut i: usize = 0;
    assert(candidates@.take(0) =~= Seq::<LinuxMount>::empty());
    while i < candidates.len()
        invariant
            i <= candidates@.len(),
            mount_probes@.len() == candidates@.len(),
            removable@.len() == candidates@.len(),
            out@.map_values(|d: DeviceInfo| d@) == linux_mount_devices(
                candidates@.take(i as int),
                mount_probes@.take(i as int),
                removable@.take(i as int),
                platform,
            ),
        decreases candidates@.len() - i,
    {
        let ghost cm = candidates@.take(i + 1);
        let ghost cp = mount_probes@.take(i + 1);
        let ghost cr = removable@.take(i + 1);
        assert(cm.drop_last() =~= candidates@.take(i as int));
        assert(cp.take(i as int) =~= mount_probes@.take(i as int));
        assert(cr.take(i as int) =~= removable@.take(i as int));
        let c = &candidates[i];
        if has_browsable_mount_point(&mount_probes[i]) && removable[i] {
            let raw = match file_name_chars(c.mount_path.as_str()) {
                Some(n) => chars_to_string(&n),
                None => String::new(),
            };
            let d = build_device_info(raw.as_str(), c.mount_path.clone(), &mount_probes[i], platform);
            let ghost before = out@;
            out.push(d);
            assert(out@.map_values(|d: DeviceInfo| d@) =~= before.map_values(|d: DeviceInfo| d@).push(d@));
        }
        i = i + 1;
    }
    assert(candidates@.take(candidates@.len() as int) =~= candidates@);
    assert(mount_probes@.take(candidates@.len() as int) =~= mount_probes@);
    assert(removable@.take(candidates@.len() as int) =~= removable@);
    proof {
        let devs = linux_mount_devices(candidates@, mount_probes@, removable@, platform);
        assert forall|j: int| 0 <= j < out@.len() implies from_removable_mount(
            candidates@,
            mount_probes@,
            removable@,
            platform,
            #[trigger] out@[j]@,
        ) by {
            assert(out@.map_values(|d: DeviceInfo| d@)[j] == out@[j]@);
            assert(out@[j]@ == devs[j]);
        }
    }
    out
}

// ---------------------------------------------------------------------------
// Merging the devices found
// ---------------------------------------------------------------------------
/// Devices ordered by id, no id twice.
pub open spec fn ids_ascending(ds: Seq<DeviceView>) -> bool {
    forall|i: int, j: int| 0 <= i < j < ds.len() ==> seq_lt(text_key(ds[i].id), text_key(ds[j].id))
}

/// The device with id `id` among `ds`, if any.
pub open spec fn device_with_id(ds: Seq<DeviceView>, id: Seq<char>) -> Option<DeviceView> {
    if exists|k: int| 0 <= k < ds.len() && #[trigger] ds[k].id == id {
        Some(ds[choose|k: int| 0 <= k < ds.len() && #[trigger] ds[k].id == id])
    } else {
        None
    }
}

/// Devices keyed by id, kept in id order (a map that a later insert of
/// the same id overwrites).
pub struct DeviceRegistry {
    devices: Vec<DeviceInfo>,
}

impl DeviceRegistry {
    pub closed spec fn entries(self) -> Seq<DeviceView> {
        self.devices@.map_values(|d: DeviceInfo| d@)
    }

    pub open spec fn wf(self) -> bool {
        ids_ascending(self.entries())
    }

    pub fn new() -> (r: Self)
        ensures
            r.wf(),
            r.entries().len() == 0,
    {
        DeviceRegistry { devices: Vec::new() }
    }

    /// Adds `device`, replacing the one with the same id if there is one.
    pub fn insert(&mut self, device: DeviceInfo)
        requires
            old(self).wf(),
        ensures
            final(self).wf(),
            device_with_id(final(self).entries(), device.id@) == Some(device@),
            forall|id: Seq<char>|
                id != device.id@ ==> device_with_id(final(self).entries(), id) == device_with_id(
                    old(self).entries(),
                    id,
                ),
    {
        let ghost old_entries = self.entries();
        let key = text_key_of(device.id.as_str());
        let n = self.devices.len();
        let mut j: usize = 0;
        while j < n && key_lt(&text_key_of(self.devices[j].id.as_str()), &key)
            invariant
                j <= n,
                n == self.devices@.len(),
                self.entries() == old_entries,
                key@ == text_key(device.id@),
                forall|k: int| 0 <= k < j ==> seq_lt(text_key(self.devices@[k].id@), key@),
            decreases n - j,
        {
            j = j + 1;
        }
        let ghost dv = device@;
        if j < n && str_eq(self.devices[j].id.as_str(), device.id.as_str()) {
            self.devices.set(j, device);
            proof {
                lemma_text_key_injective(old_entries[j as int].id, dv.id);
                assert(self.entries() =~= old_entries.update(j as int, dv));
                lemma_update_keeps_order(old_entries, j as int, dv);
                lemma_lookup_after_update(old_entries, j as int, dv);
            }
        } else {
            proof {
                if j < n {
                    let e = old_entries[j as int];
                    assert(!seq_lt(text_key(e.id), key@));
                    if e.id != dv.id {
                        lemma_text_key_injective_ne(e.id, dv.id);
                        lemma_seq_lt_total(text_key(e.id), key@);
                    }
                }
            }
            self.devices.insert(j, device);
            proof {
                assert(self.entries() =~= old_entries.insert(j as int, dv));
                lemma_insert_keeps_order(old_entries, j as int, dv);
                lemma_lookup_after_insert(old_entries, j as int, dv);
            }
        }
    }

    /// The devices, in id order.
    pub fn into_values(self) -> (r: Vec<DeviceInfo>)
        ensures
            r@.map_values(|d: DeviceInfo| d@) == self.entries(),
    {
        self.devices
    }
}

proof fn lemma_text_key_injective(a: Seq<char>, b: Seq<char>)
    requires
        a == b,
    ensures
        text_key(a) == text_key(b),
{
}

proof fn lemma_char_key_injective(c: char, d: char)
    requires
        ((c as u32) as u64) == ((d as u32) as u64),
    ensures
        c == d,
{
}

proof fn lemma_text_key_injective_ne(a: Seq<char>, b: Seq<char>)
    requires
        a != b,
    ensures
        text_key(a) != text_key(b),
{
    if text_key(a) == text_key(b) {
        assert(text_key(a).len() == a.len());
        assert forall|k: int| 0 <= k < a.len() implies a[k] == b[k] by {
            assert(text_key(a)[k] == text_key(b)[k]);
            lemma_char_key_injective(a[k], b[k]);
        }
        assert(a =~= b);
    }
}

proof fn lemma_update_keeps_order(ds: Seq<DeviceView>, j: int, d: DeviceView)
    requires
        ids_ascending(ds),
        0 <= j < ds.len(),
        ds[j].id == d.id,
    ensures
        ids_ascending(ds.update(j, d)),
{
    let u = ds.update(j, d);
    assert forall|a: int, b: int| 0 <= a < b < u.len() implies seq_lt(text_key(u[a].id), text_key(u[b].id)) by {
        assert(u[a].id == ds[a].id);
        assert(u[b].id == ds[b].id);
    }
}

proof fn lemma_lookup_unique(ds: Seq<DeviceView>, k: int)
    requires
        ids_ascending(ds),
        0 <= k < ds.len(),
    ensures
        device_with_id(ds, ds[k].id) == Some(ds[k]),
{
    let id = ds[k].id;
    assert(0 <= k < ds.len() && ds[k].id == id);
    let c = choose|c: int| 0 <= c < ds.len() && #[trigger] ds[c].id == id;
    if c != k {
        if c < k {
            assert(seq_lt(text_key(ds[c].id), text_key(ds[k].id)));
        } else {
            assert(seq_lt(text_key(ds[k].id), text_key(ds[c].id)));
        }
        lemma_seq_lt_irreflexive(text_key(id));
    }
}

proof fn lemma_lookup_after_update(ds: Seq<DeviceView>, j: int, d: DeviceView)
    requires
        ids_ascending(ds),
        0 <= j < ds.len(),
        ds[j].id == d.id,
    ensures
        device_with_id(ds.update(j, d), d.id) == Some(d),
        forall|id: Seq<char>|
            id != d.id ==> device_with_id(ds.update(j, d), id) == device_with_id(ds, id),
{
    let u = ds.update(j, d);
    lemma_update_keeps_order(ds, j, d);
    lemma_lookup_unique(u, j);
    assert forall|id: Seq<char>| id != d.id implies device_with_id(u, id) == device_with_id(ds, id) by {
        if exists|k: int| 0 <= k < ds.len() && #[trigger] ds[k].id == id {
            let k = choose|k: int| 0 <= k < ds.len() && #[trigger] ds[k].id == id;
            assert(k != j);
            assert(u[k] == ds[k]);
            lemma_lookup_unique(ds, k);
            lemma_lookup_unique(u, k);
        } else {
            assert forall|k: int| 0 <= k < u.len() implies #[trigger] u[k].id != id by {
                if k != j {
                    assert(u[k] == ds[k]);
                }
            }
        }
    }
}

proof fn lemma_insert_keeps_order(ds: Seq<DeviceView>, j: int, d: DeviceView)
    requires
        ids_ascending(ds),
        0 <= j <= ds.len(),
        forall|k: int| 0 <= k < j ==> seq_lt(text_key(ds[k].id), text_key(d.id)),
        j < ds.len() ==> seq_lt(text_key(d.id), text_key(ds[j].id)),
    ensures
        ids_ascending(ds.insert(j, d)),
{
    let u = ds.insert(j, d);
    assert forall|a: int, b: int| 0 <= a < b < u.len() implies seq_lt(text_key(u[a].id), text_key(u[b].id)) by {
        if b < j {
            assert(u[a] == ds[a] && u[b] == ds[b]);
        } else if b == j {
            assert(u[a] == ds[a]);
        } else if a < j {
            assert(u[a] == ds[a] && u[b] == ds[b - 1]);
            lemma_seq_lt_transitive(text_key(ds[a].id), text_key(d.id), text_key(ds[j].id));
            if b - 1 > j {
                lemma_seq_lt_transitive(text_key(ds[a].id), text_key(ds[j].id), text_key(ds[b - 1].id));
            }
        } else if a == j {
            assert(u[b] == ds[b - 1]);
            if b - 1 > j {
                lemma_seq_lt_transitive(text_key(d.id), text_key(ds[j].id), text_key(ds[b - 1].id));
            }
        } else {
            assert(u[a] == ds[a - 1] && u[b] == ds[b - 1]);
        }
    }
}

proof fn lemma_lookup_after_insert(ds: Seq<DeviceView>, j: int, d: DeviceView)
    requires
        ids_ascending(ds.insert(j, d)),
        0 <= j <= ds.len(),
    ensures
        device_with_id(ds.insert(j, d), d.id) == Some(d),
        forall|id: Seq<char>|
            id != d.id ==> device_with_id(ds.insert(j, d), id) == device_with_id(ds, id),
{
    let u = ds.insert(j, d);
    lemma_lookup_unique(u, j);
    assert forall|id: Seq<char>| id != d.id implies device_with_id(u, id) == device_with_id(ds, id) by {
        if exists|k: int| 0 <= k < ds.len() && #[trigger] ds[k].id == id {
            let k = choose|k: int| 0 <= k < ds.len() && #[trigger] ds[k].id == id;
            let ku = if k < j { k } else { k + 1 };
            assert(u[ku] == ds[k]);
            lemma_lookup_unique(u, ku);
            assert forall|a: int, b: int| 0 <= a < b < ds.len() implies seq_lt(text_key(ds[a].id), text_key(ds[b].id)) by {
                let ua = if a < j { a } else { a + 1 };
                let ub = if b < j { b } else { b + 1 };
                assert(u[ua] == ds[a] && u[ub] == ds[b]);
            }
            lemma_lookup_unique(ds, k);
        } else {
            assert forall|k: int| 0 <= k < u.len() implies #[trigger] u[k].id != id by {
                if k < j {
                    assert(u[k] == ds[k]);
                } else if k > j {
                    assert(u[k] == ds[k - 1]);
                }
            }
        }
    }
}

/// No device after position `k` of `found` shares its id.
pub open spec fn last_of_its_id(found: Seq<DeviceInfo>, k: int, upto: int) -> bool {
    forall|m: int| k < m < upto ==> #[trigger] found[m].id@ != found[k].id@
}

/// `d` is a device of the first `upto` of `found` that no later one among
/// them replaces (none after it has its id).
pub open spec fn stands_among(found: Seq<DeviceInfo>, upto: int, d: DeviceView) -> bool {
    exists|k: int| 0 <= k < upto && last_of_its_id(found, k, upto) && #[trigger] found[k]@ == d
}

/// The devices of `found`, one per id, in id order; of devices that share
/// an id the last one found stands.
pub fn collect_devices(found: &Vec<DeviceInfo>) -> (r: Vec<DeviceInfo>)
    ensures
        ids_ascending(r@.map_values(|d: DeviceInfo| d@)),
        forall|j: int|
            0 <= j < r@.len() ==> stands_among(found@, found@.len() as int, #[trigger] r@[j]@),
        forall|k: int|
            0 <= k < found@.len() && last_of_its_id(found@, k, found@.len() as int) ==> device_with_id(
                r@.map_values(|d: DeviceInfo| d@),
                #[trigger] found@[k].id@,
            ) == Some(found@[k]@),
        forall|k: int|
            0 <= k < found@.len() ==> device_with_id(
                r@.map_values(|d: DeviceInfo| d@),
                #[trigger] found@[k].id@,
            ) is Some,
{
    let mut registry = DeviceRegistry::new();
    let mut i: usize = 0;
    while i < found.len()
        invariant
            i <= found@.len(),
            registry.wf(),
            forall|k: int|
                0 <= k < i && last_of_its_id(found@, k, i as int) ==> device_with_id(
                    registry.entries(),
                    #[trigger] found@[k].id@,
                ) == Some(found@[k]@),
            forall|k: int|
                0 <= k < i ==> device_with_id(registry.entries(), #[trigger] found@[k].id@) is Some,
            forall|p: int|
                0 <= p < registry.entries().len() ==> stands_among(
                    found@,
                    i as int,
                    #[trigger] registry.entries()[p],
                ),
        decreases found@.len() - i,
    {
        let ghost before = registry.entries();
        registry.insert(found[i].duplicate());
        proof {
            let after = registry.entries();
            let fi = found@[i as int];
            assert forall|p: int| 0 <= p < after.len() implies stands_among(
                found@,
                i + 1,
                #[trigger] after[p],
            ) by {
                let e = after[p];
                lemma_lookup_unique(after, p);
                if e.id == fi.id@ {
                    assert(found@[i as int]@ == e);
                    assert(last_of_its_id(found@, i as int, i + 1));
                } else {
                    assert(device_with_id(before, e.id) == Some(e));
                    let p0 = choose|c: int| 0 <= c < before.len() && #[trigger] before[c].id == e.id;
                    assert(before[p0] == e);
                    assert(stands_among(found@, i as int, before[p0]));
                    let k = choose|k: int|
                        0 <= k < i && last_of_its_id(found@, k, i as int) && #[trigger] found@[k]@
                            == before[p0];
                    assert(found@[k].id@ == e.id);
                    assert(last_of_its_id(found@, k, i + 1));
                    assert(found@[k]@ == e);
                }
            }
            assert forall|k: int|
                0 <= k < i + 1 && last_of_its_id(found@, k, i + 1) implies device_with_id(
                registry.entries(),
                #[trigger] found@[k].id@,
            ) == Some(found@[k]@) by {
                if k < i {
                    assert(found@[i as int].id@ != found@[k].id@);
                    assert(last_of_its_id(found@, k, i as int));
                }
            }
            assert forall|k: int| 0 <= k < i + 1 implies device_with_id(
                registry.entries(),
                #[trigger] found@[k].id@,
            ) is Some by {
                if k < i && found@[k].id@ != found@[i as int].id@ {
                    assert(device_with_id(before, found@[k].id@) is Some);
                }
            }
        }
        i = i + 1;
    }
    let r = registry.into_values();
    proof {
        assert forall|k: int| 0 <= k < found@.len() && last_of_its_id(found@, k, found@.len() as int)
            implies device_with_id(r@.map_values(|d: DeviceInfo| d@), #[trigger] found@[k].id@)
            == Some(found@[k]@) by {}
        assert forall|j: int| 0 <= j < r@.len() implies stands_among(
            found@,
            found@.len() as int,
            #[trigger] r@[j]@,
        ) by {
            assert(r@.map_values(|d: DeviceInfo| d@)[j] == r@[j]@);
        }
    }
    r
}


/// Whether the contents of a block device's `removable` attribute mark it
/// removable: `1`, white space aside.
pub fn removable_flag(contents: &str) -> (r: bool)
    ensures
        r == (crate::text::trim_ws(contents@) == seq!['1']),
{
    let v = crate::text::str_to_chars(contents);
    let (a, b) = crate::text::trim_bounds(&v, false);
    if b - a == 1 && v[a] == '1' {
        assert(v@.subrange(a as int, b as int) =~= seq!['1']);
        true
    } else {
        proof {
            if crate::text::trim_ws(contents@) == seq!['1'] {
                let t = v@.subrange(a as int, b as int);
                assert(t.len() == 1);
                assert(t[0] == v@[a as int]);
                assert(t[0] == '1');
            }
        }
        false
    }
}


/// Devices ordered by display name, as strings compare.
pub open spec fn sorted_by_name(ds: Seq<DeviceView>) -> bool {
    forall|i: int, j: int|
        0 <= i < j < ds.len() ==> !seq_lt(text_key(ds[j].display_name), text_key(ds[i].display_name))
}

/// `a` holds the devices of `b`, each once, in the order of `pos`.
pub open spec fn devices_arranged(a: Seq<DeviceView>, b: Seq<DeviceView>, pos: Seq<usize>) -> bool {
    &&& pos.len() == a.len()
    &&& a.len() == b.len()
    &&& pos.no_duplicates()
    &&& forall|k: int| 0 <= k < pos.len() ==> pos[k] < b.len() && a[k] == b[pos[k] as int]
}

/// The models of a sequence of devices.
pub open spec fn device_views(ds: Seq<DeviceInfo>) -> Seq<DeviceView> {
    ds.map_values(|d: DeviceInfo| d@)
}

/// `a` holds the devices of `b`, each once, in some order.
pub open spec fn is_device_arrangement(a: Seq<DeviceView>, b: Seq<DeviceView>) -> bool {
    exists|pos: Seq<usize>| #[trigger] devices_arranged(a, b, pos)
}

/// The devices of `devices`, each once, ordered by display name.
pub fn sort_by_display_name(devices: &Vec<DeviceInfo>) -> (r: Vec<DeviceInfo>)
    ensures
        sorted_by_name(device_views(r@)),
        is_device_arrangement(device_views(r@), device_views(devices@)),
{
    let ghost dv = device_views(devices@);
    let mut keys: Vec<Vec<u64>> = Vec::new();
    let mut k: usize = 0;
    while k < devices.len()
        invariant
            k <= devices@.len(),
            keys@.len() == k,
            forall|j: int| 0 <= j < k ==> (#[trigger] keys@[j])@ == text_key(devices@[j].display_name@),
        decreases devices@.len() - k,
    {
        keys.push(text_key_of(devices[k].display_name.as_str()));
        k = k + 1;
    }
    let pos = sorted_positions(&keys);
    let mut out: Vec<DeviceInfo> = Vec::new();
    let mut m: usize = 0;
    while m < pos.len()
        invariant
            m <= pos@.len(),
            pos@.len() == devices@.len(),
            keys@.len() == devices@.len(),
            forall|j: int| 0 <= j < pos@.len() ==> pos@[j] < devices@.len(),
            out@.len() == m,
            forall|j: int| 0 <= j < m ==> (#[trigger] out@[j])@ == devices@[pos@[j] as int]@,
        decreases pos@.len() - m,
    {
        out.push(devices[pos[m]].duplicate());
        m = m + 1;
    }
    proof {
        let ov = device_views(out@);
        assert(devices_arranged(ov, dv, pos@));
        assert forall|i: int, j: int| 0 <= i < j < ov.len() implies !seq_lt(
            text_key(ov[j].display_name),
            text_key(ov[i].display_name),
        ) by {
            assert(keys@[pos@[j] as int]@ == text_key(devices@[pos@[j] as int].display_name@));
            assert(keys@[pos@[i] as int]@ == text_key(devices@[pos@[i] as int].display_name@));
            assert(ov[i] == out@[i]@);
            assert(ov[j] == out@[j]@);
            assert(!seq_lt(keys@[pos@[j] as int]@, keys@[pos@[i] as int]@));
        }
    }
    out
}

} // verus!
