//! Which files of a source folder are media, the copy plan, and the
//! bookkeeping of a copy run: what to copy next and what was copied.
use vstd::prelude::*;
use crate::archive::{join_path, spec_join_path};
use crate::errors::{ErrorView, SortedError};
use crate::paths::{
    ascii_lower, ascii_lower_chars, extension_chars, file_name_chars, path_key, path_key_of,
    seq_lt, sorted_positions, spec_extension, spec_file_name,
};
use crate::text::{str_eq, str_starts_with, chars_to_string, str_to_chars, string_from};
use crate::types::{ArchivePlan, CopyPlan, DeviceInfo, MediaFile, MediaView, PathProbe};

verus! {

/// One entry of a walk over a source folder: its path, whether it is a
/// regular file, and its size in bytes (0 where it was not read).
#[derive(Debug, Clone, PartialEq, Eq)]
pub struct WalkEntry {
    pub path: String,
    pub is_file: bool,
    pub size_bytes: u64,
}

/// The extensions, in lower case, of the files that are imported.
pub open spec fn media_extension(e: Seq<char>) -> bool {
    e == "jpg"@ || e == "jpeg"@ || e == "png"@ || e == "gif"@ || e == "bmp"@ || e == "tif"@ || e
        == "tiff"@ || e == "heic"@ || e == "raw"@ || e == "cr2"@ || e == "cr3"@ || e == "nef"@
        || e == "arw"@ || e == "dng"@ || e == "raf"@ || e == "mp4"@ || e == "mov"@ || e
        == "avi"@ || e == "mkv"@ || e == "mts"@ || e == "m2ts"@
}

/// Whether the file at `path` is a media file: its extension, in lower
/// case, is a media extension.
pub open spec fn is_media_path(path: Seq<char>) -> bool {
    match spec_file_name(path) {
        None => false,
        Some(name) => match spec_extension(name) {
            None => false,
            Some(e) => media_extension(ascii_lower(e)),
        },
    }
}

/// `Path::strip_prefix(root)` for a path that was built by joining names
/// onto `root`: what follows `root` and the separator after it.
pub open spec fn relative_to(root: Seq<char>, path: Seq<char>) -> Option<Seq<char>> {
    if root.len() <= path.len() && path.take(root.len() as int) == root {
        let rest = path.skip(root.len() as int);
        if rest.len() == 0 {
            Some(rest)
        } else if rest[0] == '/' {
            Some(rest.drop_first())
        } else if root.len() > 0 && root.last() == '/' {
            Some(rest)
        } else {
            None
        }
    } else {
        None
    }
}

/// Whether a walk entry is imported.
pub open spec fn selected(e: WalkEntry) -> bool {
    e.is_file && is_media_path(e.path@)
}

/// The media files of a walk, in walk order.
pub open spec fn media_entries(root: Seq<char>, es: Seq<WalkEntry>) -> Seq<MediaView>
    decreases es.len(),
{
    if es.len() == 0 {
        Seq::empty()
    } else {
        let prev = media_entries(root, es.drop_last());
        let e = es.last();
        if selected(e) {
            prev.push(
                MediaView {
                    source_path: e.path@,
                    relative_path: relative_to(root, e.path@)->Some_0,
                    size_bytes: e.size_bytes,
                },
            )
        } else {
            prev
        }
    }
}

/// The first media file of a walk that does not lie under `root`, if any.
pub open spec fn first_outside(root: Seq<char>, es: Seq<WalkEntry>) -> Option<Seq<char>>
    decreases es.len(),
{
    if es.len() == 0 {
        None
    } else if first_outside(root, es.drop_last()) is Some {
        first_outside(root, es.drop_last())
    } else if selected(es.last()) && relative_to(root, es.last().path@) is None {
        Some(es.last().path@)
    } else {
        None
    }
}

/// Once a prefix of a walk holds a media file outside `root`, the walk's
/// first such file is that prefix's.
pub proof fn lemma_first_outside_prefix(root: Seq<char>, es: Seq<WalkEntry>, k: int)
    requires
        0 <= k <= es.len(),
        first_outside(root, es.take(k)) is Some,
    ensures
        first_outside(root, es) == first_outside(root, es.take(k)),
    decreases es.len() - k,
{
    if k == es.len() {
        assert(es.take(k) =~= es);
    } else {
        let d = es.drop_last();
        assert(d.take(k) =~= es.take(k));
        lemma_first_outside_prefix(root, d, k);
    }
}

/// The models of a sequence of media files.
pub open spec fn media_views(files: Seq<MediaFile>) -> Seq<MediaView> {
    files.map_values(|f: MediaFile| f@)
}

/// `a` holds the elements of `b`, each once, in the order of `pos`.
pub open spec fn arranged(a: Seq<MediaView>, b: Seq<MediaView>, pos: Seq<usize>) -> bool {
    &&& pos.len() == a.len()
    &&& a.len() == b.len()
    &&& pos.no_duplicates()
    &&& forall|k: int| 0 <= k < pos.len() ==> pos[k] < b.len() && a[k] == b[pos[k] as int]
}

/// `a` holds the elements of `b`, each once, in some order.
pub open spec fn is_arrangement(a: Seq<MediaView>, b: Seq<MediaView>) -> bool {
    exists|pos: Seq<usize>| #[trigger] arranged(a, b, pos)
}

/// Media files ordered by relative path as `Path` orders them.
pub open spec fn sorted_by_relative_path(a: Seq<MediaView>) -> bool {
    forall|i: int, j: int|
        0 <= i < j < a.len() ==> !seq_lt(path_key(a[j].relative_path), path_key(a[i].relative_path))
}

pub fn is_media_extension(e: &str) -> (r: bool)
    ensures
        r == media_extension(e@),
{
    str_eq(e, "jpg") || str_eq(e, "jpeg") || str_eq(e, "png") || str_eq(e, "gif") || str_eq(
        e,
        "bmp",
    ) || str_eq(e, "tif") || str_eq(e, "tiff") || str_eq(e, "heic") || str_eq(e, "raw")
        || str_eq(e, "cr2") || str_eq(e, "cr3") || str_eq(e, "nef") || str_eq(e, "arw") || str_eq(
        e,
        "dng",
    ) || str_eq(e, "raf") || str_eq(e, "mp4") || str_eq(e, "mov") || str_eq(e, "avi")
        || str_eq(e, "mkv") || str_eq(e, "mts") || str_eq(e, "m2ts")
}

/// Whether the file at `path` is imported, judged by its extension.
pub fn is_media_file_path(path: &str) -> (r: bool)
    ensures
        r == is_media_path(path@),
{
    match file_name_chars(path) {
        None => false,
        Some(name) => match extension_chars(&name) {
            None => false,
            Some(e) => {
                let lower = ascii_lower_chars(&e);
                let s = chars_to_string(&lower);
                is_media_extension(s.as_str())
            },
        },
    }
}

/// `path` relative to `root` (see `relative_to`).
pub fn relative_path(root: &str, path: &str) -> (r: Option<String>)
    ensures
        r is Some == relative_to(root@, path@) is Some,
        r matches Some(p) ==> p@ == relative_to(root@, path@)->Some_0,
{
    if !str_starts_with(path, root) {
        return None;
    }
    let rv = str_to_chars(root);
    let pv = str_to_chars(path);
    let start = rv.len();
    let ghost rest = path@.skip(root@.len() as int);
    if start == pv.len() {
        assert(rest =~= Seq::<char>::empty());
        return Some(String::new());
    }
    assert(rest[0] == pv@[start as int]);
    let from = if pv[start] == '/' {
        start + 1
    } else if start > 0 && rv[start - 1] == '/' {
        start
    } else {
        return None;
    };
    let mut out = String::new();
    let mut i = from;
    while i < pv.len()
        invariant
            from <= i <= pv@.len(),
            out@ == pv@.subrange(from as int, i as int),
        decreases pv@.len() - i,
    {
        crate::text::push_char(&mut out, pv[i]);
        assert(pv@.subrange(from as int, i + 1) =~= pv@.subrange(from as int, i as int).push(
            pv@[i as int],
        ));
        i = i + 1;
    }
    proof {
        if pv@[start as int] == '/' {
            assert(rest.drop_first() =~= pv@.subrange(from as int, pv@.len() as int));
        } else {
            assert(rest =~= pv@.subrange(from as int, pv@.len() as int));
        }
    }
    Some(out)
}

/// The media files that a walk of the source folder `root` found, ordered
/// by relative path. `root_probe` is what the file system reported about
/// `root`; `entries` is the walk, the root itself included.
pub fn discover_media_files(root: &str, root_probe: &PathProbe, entries: &Vec<WalkEntry>) -> (r:
    Result<Vec<MediaFile>, SortedError>)
    ensures
        !root_probe.exists ==> (r matches Err(e) && e@ == ErrorView::SourceRootMissing(root@)),
        root_probe.exists && first_outside(root@, entries@) is Some ==> (r matches Err(e) && e@
            == ErrorView::NotUnderRoot(first_outside(root@, entries@)->Some_0)),
        root_probe.exists && first_outside(root@, entries@) is None ==> r is Ok,
        r matches Ok(files) ==> sorted_by_relative_path(media_views(files@)),
        r matches Ok(files) ==> is_arrangement(media_views(files@), media_entries(root@, entries@)),
{
    if !root_probe.exists {
        return Err(SortedError::SourceRootMissing(string_from(root)));
    }
    let mut found: Vec<MediaFile> = Vec::new();
    let mut i: usize = 0;
    assert(entries@.take(0) =~= Seq::<WalkEntry>::empty());
    while i < entries.len()
        invariant
            i <= entries@.len(),
            root_probe.exists,
            first_outside(root@, entries@.take(i as int)) is None,
            media_views(found@) == media_entries(root@, entries@.take(i as int)),
        decreases entries@.len() - i,
    {
        let e = &entries[i];
        let ghost cur = entries@.take(i + 1);
        assert(cur.drop_last() =~= entries@.take(i as int));
        assert(cur.last() == *e);
        if e.is_file && is_media_file_path(e.path.as_str()) {
            match relative_path(root, e.path.as_str()) {
                None => {
                    proof {
                        assert(first_outside(root@, cur) == Some(e.path@));
                        lemma_first_outside_prefix(root@, entries@, i + 1);
                    }
                    return Err(SortedError::NotUnderRoot(e.path.clone()));
                },
                Some(rel) => {
                    let ghost before = found@;
                    found.push(
                        MediaFile {
                            source_path: e.path.clone(),
                            relative_path: rel,
                            size_bytes: e.size_bytes,
                        },
                    );
                    assert(media_views(found@) =~= media_views(before).push(found@.last()@));
                },
            }
        }
        i = i + 1;
    }
    assert(entries@.take(entries@.len() as int) =~= entries@);
    let ghost media = media_views(found@);
    let mut keys: Vec<Vec<u64>> = Vec::new();
    let mut k: usize = 0;
    while k < found.len()
        invariant
            k <= found@.len(),
            keys@.len() == k,
            forall|j: int| 0 <= j < k ==> (#[trigger] keys@[j])@ == path_key(found@[j].relative_path@),
        decreases found@.len() - k,
    {
        keys.push(path_key_of(found[k].relative_path.as_str()));
        k = k + 1;
    }
    let pos = sorted_positions(&keys);
    let mut files: Vec<MediaFile> = Vec::new();
    let mut m: usize = 0;
    while m < pos.len()
        invariant
            m <= pos@.len(),
            pos@.len() == found@.len(),
            keys@.len() == found@.len(),
            forall|j: int| 0 <= j < pos@.len() ==> pos@[j] < found@.len(),
            files@.len() == m,
            forall|j: int| 0 <= j < m ==> (#[trigger] files@[j])@ == found@[pos@[j] as int]@,
        decreases pos@.len() - m,
    {
        files.push(found[pos[m]].duplicate());
        m = m + 1;
    }
    proof {
        let fv = media_views(files@);
        assert(arranged(fv, media, pos@));
        assert(media == media_entries(root@, entries@));
        assert(arranged(media_views(files@), media_entries(root@, entries@), pos@));
        assert(first_outside(root@, entries@) is None);
        assert forall|i: int, j: int| 0 <= i < j < fv.len() implies !seq_lt(
            path_key(fv[j].relative_path),
            path_key(fv[i].relative_path),
        ) by {
            assert(keys@[pos@[j] as int]@ == path_key(found@[pos@[j] as int].relative_path@));
            assert(keys@[pos@[i] as int]@ == path_key(found@[pos@[i] as int].relative_path@));
            assert(fv[i] == files@[i]@);
            assert(fv[j] == files@[j]@);
            assert(files@[i]@ == found@[pos@[i] as int]@);
            assert(files@[j]@ == found@[pos@[j] as int]@);
            assert(!seq_lt(keys@[pos@[j] as int]@, keys@[pos@[i] as int]@));
        }
        assert(sorted_by_relative_path(media_views(files@)));
        assert(is_arrangement(media_views(files@), media_entries(root@, entries@)));
    }
    Ok(files)
}

/// Whether the archive folder exists already, its file system state being
/// `probe`.
pub fn archive_destination_exists(probe: &PathProbe) -> (r: bool)
    ensures
        r == probe.exists,
{
    probe.exists
}

/// Refuses an archive folder that already exists.
pub fn validate_archive_destination_available(archive_root: &str, exists: bool) -> (r: Result<
    (),
    SortedError,
>)
    ensures
        exists ==> (r matches Err(e) && e@ == ErrorView::ArchiveDestinationExists(archive_root@)),
        !exists ==> r is Ok,
{
    if exists {
        return Err(SortedError::ArchiveDestinationExists(string_from(archive_root)));
    }
    Ok(())
}

/// The copy plan for `device`'s folder `source_root` into `archive_plan`'s
/// folder. `archive_root_exists` is whether that folder is already on disk;
/// `discovered` is what discovering the media files of `source_root` gave.
pub fn plan_copy(
    device: &DeviceInfo,
    source_root: &str,
    archive_plan: ArchivePlan,
    archive_root_exists: bool,
    discovered: Result<Vec<MediaFile>, SortedError>,
) -> (r: Result<CopyPlan, SortedError>)
    ensures
        archive_root_exists ==> (r matches Err(e) && e@ == ErrorView::ArchiveDestinationExists(
            archive_plan.archive_root@,
        )),
        !archive_root_exists ==> match discovered {
            Err(d) => r matches Err(e) && e@ == d@,
            Ok(files) => r matches Ok(plan) && plan.source_device@ == device@
                && plan.source_root@ == source_root@ && plan.archive_plan == archive_plan
                && plan.files == files,
        },
{
    match validate_archive_destination_available(archive_plan.archive_root.as_str(), archive_root_exists) {
        Ok(()) => {},
        Err(e) => return Err(e),
    }
    match discovered {
        Err(e) => Err(e),
        Ok(files) => Ok(
            CopyPlan {
                source_device: device.duplicate(),
                source_root: string_from(source_root),
                archive_plan,
                files,
            },
        ),
    }
}

// ---------------------------------------------------------------------------
// A copy run
// ---------------------------------------------------------------------------
/// Progress reported after each copied file.
#[derive(Debug, Clone, PartialEq, Eq)]
pub struct CopyProgress {
    pub copied_files: usize,
    pub total_files: usize,
    pub current_file: Option<String>,
}

/// A file that could not be copied, and why.
#[derive(Debug, Clone, PartialEq, Eq)]
pub struct CopyFailure {
    pub file: String,
    pub error: String,
}

/// How a copy run ended.
#[derive(Debug, Clone, PartialEq, Eq)]
pub struct CopySummary {
    pub destination: String,
    pub copied_files: usize,
    pub failures: Vec<CopyFailure>,
    pub was_cancelled: bool,
}

/// What a copy run does next.
pub enum CopyStep {
    /// Copy `source` to `destination`.
    Copy { source: String, destination: String },
    /// Stop; `cancelled` tells whether files were left.
    Finish { cancelled: bool },
}

/// Where a copy run stands: how many files of the plan were handled, how
/// many of those were copied, and which failed; and the outcome of each
/// handled file in turn (`None` when it was copied, the error when not).
pub struct CopyRun {
    handled: usize,
    copied_files: usize,
    failures: Vec<CopyFailure>,
    outcomes: Ghost<Seq<Option<Seq<char>>>>,
}

/// How many of a run's outcomes are copies.
pub open spec fn copied_count(outcomes: Seq<Option<Seq<char>>>) -> nat
    decreases outcomes.len(),
{
    if outcomes.len() == 0 {
        0
    } else {
        copied_count(outcomes.drop_last()) + if outcomes.last() is None {
            1nat
        } else {
            0nat
        }
    }
}

/// The failures of a run whose `k`-th outcome is that of the plan's `k`-th
/// file, in plan order: each failed file's source path and its error.
pub open spec fn failures_of(plan: CopyPlan, outcomes: Seq<Option<Seq<char>>>) -> Seq<
    (Seq<char>, Seq<char>),
>
    decreases outcomes.len(),
{
    if outcomes.len() == 0 {
        Seq::empty()
    } else {
        let rest = failures_of(plan, outcomes.drop_last());
        match outcomes.last() {
            Some(error) => rest.push((plan.files@[outcomes.len() - 1].source_path@, error)),
            None => rest,
        }
    }
}

/// Failures as (file, error) pairs.
pub open spec fn failure_views(failures: Seq<CopyFailure>) -> Seq<(Seq<char>, Seq<char>)> {
    failures.map_values(|f: CopyFailure| (f.file@, f.error@))
}

/// Over a whole run, every handled file is counted once: as copied or as
/// failed. Each copy adds one to the count of copied files (so the progress
/// reports after successive copies count 1, 2, 3, ...) and a failure adds
/// none, while the failures keep plan order, a new one going last.
pub proof fn lemma_run_accounts_for_every_file(
    plan: CopyPlan,
    outcomes: Seq<Option<Seq<char>>>,
    error: Seq<char>,
)
    requires
        outcomes.len() < plan.files@.len(),
    ensures
        copied_count(outcomes) + failures_of(plan, outcomes).len() == outcomes.len(),
        copied_count(outcomes.push(None)) == copied_count(outcomes) + 1,
        copied_count(outcomes.push(Some(error))) == copied_count(outcomes),
        failures_of(plan, outcomes.push(None)) == failures_of(plan, outcomes),
        failures_of(plan, outcomes.push(Some(error))) == failures_of(plan, outcomes).push(
            (plan.files@[outcomes.len() as int].source_path@, error),
        ),
    decreases outcomes.len(),
{
    assert(outcomes.push(None).drop_last() =~= outcomes);
    assert(outcomes.push(Some(error)).drop_last() =~= outcomes);
    if outcomes.len() > 0 {
        lemma_run_accounts_for_every_file(plan, outcomes.drop_last(), error);
    }
}

/// Where a planned file is copied to.
pub open spec fn destination_of(plan: CopyPlan, k: int) -> Seq<char> {
    spec_join_path(plan.archive_plan.archive_root@, plan.files@[k].relative_path@)
}

impl CopyRun {
    /// Every handled file was either copied or recorded as failed, and has
    /// its outcome.
    pub closed spec fn wf(self) -> bool {
        &&& self.copied_files + self.failures@.len() == self.handled
        &&& self.outcomes@.len() == self.handled
        &&& copied_count(self.outcomes@) == self.copied_files
    }

    /// The outcome of each handled file, in turn.
    pub closed spec fn outcomes(self) -> Seq<Option<Seq<char>>> {
        self.outcomes@
    }

    /// The failures recorded are those of the outcomes, for the files of `plan`.
    pub open spec fn follows(self, plan: CopyPlan) -> bool {
        failure_views(self.failures()) == failures_of(plan, self.outcomes())
    }

    pub closed spec fn handled(self) -> nat {
        self.handled as nat
    }

    pub closed spec fn copied(self) -> nat {
        self.copied_files as nat
    }

    pub closed spec fn failures(self) -> Seq<CopyFailure> {
        self.failures@
    }

    pub fn start() -> (r: Self)
        ensures
            r.wf(),
            r.handled() == 0,
            r.copied() == 0,
            r.failures().len() == 0,
            r.outcomes() == Seq::<Option<Seq<char>>>::empty(),
            forall|plan: CopyPlan| #[trigger] r.follows(plan),
    {
        let r = CopyRun { handled: 0, copied_files: 0, failures: Vec::new(), outcomes: Ghost(Seq::empty()) };
        assert forall|plan: CopyPlan| #[trigger] r.follows(plan) by {
            assert(failure_views(r.failures()) =~= failures_of(plan, r.outcomes()));
        }
        r
    }

    /// How many files of the plan were handled so far.
    pub fn handled_files(&self) -> (r: usize)
        ensures
            r == self.handled(),
    {
        self.handled
    }

    /// The next step: finish when every file was handled; otherwise stop as
    /// cancelled when a cancel was requested, or copy the next file.
    pub fn next_step(&self, plan: &CopyPlan, cancel_requested: bool) -> (r: CopyStep)
        requires
            self.handled() <= plan.files@.len(),
        ensures
            self.handled() == plan.files@.len() ==> (r matches CopyStep::Finish { cancelled }
                && !cancelled),
            self.handled() < plan.files@.len() && cancel_requested ==> (r matches CopyStep::Finish {
                cancelled,
            } && cancelled),
            self.handled() < plan.files@.len() && !cancel_requested ==> (r matches CopyStep::Copy {
                source,
                destination,
            } && source@ == plan.files@[self.handled() as int].source_path@ && destination@
                == destination_of(*plan, self.handled() as int)),
    {
        if self.handled >= plan.files.len() {
            return CopyStep::Finish { cancelled: false };
        }
        if cancel_requested {
            return CopyStep::Finish { cancelled: true };
        }
        let file = &plan.files[self.handled];
        CopyStep::Copy {
            source: file.source_path.clone(),
            destination: join_path(
                plan.archive_plan.archive_root.as_str(),
                file.relative_path.as_str(),
            ),
        }
    }

    /// Records that the next file was copied, and reports progress.
    pub fn record_copied(&mut self, plan: &CopyPlan) -> (progress: CopyProgress)
        requires
            old(self).wf(),
            old(self).follows(*plan),
            old(self).handled() < plan.files@.len(),
        ensures
            final(self).wf(),
            final(self).follows(*plan),
            final(self).outcomes() == old(self).outcomes().push(None),
            progress.copied_files == copied_count(final(self).outcomes()),
            final(self).handled() == old(self).handled() + 1,
            final(self).copied() == old(self).copied() + 1,
            final(self).failures() == old(self).failures(),
            progress.copied_files == final(self).copied(),
            progress.total_files == plan.files@.len(),
            progress.current_file matches Some(f) && f@ == destination_of(
                *plan,
                old(self).handled() as int,
            ),
    {
        let file = &plan.files[self.handled];
        let destination = join_path(
            plan.archive_plan.archive_root.as_str(),
            file.relative_path.as_str(),
        );
        let total = plan.files.len();
        assert(self.handled < total);
        proof {
            lemma_run_accounts_for_every_file(*plan, self.outcomes@, Seq::empty());
        }
        self.handled = self.handled + 1;
        self.copied_files = self.copied_files + 1;
        self.outcomes = Ghost(self.outcomes@.push(None));
        CopyProgress {
            copied_files: self.copied_files,
            total_files: plan.files.len(),
            current_file: Some(destination),
        }
    }

    /// Records that the next file could not be copied, with the error text.
    pub fn record_failed(&mut self, plan: &CopyPlan, error: String)
        requires
            old(self).wf(),
            old(self).follows(*plan),
            old(self).handled() < plan.files@.len(),
        ensures
            final(self).wf(),
            final(self).follows(*plan),
            final(self).outcomes() == old(self).outcomes().push(Some(error@)),
            final(self).handled() == old(self).handled() + 1,
            final(self).copied() == old(self).copied(),
            final(self).failures().len() == old(self).failures().len() + 1,
            forall|k: int|
                0 <= k < old(self).failures().len() ==> final(self).failures()[k] == old(
                    self,
                ).failures()[k],
            final(self).failures().last().file@ == plan.files@[old(self).handled() as int].source_path@,
            final(self).failures().last().error@ == error@,
    {
        let file = &plan.files[self.handled];
        let ghost err = error@;
        let failure = CopyFailure { file: file.source_path.clone(), error };
        let total = plan.files.len();
        assert(self.handled < total);
        proof {
            lemma_run_accounts_for_every_file(*plan, self.outcomes@, err);
        }
        let ghost before = self.failures@;
        self.handled = self.handled + 1;
        self.failures.push(failure);
        self.outcomes = Ghost(self.outcomes@.push(Some(err)));
        assert(failure_views(self.failures@) =~= failure_views(before).push((file.source_path@, err)));
    }

    /// The summary of a run that stopped, cancelled or not.
    pub fn into_summary(self, plan: &CopyPlan, cancelled: bool) -> (r: CopySummary)
        requires
            self.wf(),
            self.follows(*plan),
        ensures
            r.copied_files == copied_count(self.outcomes()),
            failure_views(r.failures@) == failures_of(*plan, self.outcomes()),
            r.destination@ == plan.archive_plan.archive_root@,
            r.copied_files == self.copied(),
            r.failures@ == self.failures(),
            r.was_cancelled == cancelled,
            r.copied_files + r.failures@.len() == self.handled(),
    {
        CopySummary {
            destination: plan.archive_plan.archive_root.clone(),
            copied_files: self.copied_files,
            failures: self.failures,
            was_cancelled: cancelled,
        }
    }
}

} // verus!
