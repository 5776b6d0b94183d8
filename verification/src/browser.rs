//! The folder trees of the source and settings browsers: which folders are
//! expanded, what is known of each folder's children, and the flattened
//! list of rows that the screens show.
use vstd::prelude::*;
use crate::paths::{
    components_of, file_name_chars, path_components, path_key, path_key_of, seq_lt, sorted_positions,
    spec_file_name,
};
use crate::text::{chars_to_string, str_eq, str_to_chars, string_from};
use crate::types::DeviceInfo;

verus! {

/// A set of paths (the expanded folders, the folders being loaded).
#[derive(Debug, Clone)]
pub struct PathSet {
    paths: Vec<String>,
}

impl PathSet {
    pub closed spec fn view(self) -> Set<Seq<char>> {
        Set::new(|p: Seq<char>| exists|k: int| 0 <= k < self.paths@.len() && #[trigger] self.paths@[k]@ == p)
    }

    pub closed spec fn wf(self) -> bool {
        forall|a: int, b: int| 0 <= a < b < self.paths@.len() ==> self.paths@[a]@ != self.paths@[b]@
    }

    pub fn new() -> (r: Self)
        ensures
            r.wf(),
            r.view() == Set::<Seq<char>>::empty(),
    {
        let r = PathSet { paths: Vec::new() };
        assert(r.view() =~= Set::<Seq<char>>::empty());
        r
    }

    fn position(&self, path: &str) -> (r: Option<usize>)
        ensures
            r matches Some(k) ==> k < self.paths@.len() && self.paths@[k as int]@ == path@,
            r is None ==> !self.view().contains(path@),
    {
        let mut i: usize = 0;
        while i < self.paths.len()
            invariant
                i <= self.paths@.len(),
                forall|k: int| 0 <= k < i ==> self.paths@[k]@ != path@,
            decreases self.paths@.len() - i,
        {
            if str_eq(self.paths[i].as_str(), path) {
                return Some(i);
            }
            i = i + 1;
        }
        None
    }

    pub fn contains(&self, path: &str) -> (r: bool)
        ensures
            r == self.view().contains(path@),
    {
        match self.position(path) {
            Some(k) => {
                assert(self.paths@[k as int]@ == path@);
                true
            },
            None => false,
        }
    }

    /// Adds `path`; tells whether it was new.
    pub fn insert(&mut self, path: String) -> (added: bool)
        requires
            old(self).wf(),
        ensures
            final(self).wf(),
            final(self).view() == old(self).view().insert(path@),
            added == !old(self).view().contains(path@),
    {
        match self.position(path.as_str()) {
            Some(k) => {
                assert(self.paths@[k as int]@ == path@);
                assert(self.view() =~= self.view().insert(path@));
                false
            },
            None => {
                let ghost before = self.paths@;
                let ghost pv = path@;
                self.paths.push(path);
                proof {
                    assert forall|p: Seq<char>| self.view().contains(p) == old(self).view().insert(pv).contains(p) by {
                        if p == pv {
                            assert(self.paths@[before.len() as int]@ == pv);
                        }
                        if exists|k: int| 0 <= k < before.len() && #[trigger] before[k]@ == p {
                            let k = choose|k: int| 0 <= k < before.len() && #[trigger] before[k]@ == p;
                            assert(self.paths@[k] == before[k]);
                        }
                        if exists|k: int| 0 <= k < self.paths@.len() && #[trigger] self.paths@[k]@ == p {
                            let k = choose|k: int| 0 <= k < self.paths@.len() && #[trigger] self.paths@[k]@ == p;
                            if k < before.len() {
                                assert(self.paths@[k] == before[k]);
                            }
                        }
                    }
                    assert(self.view() =~= old(self).view().insert(pv));
                    assert forall|a: int, b: int| 0 <= a < b < self.paths@.len() implies self.paths@[a]@ != self.paths@[b]@ by {
                        if b == before.len() {
                            assert(self.paths@[a] == before[a]);
                        } else {
                            assert(self.paths@[a] == before[a]);
                            assert(self.paths@[b] == before[b]);
                        }
                    }
                }
                true
            },
        }
    }

    /// Removes `path`; tells whether it was there.
    pub fn remove(&mut self, path: &str) -> (removed: bool)
        requires
            old(self).wf(),
        ensures
            final(self).wf(),
            final(self).view() == old(self).view().remove(path@),
            removed == old(self).view().contains(path@),
    {
        match self.position(path) {
            None => {
                assert(self.view() =~= self.view().remove(path@));
                false
            },
            Some(k) => {
                let ghost before = self.paths@;
                let _ = self.paths.remove(k);
                proof {
                    assert(old(self).view().contains(path@)) by {
                        assert(before[k as int]@ == path@);
                    }
                    assert forall|p: Seq<char>| self.view().contains(p) == old(self).view().remove(path@).contains(p) by {
                        if exists|m: int| 0 <= m < self.paths@.len() && #[trigger] self.paths@[m]@ == p {
                            let m = choose|m: int| 0 <= m < self.paths@.len() && #[trigger] self.paths@[m]@ == p;
                            if m < k {
                                assert(self.paths@[m] == before[m]);
                                assert(before[m]@ != before[k as int]@);
                            } else {
                                assert(self.paths@[m] == before[m + 1]);
                                assert(before[m + 1]@ != before[k as int]@);
                            }
                        }
                        if p != path@ && exists|m: int| 0 <= m < before.len() && #[trigger] before[m]@ == p {
                            let m = choose|m: int| 0 <= m < before.len() && #[trigger] before[m]@ == p;
                            assert(m != k);
                            if m < k {
                                assert(self.paths@[m] == before[m]);
                            } else {
                                assert(self.paths@[m - 1] == before[m]);
                            }
                        }
                    }
                    assert(self.view() =~= old(self).view().remove(path@));
                    assert forall|a: int, b: int| 0 <= a < b < self.paths@.len() implies self.paths@[a]@ != self.paths@[b]@ by {
                        let oa = if a < k { a } else { a + 1 };
                        let ob = if b < k { b } else { b + 1 };
                        assert(self.paths@[a] == before[oa]);
                        assert(self.paths@[b] == before[ob]);
                    }
                }
                true
            },
        }
    }

    pub fn clear(&mut self)
        ensures
            final(self).wf(),
            final(self).view() == Set::<Seq<char>>::empty(),
    {
        self.paths = Vec::new();
        assert(self.view() =~= Set::<Seq<char>>::empty());
    }
}

/// What is known of a folder's children.
#[derive(Debug, Clone, PartialEq, Eq)]
pub enum DirectoryLoadState {
    Loading,
    Loaded(Vec<String>),
}

/// The model of a `DirectoryLoadState`.
pub enum LoadView {
    Loading,
    Loaded(Seq<Seq<char>>),
}

pub open spec fn load_view(s: DirectoryLoadState) -> LoadView {
    match s {
        DirectoryLoadState::Loading => LoadView::Loading,
        DirectoryLoadState::Loaded(children) => LoadView::Loaded(
            children@.map_values(|c: String| c@),
        ),
    }
}

/// What is known of each folder, by path.
#[derive(Debug, Clone)]
pub struct DirectoryStates {
    entries: Vec<(String, DirectoryLoadState)>,
}

impl DirectoryStates {
    pub closed spec fn wf(self) -> bool {
        forall|a: int, b: int|
            0 <= a < b < self.entries@.len() ==> self.entries@[a].0@ != self.entries@[b].0@
    }

    /// The state recorded for `path`.
    pub closed spec fn lookup(self, path: Seq<char>) -> Option<LoadView> {
        if exists|k: int| 0 <= k < self.entries@.len() && #[trigger] self.entries@[k].0@ == path {
            Some(
                load_view(
                    self.entries@[choose|k: int|
                        0 <= k < self.entries@.len() && #[trigger] self.entries@[k].0@ == path].1,
                ),
            )
        } else {
            None
        }
    }

    pub closed spec fn size(self) -> nat {
        self.entries@.len()
    }

    pub fn new() -> (r: Self)
        ensures
            r.wf(),
            r.size() == 0,
            forall|p: Seq<char>| #[trigger] r.lookup(p) is None,
    {
        DirectoryStates { entries: Vec::new() }
    }

    pub fn len(&self) -> (r: usize)
        ensures
            r == self.size(),
    {
        self.entries.len()
    }

    fn position(&self, path: &str) -> (r: Option<usize>)
        requires
            self.wf(),
        ensures
            r matches Some(k) ==> k < self.entries@.len() && self.entries@[k as int].0@ == path@
                && self.lookup(path@) == Some(load_view(self.entries@[k as int].1)),
            r is None ==> self.lookup(path@) is None,
    {
        let mut i: usize = 0;
        while i < self.entries.len()
            invariant
                i <= self.entries@.len(),
                self.wf(),
                forall|k: int| 0 <= k < i ==> self.entries@[k].0@ != path@,
            decreases self.entries@.len() - i,
        {
            if str_eq(self.entries[i].0.as_str(), path) {
                proof {
                    let c = choose|k: int|
                        0 <= k < self.entries@.len() && #[trigger] self.entries@[k].0@ == path@;
                    if c != i {
                        assert(self.entries@[c].0@ == self.entries@[i as int].0@);
                    }
                }
                return Some(i);
            }
            i = i + 1;
        }
        None
    }

    /// The state recorded for `path`.
    pub fn get(&self, path: &str) -> (r: Option<&DirectoryLoadState>)
        requires
            self.wf(),
        ensures
            r is Some == self.lookup(path@) is Some,
            r matches Some(s) ==> self.lookup(path@) == Some(load_view(*s)),
    {
        match self.position(path) {
            Some(k) => Some(&self.entries[k].1),
            None => None,
        }
    }

    pub fn contains(&self, path: &str) -> (r: bool)
        requires
            self.wf(),
        ensures
            r == self.lookup(path@) is Some,
    {
        self.position(path).is_some()
    }

    /// Records `state` for `path`, replacing what was recorded.
    pub fn insert(&mut self, path: String, state: DirectoryLoadState)
        requires
            old(self).wf(),
        ensures
            final(self).wf(),
            final(self).lookup(path@) == Some(load_view(state)),
            forall|p: Seq<char>| p != path@ ==> #[trigger] final(self).lookup(p) == old(self).lookup(p),
            final(self).size() <= old(self).size() + 1,
    {
        let ghost pv = path@;
        let ghost sv = load_view(state);
        match self.position(path.as_str()) {
            Some(k) => {
                let ghost before = self.entries@;
                self.entries.set(k, (path, state));
                proof {
                    assert forall|a: int, b: int| 0 <= a < b < self.entries@.len() implies self.entries@[a].0@ != self.entries@[b].0@ by {
                        if a != k && b != k {
                            assert(self.entries@[a] == before[a] && self.entries@[b] == before[b]);
                        } else if a == k {
                            assert(self.entries@[b] == before[b]);
                        } else {
                            assert(self.entries@[a] == before[a]);
                        }
                    }
                    assert(self.entries@[k as int].0@ == pv);
                    let c = choose|m: int| 0 <= m < self.entries@.len() && #[trigger] self.entries@[m].0@ == pv;
                    if c != k {
                        assert(self.entries@[c].0@ == self.entries@[k as int].0@);
                    }
                    assert forall|p: Seq<char>| p != pv implies #[trigger] self.lookup(p) == old(self).lookup(p) by {
                        if exists|m: int| 0 <= m < before.len() && #[trigger] before[m].0@ == p {
                            let m = choose|m: int| 0 <= m < before.len() && #[trigger] before[m].0@ == p;
                            assert(m != k);
                            assert(self.entries@[m] == before[m]);
                            let c2 = choose|m2: int| 0 <= m2 < self.entries@.len() && #[trigger] self.entries@[m2].0@ == p;
                            if c2 != m {
                                assert(self.entries@[c2].0@ == self.entries@[m].0@);
                            }
                        } else {
                            assert forall|m: int| 0 <= m < self.entries@.len() implies #[trigger] self.entries@[m].0@ != p by {
                                if m != k {
                                    assert(self.entries@[m] == before[m]);
                                }
                            }
                        }
                    }
                }
            },
            None => {
                let ghost before = self.entries@;
                self.entries.push((path, state));
                proof {
                    assert forall|a: int, b: int| 0 <= a < b < self.entries@.len() implies self.entries@[a].0@ != self.entries@[b].0@ by {
                        assert(self.entries@[a] == before[a]);
                        if b < before.len() {
                            assert(self.entries@[b] == before[b]);
                        } else {
                            assert(!(exists|m: int| 0 <= m < before.len() && #[trigger] before[m].0@ == pv));
                        }
                    }
                    let last = before.len() as int;
                    assert(self.entries@[last].0@ == pv);
                    let c = choose|m: int| 0 <= m < self.entries@.len() && #[trigger] self.entries@[m].0@ == pv;
                    if c != last {
                        assert(self.entries@[c].0@ == self.entries@[last].0@);
                    }
                    assert forall|p: Seq<char>| p != pv implies #[trigger] self.lookup(p) == old(self).lookup(p) by {
                        if exists|m: int| 0 <= m < before.len() && #[trigger] before[m].0@ == p {
                            let m = choose|m: int| 0 <= m < before.len() && #[trigger] before[m].0@ == p;
                            assert(self.entries@[m] == before[m]);
                            let c2 = choose|m2: int| 0 <= m2 < self.entries@.len() && #[trigger] self.entries@[m2].0@ == p;
                            if c2 != m {
                                assert(self.entries@[c2].0@ == self.entries@[m].0@);
                            }
                        } else {
                            assert forall|m: int| 0 <= m < self.entries@.len() implies #[trigger] self.entries@[m].0@ != p by {
                                if m < last {
                                    assert(self.entries@[m] == before[m]);
                                }
                            }
                        }
                    }
                }
            },
        }
    }

    pub fn clear(&mut self)
        ensures
            final(self).wf(),
            final(self).size() == 0,
            forall|p: Seq<char>| #[trigger] final(self).lookup(p) is None,
    {
        self.entries = Vec::new();
    }
}

/// A row of a folder browser.
#[derive(Debug, Clone, PartialEq, Eq)]
pub struct SourceEntry {
    pub device_id: String,
    pub path: String,
    pub label: String,
    pub depth: usize,
    pub is_expanded: bool,
    pub has_children: bool,
    pub is_loading: bool,
    pub is_device_root: bool,
    pub is_available: bool,
}

/// The mathematical model of a `SourceEntry`.
pub struct RowView {
    pub device_id: Seq<char>,
    pub path: Seq<char>,
    pub label: Seq<char>,
    pub depth: int,
    pub is_expanded: bool,
    pub has_children: bool,
    pub is_loading: bool,
    pub is_device_root: bool,
    pub is_available: bool,
}

impl View for SourceEntry {
    type V = RowView;

    open spec fn view(&self) -> RowView {
        RowView {
            device_id: self.device_id@,
            path: self.path@,
            label: self.label@,
            depth: self.depth as int,
            is_expanded: self.is_expanded,
            has_children: self.has_children,
            is_loading: self.is_loading,
            is_device_root: self.is_device_root,
            is_available: self.is_available,
        }
    }
}

impl SourceEntry {
    /// A copy of this row.
    pub fn duplicate(&self) -> (r: Self)
        ensures
            r.device_id@ == self.device_id@,
            r.path@ == self.path@,
            r.label@ == self.label@,
            r.depth == self.depth,
            r.is_expanded == self.is_expanded,
            r.has_children == self.has_children,
            r.is_loading == self.is_loading,
            r.is_device_root == self.is_device_root,
            r.is_available == self.is_available,
    {
        SourceEntry {
            device_id: self.device_id.clone(),
            path: self.path.clone(),
            label: self.label.clone(),
            depth: self.depth,
            is_expanded: self.is_expanded,
            has_children: self.has_children,
            is_loading: self.is_loading,
            is_device_root: self.is_device_root,
            is_available: self.is_available,
        }
    }
}

/// Whether a folder shows as having children, and as loading: a folder being
/// loaded or not yet looked at may have children; a loaded one has them
/// when its listing is not empty.
pub open spec fn children_flags(state: Option<LoadView>) -> (bool, bool) {
    match state {
        Some(LoadView::Loading) => (true, true),
        Some(LoadView::Loaded(children)) => (children.len() > 0, false),
        None => (true, false),
    }
}

fn load_flags(state: Option<&DirectoryLoadState>) -> (r: (bool, bool))
    ensures
        r == children_flags(
            match state {
                Some(s) => Some(load_view(*s)),
                None => None,
            },
        ),
{
    match state {
        Some(DirectoryLoadState::Loading) => (true, true),
        Some(DirectoryLoadState::Loaded(children)) => (children.len() > 0, false),
        None => (true, false),
    }
}

/// The label of a folder row: its name, or `folder` when it has none.
pub open spec fn folder_label(path: Seq<char>) -> Seq<char> {
    match spec_file_name(path) {
        Some(n) => n,
        None => "folder"@,
    }
}

/// The row of the folder `path` itself: named after its last component,
/// with the children flags of what is known of it.
pub open spec fn folder_row(
    device_id: Seq<char>,
    path: Seq<char>,
    dirs: DirectoryStates,
    expanded: PathSet,
    depth: int,
) -> RowView {
    RowView {
        device_id,
        path,
        label: folder_label(path),
        depth,
        is_expanded: expanded.view().contains(path),
        has_children: children_flags(dirs.lookup(path)).0,
        is_loading: children_flags(dirs.lookup(path)).1,
        is_device_root: false,
        is_available: true,
    }
}

/// The rows of the folder `path` and, when it is expanded and loaded, of its
/// children, depth first. `fuel` bounds the nesting (see `row_budget`).
pub open spec fn folder_rows(
    device_id: Seq<char>,
    path: Seq<char>,
    dirs: DirectoryStates,
    expanded: PathSet,
    depth: int,
    fuel: nat,
) -> Seq<RowView>
    decreases fuel, 0nat, 0nat,
{
    let head = seq![folder_row(device_id, path, dirs, expanded, depth)];
    if fuel == 0 || !expanded.view().contains(path) {
        head
    } else {
        match dirs.lookup(path) {
            Some(LoadView::Loaded(children)) => head + children_rows(
                device_id,
                children,
                dirs,
                expanded,
                depth + 1,
                (fuel - 1) as nat,
            ),
            _ => head,
        }
    }
}

/// The rows of the folders `children`, one after the other.
pub open spec fn children_rows(
    device_id: Seq<char>,
    children: Seq<Seq<char>>,
    dirs: DirectoryStates,
    expanded: PathSet,
    depth: int,
    fuel: nat,
) -> Seq<RowView>
    decreases fuel, 1nat, children.len(),
{
    if children.len() == 0 {
        Seq::empty()
    } else {
        children_rows(device_id, children.drop_last(), dirs, expanded, depth, fuel) + folder_rows(
            device_id,
            children.last(),
            dirs,
            expanded,
            depth,
            fuel,
        )
    }
}


/// How deep the flattening may nest: one level per recorded folder, which
/// bounds every tree whose folders hold longer paths than their parents.
pub open spec fn row_budget(dirs: DirectoryStates) -> nat {
    if dirs.size() < 0x1000_0000 {
        dirs.size() + 1
    } else {
        0x1000_0000
    }
}

fn budget_of(dirs: &DirectoryStates) -> (r: usize)
    ensures
        r == row_budget(*dirs),
        r <= 0x1000_0000,
{
    let n = dirs.len();
    if n < 0x1000_0000 {
        n + 1
    } else {
        0x1000_0000
    }
}

fn push_folder_rows(
    device_id: &str,
    path: &str,
    dirs: &DirectoryStates,
    expanded: &PathSet,
    depth: usize,
    fuel: usize,
    entries: &mut Vec<SourceEntry>,
)
    requires
        dirs.wf(),
        depth + fuel < usize::MAX,
    ensures
        final(entries)@.map_values(|e: SourceEntry| e@) == old(entries)@.map_values(
            |e: SourceEntry| e@,
        ) + folder_rows(device_id@, path@, *dirs, *expanded, depth as int, fuel as nat),
        forall|k: int|
            0 <= k < old(entries)@.len() ==> final(entries)@[k] == old(entries)@[k],
        forall|k: int|
            old(entries)@.len() <= k < final(entries)@.len() ==> (#[trigger] final(entries)@[k]).device_id@
                == device_id@ && !final(entries)@[k].is_device_root,
    decreases fuel, 0nat,
{
    let is_expanded = expanded.contains(path);
    let state = dirs.get(path);
    let (has_children, is_loading) = load_flags(state);
    let label = match file_name_chars(path) {
        Some(n) => chars_to_string(&n),
        None => string_from("folder"),
    };
    let ghost before = entries@;
    entries.push(
        SourceEntry {
            device_id: string_from(device_id),
            path: string_from(path),
            label,
            depth,
            is_expanded,
            has_children,
            is_loading,
            is_device_root: false,
            is_available: true,
        },
    );
    assert(entries@.map_values(|e: SourceEntry| e@) =~= before.map_values(
        |e: SourceEntry| e@,
    ) + seq![folder_row(device_id@, path@, *dirs, *expanded, depth as int)]);
    if fuel == 0 || !is_expanded {
        return;
    }
    match state {
        Some(DirectoryLoadState::Loaded(children)) => {
            push_children_rows(device_id, children, dirs, expanded, depth + 1, fuel - 1, entries);
            assert(entries@.map_values(|e: SourceEntry| e@) =~= before.map_values(
                |e: SourceEntry| e@,
            ) + folder_rows(device_id@, path@, *dirs, *expanded, depth as int, fuel as nat));
        },
        _ => {},
    }
}

fn push_children_rows(
    device_id: &str,
    children: &Vec<String>,
    dirs: &DirectoryStates,
    expanded: &PathSet,
    depth: usize,
    fuel: usize,
    entries: &mut Vec<SourceEntry>,
)
    requires
        dirs.wf(),
        depth + fuel < usize::MAX,
    ensures
        final(entries)@.map_values(|e: SourceEntry| e@) == old(entries)@.map_values(
            |e: SourceEntry| e@,
        ) + children_rows(
            device_id@,
            children@.map_values(|c: String| c@),
            *dirs,
            *expanded,
            depth as int,
            fuel as nat,
        ),
        forall|k: int|
            0 <= k < old(entries)@.len() ==> final(entries)@[k] == old(entries)@[k],
        forall|k: int|
            old(entries)@.len() <= k < final(entries)@.len() ==> (#[trigger] final(entries)@[k]).device_id@
                == device_id@ && !final(entries)@[k].is_device_root,
    decreases fuel, 1nat,
{
    let ghost cs = children@.map_values(|c: String| c@);
    let ghost start = entries@;
    let mut i: usize = 0;
    assert(cs.take(0) =~= Seq::<Seq<char>>::empty());
    assert(start.map_values(|e: SourceEntry| e@) =~= start.map_values(
        |e: SourceEntry| e@,
    ) + children_rows(device_id@, cs.take(0), *dirs, *expanded, depth as int, fuel as nat));
    while i < children.len()
        invariant
            i <= children@.len(),
            cs == children@.map_values(|c: String| c@),
            dirs.wf(),
            depth + fuel < usize::MAX,
            start.len() <= entries@.len(),
            entries@.map_values(|e: SourceEntry| e@) == start.map_values(
                |e: SourceEntry| e@,
            ) + children_rows(device_id@, cs.take(i as int), *dirs, *expanded, depth as int, fuel as nat),
            forall|k: int| 0 <= k < start.len() ==> entries@[k] == start[k],
            forall|k: int|
                start.len() <= k < entries@.len() ==> (#[trigger] entries@[k]).device_id@ == device_id@
                    && !entries@[k].is_device_root,
        decreases children@.len() - i,
    {
        let ghost mid = entries@;
        push_folder_rows(device_id, children[i].as_str(), dirs, expanded, depth, fuel, entries);
        proof {
            assert(cs.take(i + 1).drop_last() =~= cs.take(i as int));
            assert(cs.take(i + 1).last() == children@[i as int]@);
            assert(entries@.map_values(|e: SourceEntry| e@) =~= start.map_values(
                |e: SourceEntry| e@,
            ) + children_rows(device_id@, cs.take(i + 1), *dirs, *expanded, depth as int, fuel as nat));
        }
        i = i + 1;
    }
    assert(cs.take(children@.len() as int) =~= cs);
}

/// The rows of a device's tree: the device's own row, then, when it is
/// expanded and loaded, its folders.
pub open spec fn device_rows(
    device: DeviceInfo,
    dirs: DirectoryStates,
    expanded: PathSet,
    depth: int,
) -> Seq<RowView> {
    let path = device.mount_path@;
    let head = seq![
        RowView {
            device_id: device.id@,
            path,
            label: device.display_name@,
            depth,
            is_expanded: expanded.view().contains(path),
            has_children: children_flags(dirs.lookup(path)).0,
            is_loading: children_flags(dirs.lookup(path)).1,
            is_device_root: true,
            is_available: device.availability@ is Available,
        },
    ];
    if !expanded.view().contains(path) {
        head
    } else {
        match dirs.lookup(path) {
            Some(LoadView::Loaded(children)) => head + children_rows(
                device.id@,
                children,
                dirs,
                expanded,
                depth + 1,
                row_budget(dirs),
            ),
            _ => head,
        }
    }
}

/// Appends the rows of `device`'s tree to `entries`.
pub fn flatten_source_tree(
    device: &DeviceInfo,
    directory_state: &DirectoryStates,
    expanded_sources: &PathSet,
    depth: usize,
    entries: &mut Vec<SourceEntry>,
)
    requires
        directory_state.wf(),
        depth + 1 + row_budget(*directory_state) < usize::MAX,
    ensures
        final(entries)@.map_values(|e: SourceEntry| e@) == old(entries)@.map_values(
            |e: SourceEntry| e@,
        ) + device_rows(*device, *directory_state, *expanded_sources, depth as int),
        forall|k: int| 0 <= k < old(entries)@.len() ==> final(entries)@[k] == old(entries)@[k],
        final(entries)@.len() > old(entries)@.len(),
        final(entries)@[old(entries)@.len() as int].device_id@ == device.id@,
        final(entries)@[old(entries)@.len() as int].label@ == device.display_name@,
        final(entries)@[old(entries)@.len() as int].is_device_root,
        final(entries)@[old(entries)@.len() as int].is_available == (device.availability@ is Available),
        forall|k: int|
            old(entries)@.len() < k < final(entries)@.len() ==> (#[trigger] final(entries)@[k]).device_id@
                == device.id@,
{
    let path = device.mount_path.as_str();
    let is_expanded = expanded_sources.contains(path);
    let state = directory_state.get(path);
    let (has_children, is_loading) = load_flags(state);
    let ghost before = entries@;
    entries.push(
        SourceEntry {
            device_id: device.id.clone(),
            path: device.mount_path.clone(),
            label: device.display_name.clone(),
            depth,
            is_expanded,
            has_children,
            is_loading,
            is_device_root: true,
            is_available: device.is_available(),
        },
    );
    assert(entries@.map_values(|e: SourceEntry| e@) =~= before.map_values(
        |e: SourceEntry| e@,
    ) + seq![device_rows(*device, *directory_state, *expanded_sources, depth as int)[0]]);
    if !is_expanded {
        return;
    }
    match state {
        Some(DirectoryLoadState::Loaded(children)) => {
            let fuel = budget_of(directory_state);
            push_children_rows(
                device.id.as_str(),
                children,
                directory_state,
                expanded_sources,
                depth + 1,
                fuel,
                entries,
            );
            assert(entries@.map_values(|e: SourceEntry| e@) =~= before.map_values(
                |e: SourceEntry| e@,
            ) + device_rows(*device, *directory_state, *expanded_sources, depth as int));
        },
        _ => {},
    }
}

/// The rows of the settings browser's tree rooted at `root`.
pub open spec fn settings_rows(root: Seq<char>, dirs: DirectoryStates, expanded: PathSet) -> Seq<RowView> {
    let head = seq![
        RowView {
            device_id: Seq::empty(),
            path: root,
            label: crate::ui::root_label(root),
            depth: 0,
            is_expanded: expanded.view().contains(root),
            has_children: children_flags(dirs.lookup(root)).0,
            is_loading: children_flags(dirs.lookup(root)).1,
            is_device_root: true,
            is_available: true,
        },
    ];
    if !expanded.view().contains(root) {
        head
    } else {
        match dirs.lookup(root) {
            Some(LoadView::Loaded(children)) => head + children_rows(
                Seq::empty(),
                children,
                dirs,
                expanded,
                1,
                row_budget(dirs),
            ),
            _ => head,
        }
    }
}

/// Appends the rows of the settings browser's tree rooted at `root`.
pub fn flatten_settings_tree(
    root: &str,
    directory_state: &DirectoryStates,
    expanded_paths: &PathSet,
    entries: &mut Vec<SourceEntry>,
)
    requires
        directory_state.wf(),
    ensures
        final(entries)@.map_values(|e: SourceEntry| e@) == old(entries)@.map_values(
            |e: SourceEntry| e@,
        ) + settings_rows(root@, *directory_state, *expanded_paths),
        forall|k: int| 0 <= k < old(entries)@.len() ==> final(entries)@[k] == old(entries)@[k],
        final(entries)@.len() > old(entries)@.len(),
{
    let is_expanded = expanded_paths.contains(root);
    let state = directory_state.get(root);
    let (has_children, is_loading) = load_flags(state);
    let ghost before = entries@;
    entries.push(
        SourceEntry {
            device_id: String::new(),
            path: string_from(root),
            label: crate::ui::display_root_label(root),
            depth: 0,
            is_expanded,
            has_children,
            is_loading,
            is_device_root: true,
            is_available: true,
        },
    );
    assert(entries@.map_values(|e: SourceEntry| e@) =~= before.map_values(
        |e: SourceEntry| e@,
    ) + seq![settings_rows(root@, *directory_state, *expanded_paths)[0]]);
    if !is_expanded {
        return;
    }
    match state {
        Some(DirectoryLoadState::Loaded(children)) => {
            let fuel = budget_of(directory_state);
            push_children_rows("", children, directory_state, expanded_paths, 1, fuel, entries);
            proof {
                reveal_strlit("");
                assert(""@ =~= Seq::<char>::empty());
            }
            assert(entries@.map_values(|e: SourceEntry| e@) =~= before.map_values(
                |e: SourceEntry| e@,
            ) + settings_rows(root@, *directory_state, *expanded_paths));
        },
        _ => {},
    }
}

/// The closest row above `before` whose depth is below `depth`.
pub open spec fn parent_row_below(entries: Seq<SourceEntry>, before: int, depth: int) -> Option<int>
    decreases before,
{
    if before <= 0 || before > entries.len() {
        None
    } else if entries[before - 1].depth < depth {
        Some(before - 1)
    } else {
        parent_row_below(entries, before - 1, depth)
    }
}

pub fn visible_parent_path(entries: &Vec<SourceEntry>, selected_index: usize) -> (r: Option<String>)
    ensures
        selected_index >= entries@.len() ==> r is None,
        selected_index < entries@.len() ==> match parent_row_below(
            entries@,
            selected_index as int,
            entries@[selected_index as int].depth as int,
        ) {
            Some(p) => r matches Some(s) && s@ == entries@[p].path@,
            None => r is None,
        },
{
    if selected_index >= entries.len() {
        return None;
    }
    let depth = entries[selected_index].depth;
    let mut i = selected_index;
    while i > 0 && entries[i - 1].depth >= depth
        invariant
            i <= selected_index < entries@.len(),
            depth == entries@[selected_index as int].depth,
            parent_row_below(entries@, selected_index as int, depth as int) == parent_row_below(
                entries@,
                i as int,
                depth as int,
            ),
        decreases i,
    {
        i = i - 1;
    }
    if i == 0 {
        None
    } else {
        Some(entries[i - 1].path.clone())
    }
}


/// Whether a path starts at the file system root.
pub open spec fn is_rooted(s: Seq<char>) -> bool {
    s.len() > 0 && s[0] == '/'
}

/// The root the settings browser shows for the existing folder `resolved`:
/// `/` for an absolute path, else the path itself.
pub open spec fn browser_root_of(resolved: Seq<char>) -> Seq<char> {
    if is_rooted(resolved) {
        seq!['/']
    } else {
        resolved
    }
}

pub fn settings_browser_root(resolved: &str) -> (r: String)
    ensures
        r@ == browser_root_of(resolved@),
{
    let v = str_to_chars(resolved);
    if v.len() > 0 && v[0] == '/' {
        proof {
            reveal_strlit("/");
        }
        assert("/"@ =~= seq!['/']);
        string_from("/")
    } else {
        string_from(resolved)
    }
}

/// The components of `target` below `root` when `root` is a prefix of it,
/// component by component, else all of `target`'s components
/// (`Path::strip_prefix`).
pub open spec fn relative_components(root: Seq<char>, target: Seq<char>) -> Seq<Seq<char>> {
    let rc = path_components(root);
    let tc = path_components(target);
    if is_rooted(root) == is_rooted(target) && rc.len() <= tc.len() && tc.take(rc.len() as int) == rc {
        tc.skip(rc.len() as int)
    } else {
        tc
    }
}

/// The folders met walking from `current` down `comps`, one per component
/// other than `..`.
pub open spec fn chain_steps(current: Seq<char>, comps: Seq<Seq<char>>) -> Seq<Seq<char>>
    decreases comps.len(),
{
    if comps.len() == 0 {
        Seq::empty()
    } else if comps[0] == seq!['.', '.'] {
        chain_steps(current, comps.drop_first())
    } else {
        let next = crate::archive::spec_join_path(current, comps[0]);
        seq![next] + chain_steps(next, comps.drop_first())
    }
}

/// `root` followed by each folder between it and `target`.
pub open spec fn chain_of(root: Seq<char>, target: Seq<char>) -> Seq<Seq<char>> {
    seq![root] + chain_steps(root, relative_components(root, target))
}

fn chars_equal(a: &Vec<char>, b: &Vec<char>) -> (r: bool)
    ensures
        r == (a@ == b@),
{
    if a.len() != b.len() {
        return false;
    }
    let mut i: usize = 0;
    while i < a.len()
        invariant
            i <= a@.len(),
            a@.len() == b@.len(),
            forall|k: int| 0 <= k < i ==> a@[k] == b@[k],
        decreases a@.len() - i,
    {
        if a[i] != b[i] {
            return false;
        }
        i = i + 1;
    }
    assert(a@ =~= b@);
    true
}

/// The folders from `root` down to `target`, `root` first, to expand in the
/// settings browser.
pub fn path_chain(root: &str, target: &str) -> (r: Vec<String>)
    ensures
        r@.map_values(|s: String| s@) == chain_of(root@, target@),
{
    let rc = components_of(root);
    let tc = components_of(target);
    let ghost rs = path_components(root@);
    let ghost ts = path_components(target@);
    let rv = str_to_chars(root);
    let tv = str_to_chars(target);
    let rooted_root = rv.len() > 0 && rv[0] == '/';
    let rooted_target = tv.len() > 0 && tv[0] == '/';
    assert(rooted_root == is_rooted(root@));
    assert(rooted_target == is_rooted(target@));
    let mut strip = rooted_root == rooted_target && rc.len() <= tc.len();
    let mut i: usize = 0;
    while strip && i < rc.len()
        invariant
            i <= rc@.len(),
            rc@.len() == rs.len(),
            tc@.len() == ts.len(),
            forall|k: int| 0 <= k < rc@.len() ==> (#[trigger] rc@[k])@ == rs[k],
            forall|k: int| 0 <= k < tc@.len() ==> (#[trigger] tc@[k])@ == ts[k],
            rooted_root == is_rooted(root@),
            rooted_target == is_rooted(target@),
            strip ==> rooted_root == rooted_target && rc@.len() <= tc@.len() && forall|k: int| 0 <= k < i ==> rs[k] == ts[k],
            !strip ==> !(rooted_root == rooted_target && rs.len() <= ts.len() && ts.take(rs.len() as int) == rs),
        decreases rc@.len() - i + (if strip { 1int } else { 0int }),
    {
        if !chars_equal(&rc[i], &tc[i]) {
            proof {
                if ts.take(rs.len() as int) == rs {
                    assert(ts.take(rs.len() as int)[i as int] == ts[i as int]);
                }
            }
            strip = false;
        } else {
            i = i + 1;
        }
    }
    if strip {
        assert(ts.take(rs.len() as int) =~= rs);
    }
    let start: usize = if strip {
        rc.len()
    } else {
        0
    };
    let ghost rel = relative_components(root@, target@);
    if !strip {
        assert(ts.skip(0) =~= ts);
    }
    assert(ts.skip(start as int) =~= rel);
    let mut out: Vec<String> = Vec::new();
    out.push(string_from(root));
    let mut current = string_from(root);
    let mut j: usize = start;
    while j < tc.len()
        invariant
            start <= j <= tc@.len(),
            tc@.len() == ts.len(),
            forall|k: int| 0 <= k < tc@.len() ==> (#[trigger] tc@[k])@ == ts[k],
            out@.map_values(|s: String| s@) + chain_steps(current@, ts.skip(j as int)) == chain_of(root@, target@),
        decreases tc@.len() - j,
    {
        let ghost rest = ts.skip(j as int);
        assert(rest[0] == ts[j as int]);
        assert(rest.drop_first() =~= ts.skip(j + 1));
        let piece = &tc[j];
        let is_parent = piece.len() == 2 && piece[0] == '.' && piece[1] == '.';
        if is_parent {
            assert(piece@ =~= seq!['.', '.']);
        } else {
            assert(piece@ != seq!['.', '.']) by {
                if piece@.len() == 2 {
                    assert(piece@[0] != '.' || piece@[1] != '.');
                }
            }
            let seg = chars_to_string(piece);
            let next = crate::archive::join_path(current.as_str(), seg.as_str());
            let ghost before = out@.map_values(|s: String| s@);
            out.push(next.clone());
            assert(out@.map_values(|s: String| s@) =~= before.push(next@));
            current = next;
            assert(before + (seq![current@] + chain_steps(current@, ts.skip(j + 1))) =~= before.push(current@) + chain_steps(current@, ts.skip(j + 1)));
        }
        j = j + 1;
    }
    assert(ts.skip(tc@.len() as int) =~= Seq::<Seq<char>>::empty());
    assert(out@.map_values(|s: String| s@) + Seq::<Seq<char>>::empty() =~= out@.map_values(|s: String| s@));
    out
}


/// A folder whose name starts with a dot, which the browsers do not show.
pub open spec fn hidden_folder(path: Seq<char>) -> bool {
    match spec_file_name(path) {
        Some(n) => n.len() > 0 && n[0] == '.',
        None => false,
    }
}

/// The folders of `paths` that are not hidden, in their order.
pub open spec fn shown_folders(paths: Seq<Seq<char>>) -> Seq<Seq<char>>
    decreases paths.len(),
{
    if paths.len() == 0 {
        Seq::empty()
    } else if hidden_folder(paths.last()) {
        shown_folders(paths.drop_last())
    } else {
        shown_folders(paths.drop_last()).push(paths.last())
    }
}

/// `a` holds the paths of `b`, each once, in the order of `pos`.
pub open spec fn paths_arranged(a: Seq<Seq<char>>, b: Seq<Seq<char>>, pos: Seq<usize>) -> bool {
    &&& pos.len() == a.len()
    &&& a.len() == b.len()
    &&& pos.no_duplicates()
    &&& forall|k: int| 0 <= k < pos.len() ==> pos[k] < b.len() && a[k] == b[pos[k] as int]
}

/// `a` holds the paths of `b`, each once, in some order.
pub open spec fn is_path_arrangement(a: Seq<Seq<char>>, b: Seq<Seq<char>>) -> bool {
    exists|pos: Seq<usize>| #[trigger] paths_arranged(a, b, pos)
}

/// Paths in the order `Path` sorts them.
pub open spec fn paths_sorted(a: Seq<Seq<char>>) -> bool {
    forall|i: int, j: int| 0 <= i < j < a.len() ==> !seq_lt(path_key(a[j]), path_key(a[i]))
}

pub fn is_hidden_folder(path: &str) -> (r: bool)
    ensures
        r == hidden_folder(path@),
{
    match file_name_chars(path) {
        Some(n) => n.len() > 0 && n[0] == '.',
        None => false,
    }
}

/// A folder's listing as the browsers show it: its sub-folders `paths`
/// without the hidden ones, in path order.
pub fn folder_listing(paths: &Vec<String>) -> (r: Vec<String>)
    ensures
        paths_sorted(r@.map_values(|p: String| p@)),
        is_path_arrangement(r@.map_values(|p: String| p@), shown_folders(paths@.map_values(|p: String| p@))),
{
    let ghost pv = paths@.map_values(|p: String| p@);
    let mut shown: Vec<String> = Vec::new();
    let mut i: usize = 0;
    assert(pv.take(0) =~= Seq::<Seq<char>>::empty());
    while i < paths.len()
        invariant
            i <= paths@.len(),
            pv == paths@.map_values(|p: String| p@),
            shown@.map_values(|p: String| p@) == shown_folders(pv.take(i as int)),
        decreases paths@.len() - i,
    {
        let ghost cur = pv.take(i + 1);
        assert(cur.drop_last() =~= pv.take(i as int));
        assert(cur.last() == paths@[i as int]@);
        if !is_hidden_folder(paths[i].as_str()) {
            let ghost before = shown@.map_values(|p: String| p@);
            shown.push(paths[i].clone());
            assert(shown@.map_values(|p: String| p@) =~= before.push(paths@[i as int]@));
        }
        i = i + 1;
    }
    assert(pv.take(paths@.len() as int) =~= pv);
    let ghost sv = shown@.map_values(|p: String| p@);
    let mut keys: Vec<Vec<u64>> = Vec::new();
    let mut k: usize = 0;
    while k < shown.len()
        invariant
            k <= shown@.len(),
            keys@.len() == k,
            forall|j: int| 0 <= j < k ==> (#[trigger] keys@[j])@ == path_key(shown@[j]@),
        decreases shown@.len() - k,
    {
        keys.push(path_key_of(shown[k].as_str()));
        k = k + 1;
    }
    let pos = sorted_positions(&keys);
    let mut out: Vec<String> = Vec::new();
    let mut m: usize = 0;
    while m < pos.len()
        invariant
            m <= pos@.len(),
            pos@.len() == shown@.len(),
            keys@.len() == shown@.len(),
            forall|j: int| 0 <= j < pos@.len() ==> pos@[j] < shown@.len(),
            out@.len() == m,
            forall|j: int| 0 <= j < m ==> (#[trigger] out@[j])@ == shown@[pos@[j] as int]@,
        decreases pos@.len() - m,
    {
        out.push(shown[pos[m]].clone());
        m = m + 1;
    }
    proof {
        let ov = out@.map_values(|p: String| p@);
        assert(paths_arranged(ov, sv, pos@));
        assert forall|i: int, j: int| 0 <= i < j < ov.len() implies !seq_lt(path_key(ov[j]), path_key(ov[i])) by {
            assert(ov[i] == out@[i]@);
            assert(ov[j] == out@[j]@);
            assert(!seq_lt(keys@[pos@[j] as int]@, keys@[pos@[i] as int]@));
        }
    }
    out
}

} // verus!
