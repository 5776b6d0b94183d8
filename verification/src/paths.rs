//! `'/'`-separated paths: their components, final name, extension and the
//! order `Path` sorts them in.
use vstd::prelude::*;
use crate::text::{
    is_slash, is_windows_separator, runs, separator_of, slice_to_string, split_runs, str_to_chars, Separator,
};
use crate::types::Platform;

verus! {

/// The `'/'`-separated pieces of `s` without the `.` pieces.
pub open spec fn drop_cur_dirs(pieces: Seq<Seq<char>>) -> Seq<Seq<char>>
    decreases pieces.len(),
{
    if pieces.len() == 0 {
        Seq::empty()
    } else if pieces.last() == seq!['.'] {
        drop_cur_dirs(pieces.drop_last())
    } else {
        drop_cur_dirs(pieces.drop_last()).push(pieces.last())
    }
}

/// The components of a path after its root, as `Path::components` lists
/// them past a leading root: empty pieces and `.` pieces dropped.
pub open spec fn path_components(s: Seq<char>) -> Seq<Seq<char>> {
    drop_cur_dirs(runs(s, |c: char| is_slash(c)))
}

/// `Path::file_name`: the last component unless the path ends in `..` or
/// has no component.
pub open spec fn spec_file_name(s: Seq<char>) -> Option<Seq<char>> {
    let cs = path_components(s);
    if cs.len() == 0 || cs.last() == seq!['.', '.'] {
        None
    } else {
        Some(cs.last())
    }
}

/// The index of the last `'.'` of `s`, or -1.
pub open spec fn last_dot(s: Seq<char>) -> int
    decreases s.len(),
{
    if s.len() == 0 {
        -1
    } else if s.last() == '.' {
        s.len() - 1
    } else {
        last_dot(s.drop_last())
    }
}

/// `Path::extension` of a file name: what follows its last dot, unless the
/// name has no dot or its only leading dot is its last one.
pub open spec fn spec_extension(name: Seq<char>) -> Option<Seq<char>> {
    if name == seq!['.', '.'] || last_dot(name) <= 0 {
        None
    } else {
        Some(name.skip(last_dot(name) + 1))
    }
}

/// `char::to_ascii_lowercase` over a sequence.
pub open spec fn ascii_lower(s: Seq<char>) -> Seq<char> {
    s.map_values(
        |c: char|
            if 'A' <= c && c <= 'Z' {
                (((c as u8) + 32) as u8) as char
            } else {
                c
            },
    )
}

/// The pieces of `v` between separators of `kind`, without the empty and
/// `.` pieces.
fn pieces_of(v: &Vec<char>, kind: Separator) -> (r: Vec<Vec<char>>)
    ensures
        r@.len() == drop_cur_dirs(runs(v@, separator_of(kind))).len(),
        forall|i: int| 0 <= i < r@.len() ==> (#[trigger] r@[i])@ == drop_cur_dirs(runs(v@, separator_of(kind)))[i],
{
    let pieces = split_runs(v, kind);
    let ghost ps = runs(v@, separator_of(kind));
    let mut out: Vec<Vec<char>> = Vec::new();
    let mut i: usize = 0;
    assert(ps.take(0) =~= Seq::<Seq<char>>::empty());
    while i < pieces.len()
        invariant
            i <= pieces@.len(),
            pieces@.len() == ps.len(),
            forall|k: int| 0 <= k < pieces@.len() ==> (#[trigger] pieces@[k])@ == ps[k],
            out@.len() == drop_cur_dirs(ps.take(i as int)).len(),
            forall|k: int| 0 <= k < out@.len() ==> (#[trigger] out@[k])@ == drop_cur_dirs(ps.take(i as int))[k],
        decreases pieces@.len() - i,
    {
        let piece = &pieces[i];
        let ghost cur = ps.take(i + 1);
        assert(cur.drop_last() =~= ps.take(i as int));
        assert(cur.last() == piece@);
        let is_cur_dir = piece.len() == 1 && piece[0] == '.';
        if is_cur_dir {
            assert(piece@ =~= seq!['.']);
        } else {
            assert(piece@ != seq!['.']) by {
                if piece@.len() == 1 {
                    assert(piece@[0] != '.');
                }
            }
            let ghost before = out@;
            out.push(piece.clone());
            proof {
                assert forall|k: int| 0 <= k < out@.len() implies (#[trigger] out@[k])@ == drop_cur_dirs(cur)[k] by {
                    if k < before.len() {
                        assert(out@[k] == before[k]);
                    }
                }
            }
        }
        i = i + 1;
    }
    assert(ps.take(pieces@.len() as int) =~= ps);
    out
}

/// The components of `path` after its root (see `path_components`).
pub fn components_of(path: &str) -> (r: Vec<Vec<char>>)
    ensures
        r@.len() == path_components(path@).len(),
        forall|i: int| 0 <= i < r@.len() ==> (#[trigger] r@[i])@ == path_components(path@)[i],
{
    let v = str_to_chars(path);
    assert(separator_of(Separator::Slash) == |c: char| is_slash(c));
    pieces_of(&v, Separator::Slash)
}

/// An ASCII letter, as a Windows drive is named.
pub open spec fn is_ascii_letter(c: char) -> bool {
    ('a' <= c && c <= 'z') || ('A' <= c && c <= 'Z')
}

/// The components of a Windows path after its prefix and root, as
/// `Path::components` lists them there: `\` and `/` both separate, a drive
/// prefix (`X:`) is set aside, and so are the first two pieces (server and
/// share) of a path that begins with two separators; empty and `.` pieces
/// are dropped.
pub open spec fn windows_components(s: Seq<char>) -> Seq<Seq<char>> {
    if s.len() >= 2 && is_windows_separator(s[0]) && is_windows_separator(s[1]) {
        let cs = drop_cur_dirs(runs(s, |c: char| is_windows_separator(c)));
        if cs.len() <= 2 {
            Seq::empty()
        } else {
            cs.skip(2)
        }
    } else if s.len() >= 2 && s[1] == ':' && is_ascii_letter(s[0]) {
        drop_cur_dirs(runs(s.skip(2), |c: char| is_windows_separator(c)))
    } else {
        drop_cur_dirs(runs(s, |c: char| is_windows_separator(c)))
    }
}

/// `Path::file_name` of a Windows path: its last component unless that is
/// `..` or there is none (as for a drive root such as `E:\`).
pub open spec fn windows_file_name(s: Seq<char>) -> Option<Seq<char>> {
    let cs = windows_components(s);
    if cs.len() == 0 || cs.last() == seq!['.', '.'] {
        None
    } else {
        Some(cs.last())
    }
}

/// `Path::file_name` on `platform`.
pub open spec fn platform_file_name(s: Seq<char>, platform: Platform) -> Option<Seq<char>> {
    match platform {
        Platform::Windows => windows_file_name(s),
        _ => spec_file_name(s),
    }
}

fn char_is_windows_separator(c: char) -> (r: bool)
    ensures
        r == is_windows_separator(c),
{
    c == '/' || c == '\\'
}

/// `Path::file_name` of a Windows path, as characters.
pub fn windows_file_name_chars(path: &str) -> (r: Option<Vec<char>>)
    ensures
        r is Some == windows_file_name(path@) is Some,
        r matches Some(n) ==> n@ == windows_file_name(path@)->Some_0,
{
    let v = str_to_chars(path);
    let n = v.len();
    assert(separator_of(Separator::WindowsPath) == |c: char| is_windows_separator(c));
    let unc = n >= 2 && char_is_windows_separator(v[0]) && char_is_windows_separator(v[1]);
    let drive = !unc && n >= 2 && v[1] == ':' && (('a' <= v[0] && v[0] <= 'z') || ('A' <= v[0]
        && v[0] <= 'Z'));
    let cs = if drive {
        let rest = str_to_chars(slice_to_string(&v, 2, n).as_str());
        assert(rest@ =~= path@.skip(2));
        pieces_of(&rest, Separator::WindowsPath)
    } else {
        pieces_of(&v, Separator::WindowsPath)
    };
    let skipped: usize = if unc {
        2
    } else {
        0
    };
    if cs.len() <= skipped {
        return None;
    }
    let last = &cs[cs.len() - 1];
    if is_parent_dir(last) {
        None
    } else {
        Some(last.clone())
    }
}

/// `Path::file_name` of `path` on `platform`, as characters.
pub fn platform_file_name_chars(path: &str, platform: Platform) -> (r: Option<Vec<char>>)
    ensures
        r is Some == platform_file_name(path@, platform) is Some,
        r matches Some(n) ==> n@ == platform_file_name(path@, platform)->Some_0,
{
    match platform {
        Platform::Windows => windows_file_name_chars(path),
        _ => file_name_chars(path),
    }
}

fn is_parent_dir(p: &Vec<char>) -> (r: bool)
    ensures
        r == (p@ == seq!['.', '.']),
{
    if p.len() == 2 && p[0] == '.' && p[1] == '.' {
        assert(p@ =~= seq!['.', '.']);
        true
    } else {
        proof {
            if p@ == seq!['.', '.'] {
                assert(p@[0] == '.' && p@[1] == '.');
            }
        }
        false
    }
}

/// `Path::file_name`, as characters.
pub fn file_name_chars(path: &str) -> (r: Option<Vec<char>>)
    ensures
        r is Some == spec_file_name(path@) is Some,
        r matches Some(n) ==> n@ == spec_file_name(path@)->Some_0,
{
    let cs = components_of(path);
    if cs.len() == 0 {
        return None;
    }
    let last = &cs[cs.len() - 1];
    assert(last@ == path_components(path@).last());
    if is_parent_dir(last) {
        None
    } else {
        Some(last.clone())
    }
}

/// `Path::extension` of the name `name`.
pub fn extension_chars(name: &Vec<char>) -> (r: Option<Vec<char>>)
    ensures
        r is Some == spec_extension(name@) is Some,
        r matches Some(e) ==> e@ == spec_extension(name@)->Some_0,
{
    if is_parent_dir(name) {
        return None;
    }
    let n = name.len();
    let mut k: usize = n;
    assert(name@.take(n as int) =~= name@);
    while k > 0 && name[k - 1] != '.'
        invariant
            k <= n,
            n == name@.len(),
            last_dot(name@) == last_dot(name@.take(k as int)),
        decreases k,
    {
        assert(name@.take(k as int).drop_last() =~= name@.take(k - 1));
        k = k - 1;
    }
    proof {
        if k > 0 {
            assert(name@.take(k as int).last() == '.');
        } else {
            assert(name@.take(0) =~= Seq::<char>::empty());
        }
    }
    if k <= 1 {
        return None;
    }
    let mut out: Vec<char> = Vec::new();
    let mut i = k;
    while i < n
        invariant
            k <= i <= n,
            n == name@.len(),
            out@ == name@.subrange(k as int, i as int),
        decreases n - i,
    {
        out.push(name[i]);
        assert(name@.subrange(k as int, i + 1) =~= name@.subrange(k as int, i as int).push(name@[i as int]));
        i = i + 1;
    }
    assert(name@.skip(k as int) =~= name@.subrange(k as int, n as int));
    Some(out)
}

/// `to_ascii_lowercase`.
pub fn ascii_lower_chars(v: &Vec<char>) -> (r: Vec<char>)
    ensures
        r@ == ascii_lower(v@),
{
    let mut out: Vec<char> = Vec::new();
    let mut i: usize = 0;
    while i < v.len()
        invariant
            i <= v@.len(),
            out@ == ascii_lower(v@.take(i as int)),
        decreases v@.len() - i,
    {
        let c = v[i];
        let l = if 'A' <= c && c <= 'Z' {
            ((c as u8) + 32) as char
        } else {
            c
        };
        out.push(l);
        assert(ascii_lower(v@.take(i + 1)) =~= ascii_lower(v@.take(i as int)).push(l));
        i = i + 1;
    }
    assert(v@.take(v@.len() as int) =~= v@);
    out
}

// ---------------------------------------------------------------------------
// Ordering
// ---------------------------------------------------------------------------
/// Lexicographic order on sequences of numbers: a proper prefix is smaller.
pub open spec fn seq_lt(a: Seq<u64>, b: Seq<u64>) -> bool
    decreases a.len(),
{
    if a.len() == 0 {
        b.len() > 0
    } else if b.len() == 0 {
        false
    } else if a[0] != b[0] {
        a[0] < b[0]
    } else {
        seq_lt(a.drop_first(), b.drop_first())
    }
}

/// The key that orders paths as `Path`'s `Ord` does on paths without empty
/// or `.` components: component by component, which is the character order
/// with the separator below every other character.
pub open spec fn path_key(s: Seq<char>) -> Seq<u64> {
    s.map_values(
        |c: char|
            if c == '/' {
                0u64
            } else {
                (((c as u32) as u64) + 1) as u64
            },
    )
}

/// The key that orders strings as `String`'s `Ord` does: by character.
pub open spec fn text_key(s: Seq<char>) -> Seq<u64> {
    s.map_values(|c: char| (c as u32) as u64)
}

pub proof fn lemma_seq_lt_irreflexive(a: Seq<u64>)
    ensures
        !seq_lt(a, a),
    decreases a.len(),
{
    if a.len() > 0 {
        lemma_seq_lt_irreflexive(a.drop_first());
    }
}

pub proof fn lemma_seq_lt_transitive(a: Seq<u64>, b: Seq<u64>, c: Seq<u64>)
    requires
        seq_lt(a, b),
        seq_lt(b, c),
    ensures
        seq_lt(a, c),
    decreases a.len(),
{
    if a.len() > 0 && b.len() > 0 && c.len() > 0 && a[0] == b[0] && b[0] == c[0] {
        lemma_seq_lt_transitive(a.drop_first(), b.drop_first(), c.drop_first());
    }
}

pub proof fn lemma_seq_lt_total(a: Seq<u64>, b: Seq<u64>)
    ensures
        a == b || seq_lt(a, b) || seq_lt(b, a),
    decreases a.len(),
{
    if a.len() > 0 && b.len() > 0 && a[0] == b[0] {
        lemma_seq_lt_total(a.drop_first(), b.drop_first());
        if a.drop_first() == b.drop_first() {
            assert(a =~= seq![a[0]] + a.drop_first());
            assert(b =~= seq![b[0]] + b.drop_first());
        }
    } else if a.len() == 0 && b.len() == 0 {
        assert(a =~= b);
    }
}

pub proof fn lemma_seq_lt_asymmetric(a: Seq<u64>, b: Seq<u64>)
    requires
        seq_lt(a, b),
    ensures
        !seq_lt(b, a),
{
    if seq_lt(b, a) {
        lemma_seq_lt_transitive(a, b, a);
        lemma_seq_lt_irreflexive(a);
    }
}

/// Computes `seq_lt`.
pub fn key_lt(a: &Vec<u64>, b: &Vec<u64>) -> (r: bool)
    ensures
        r == seq_lt(a@, b@),
{
    let mut i: usize = 0;
    assert(a@.skip(0) =~= a@);
    assert(b@.skip(0) =~= b@);
    while i < a.len() && i < b.len() && a[i] == b[i]
        invariant
            i <= a@.len(),
            i <= b@.len(),
            seq_lt(a@, b@) == seq_lt(a@.skip(i as int), b@.skip(i as int)),
        decreases a@.len() - i,
    {
        assert(a@.skip(i as int).drop_first() =~= a@.skip(i + 1));
        assert(b@.skip(i as int).drop_first() =~= b@.skip(i + 1));
        i = i + 1;
    }
    if i == a.len() {
        i < b.len()
    } else if i == b.len() {
        false
    } else {
        assert(a@.skip(i as int)[0] == a@[i as int]);
        assert(b@.skip(i as int)[0] == b@[i as int]);
        a[i] < b[i]
    }
}

pub fn path_key_of(s: &str) -> (r: Vec<u64>)
    ensures
        r@ == path_key(s@),
{
    let v = str_to_chars(s);
    let mut out: Vec<u64> = Vec::new();
    let mut i: usize = 0;
    while i < v.len()
        invariant
            i <= v@.len(),
            v@ == s@,
            out@ == path_key(v@.take(i as int)),
        decreases v@.len() - i,
    {
        let c = v[i];
        let k: u64 = if c == '/' {
            0
        } else {
            ((c as u32) as u64) + 1
        };
        out.push(k);
        assert(path_key(v@.take(i + 1)) =~= path_key(v@.take(i as int)).push(k));
        i = i + 1;
    }
    assert(v@.take(v@.len() as int) =~= v@);
    out
}

pub fn text_key_of(s: &str) -> (r: Vec<u64>)
    ensures
        r@ == text_key(s@),
{
    let v = str_to_chars(s);
    let mut out: Vec<u64> = Vec::new();
    let mut i: usize = 0;
    while i < v.len()
        invariant
            i <= v@.len(),
            v@ == s@,
            out@ == text_key(v@.take(i as int)),
        decreases v@.len() - i,
    {
        let k = (v[i] as u32) as u64;
        out.push(k);
        assert(text_key(v@.take(i + 1)) =~= text_key(v@.take(i as int)).push(k));
        i = i + 1;
    }
    assert(v@.take(v@.len() as int) =~= v@);
    out
}

/// The positions `0..keys.len()` ordered by their keys, keeping the order of
/// positions with equal keys (a stable insertion sort).
pub fn sorted_positions(keys: &Vec<Vec<u64>>) -> (r: Vec<usize>)
    ensures
        r@.len() == keys@.len(),
        r@.no_duplicates(),
        forall|k: int| 0 <= k < r@.len() ==> r@[k] < keys@.len(),
        forall|i: int, j: int|
            0 <= i < j < r@.len() ==> !seq_lt(keys@[r@[j] as int]@, keys@[r@[i] as int]@),
{
    let n = keys.len();
    let mut out: Vec<usize> = Vec::new();
    let mut m: usize = 0;
    while m < n
        invariant
            m <= n,
            n == keys@.len(),
            out@.len() == m,
            out@.no_duplicates(),
            forall|k: int| 0 <= k < out@.len() ==> out@[k] < m,
            forall|i: int, j: int|
                0 <= i < j < out@.len() ==> !seq_lt(keys@[out@[j] as int]@, keys@[out@[i] as int]@),
        decreases n - m,
    {
        let x = &keys[m];
        let mut j = out.len();
        while j > 0 && key_lt(x, &keys[out[j - 1]])
            invariant
                j <= out@.len(),
                forall|k: int| 0 <= k < out@.len() ==> out@[k] < m,
                m < keys@.len(),
                x == keys@[m as int],
                forall|k: int| j <= k < out@.len() ==> seq_lt(x@, keys@[out@[k] as int]@),
            decreases j,
        {
            j = j - 1;
        }
        proof {
            assert forall|i: int| 0 <= i < j implies !seq_lt(x@, #[trigger] keys@[out@[i] as int]@) by {
                let a = keys@[out@[i] as int]@;
                let b = keys@[out@[j - 1] as int]@;
                if i < j - 1 {
                    assert(!seq_lt(b, a));
                }
                assert(!seq_lt(x@, b));
                if seq_lt(x@, a) {
                    lemma_seq_lt_total(a, b);
                    if seq_lt(a, b) {
                        lemma_seq_lt_transitive(x@, a, b);
                    }
                }
            }
            assert forall|k: int| j <= k < out@.len() implies !seq_lt(keys@[out@[k] as int]@, x@) by {
                lemma_seq_lt_asymmetric(x@, keys@[out@[k] as int]@);
            }
        }
        let ghost before = out@;
        out.insert(j, m);
        proof {
            assert forall|k: int| 0 <= k < out@.len() implies out@[k] < m + 1 by {
                if k < j {
                    assert(out@[k] == before[k]);
                } else if k > j {
                    assert(out@[k] == before[k - 1]);
                }
            }
            assert(out@.no_duplicates()) by {
                assert forall|a: int, b: int| 0 <= a < b < out@.len() implies out@[a] != out@[b] by {
                    if a < j && b < j {
                        assert(out@[a] == before[a] && out@[b] == before[b]);
                    } else if a < j && b == j {
                        assert(out@[a] == before[a]);
                    } else if a < j {
                        assert(out@[a] == before[a] && out@[b] == before[b - 1]);
                    } else if a == j {
                        assert(out@[b] == before[b - 1]);
                    } else {
                        assert(out@[a] == before[a - 1] && out@[b] == before[b - 1]);
                    }
                }
            }
            assert forall|a: int, b: int| 0 <= a < b < out@.len() implies !seq_lt(
                keys@[out@[b] as int]@,
                keys@[out@[a] as int]@,
            ) by {
                if a < j && b < j {
                    assert(out@[a] == before[a] && out@[b] == before[b]);
                } else if a < j && b == j {
                    assert(out@[a] == before[a]);
                } else if a < j {
                    assert(out@[a] == before[a] && out@[b] == before[b - 1]);
                } else if a == j {
                    assert(out@[b] == before[b - 1]);
                } else {
                    assert(out@[a] == before[a - 1] && out@[b] == before[b - 1]);
                }
            }
        }
        m = m + 1;
    }
    out
}


/// Whether `s` starts at the file system root.
pub open spec fn rooted(s: Seq<char>) -> bool {
    s.len() > 0 && s[0] == '/'
}

/// `Path::starts_with`: `base`'s root and components begin `path`'s.
pub open spec fn path_under(path: Seq<char>, base: Seq<char>) -> bool {
    let pc = path_components(path);
    let bc = path_components(base);
    if rooted(base) {
        rooted(path) && bc.len() <= pc.len() && pc.take(bc.len() as int) == bc
    } else if rooted(path) {
        bc.len() == 0
    } else {
        bc.len() <= pc.len() && pc.take(bc.len() as int) == bc
    }
}

/// The index of the longest of `mounts` under which `path` lies; the last
/// one among equally long ones.
pub open spec fn deepest_mount_index(path: Seq<char>, mounts: Seq<Seq<char>>) -> Option<int>
    decreases mounts.len(),
{
    if mounts.len() == 0 {
        None
    } else {
        let prev = deepest_mount_index(path, mounts.drop_last());
        if path_under(path, mounts.last()) && (prev matches Some(k) ==> mounts[k].len() <= mounts.last().len()) {
            Some(mounts.len() - 1)
        } else {
            prev
        }
    }
}

proof fn lemma_deepest_prefix(path: Seq<char>, mounts: Seq<Seq<char>>, i: int)
    requires
        0 <= i <= mounts.len(),
    ensures
        deepest_mount_index(path, mounts.take(i)) matches Some(k) ==> 0 <= k < i,
    decreases i,
{
    if i > 0 {
        assert(mounts.take(i).drop_last() =~= mounts.take(i - 1));
        lemma_deepest_prefix(path, mounts, i - 1);
    }
}

fn pieces_equal(a: &Vec<char>, b: &Vec<char>) -> (r: bool)
    ensures
        r == (a@ == b@),
{
    if a.len() != b.len() {
        return false;
    }
    let mut i: usize = 0;
    while i < a.len()
        invariant
            i <= a@.len(),
            a@.len() == b@.len(),
            forall|k: int| 0 <= k < i ==> a@[k] == b@[k],
        decreases a@.len() - i,
    {
        if a[i] != b[i] {
            return false;
        }
        i = i + 1;
    }
    assert(a@ =~= b@);
    true
}

/// Whether `path` lies under `base`, component by component.
pub fn is_under(path: &str, base: &str) -> (r: bool)
    ensures
        r == path_under(path@, base@),
{
    let pv = str_to_chars(path);
    let bv = str_to_chars(base);
    let path_rooted = pv.len() > 0 && pv[0] == '/';
    let base_rooted = bv.len() > 0 && bv[0] == '/';
    let pc = components_of(path);
    let bc = components_of(base);
    let ghost ps = path_components(path@);
    let ghost bs = path_components(base@);
    assert(path_rooted == rooted(path@));
    assert(base_rooted == rooted(base@));
    if !base_rooted && path_rooted {
        return bc.len() == 0;
    }
    if base_rooted && !path_rooted {
        return false;
    }
    if bc.len() > pc.len() {
        return false;
    }
    let mut i: usize = 0;
    while i < bc.len()
        invariant
            i <= bc@.len(),
            bc@.len() <= pc@.len(),
            bc@.len() == bs.len(),
            pc@.len() == ps.len(),
            forall|k: int| 0 <= k < bc@.len() ==> (#[trigger] bc@[k])@ == bs[k],
            forall|k: int| 0 <= k < pc@.len() ==> (#[trigger] pc@[k])@ == ps[k],
            forall|k: int| 0 <= k < i ==> bs[k] == ps[k],
            path_rooted == rooted(path@),
            base_rooted == rooted(base@),
            base_rooted == path_rooted,
            ps == path_components(path@),
            bs == path_components(base@),
        decreases bc@.len() - i,
    {
        if !pieces_equal(&bc[i], &pc[i]) {
            assert(bc@[i as int]@ == bs[i as int]);
            assert(pc@[i as int]@ == ps[i as int]);
            assert(bs[i as int] != ps[i as int]);
            assert(ps.take(bs.len() as int)[i as int] == ps[i as int]);
            assert(ps.take(bs.len() as int) != bs);
            return false;
        }
        i = i + 1;
    }
    assert(ps.take(bs.len() as int) =~= bs);
    true
}

/// The longest of `mounts` under which `path` lies (see `deepest_mount_index`).
pub fn deepest_mount(path: &str, mounts: &Vec<String>) -> (r: Option<usize>)
    ensures
        match deepest_mount_index(path@, mounts@.map_values(|m: String| m@)) {
            Some(k) => r == Some(k as usize),
            None => r is None,
        },
{
    let ghost ms = mounts@.map_values(|m: String| m@);
    let mut best: Option<usize> = None;
    let mut best_len: usize = 0;
    let mut i: usize = 0;
    assert(ms.take(0) =~= Seq::<Seq<char>>::empty());
    while i < mounts.len()
        invariant
            i <= mounts@.len(),
            ms == mounts@.map_values(|m: String| m@),
            match deepest_mount_index(path@, ms.take(i as int)) {
                Some(k) => best == Some(k as usize) && best_len == ms[k].len(),
                None => best is None,
            },
        decreases mounts@.len() - i,
    {
        let ghost cur = ms.take(i + 1);
        assert(cur.drop_last() =~= ms.take(i as int));
        assert(cur.last() == mounts@[i as int]@);
        proof {
            lemma_deepest_prefix(path@, ms, i as int);
        }
        let len = mounts[i].unicode_len();
        if is_under(path, mounts[i].as_str()) {
            let take = match best {
                None => true,
                Some(_) => best_len <= len,
            };
            if take {
                best = Some(i);
                best_len = len;
            }
        }
        proof {
            match deepest_mount_index(path@, ms.take(i as int)) {
                Some(k) => {
                    assert(cur[k] == ms[k]);
                },
                None => {},
            }
        }
        i = i + 1;
    }
    assert(ms.take(mounts@.len() as int) =~= ms);
    best
}

/// The path of the folder holding `s` (`PathBuf::pop`), rebuilt from its
/// components: none for a root or an empty path.
pub open spec fn parent_of(s: Seq<char>) -> Option<Seq<char>> {
    let cs = path_components(s);
    if cs.len() == 0 {
        None
    } else if rooted(s) {
        Some(seq!['/'] + crate::text::join_with(cs.drop_last(), '/'))
    } else {
        Some(crate::text::join_with(cs.drop_last(), '/'))
    }
}

pub fn parent_path(path: &str) -> (r: Option<String>)
    ensures
        match parent_of(path@) {
            Some(p) => r matches Some(q) && q@ == p,
            None => r is None,
        },
{
    let v = str_to_chars(path);
    let cs = components_of(path);
    let ghost ps = path_components(path@);
    if cs.len() == 0 {
        return None;
    }
    let n = cs.len() - 1;
    let mut out: Vec<char> = Vec::new();
    if v.len() > 0 && v[0] == '/' {
        out.push('/');
    }
    let ghost head = out@;
    let mut joined: Vec<char> = Vec::new();
    let mut i: usize = 0;
    assert(ps.drop_last().take(0) =~= Seq::<Seq<char>>::empty());
    while i < n
        invariant
            i <= n,
            n + 1 == cs@.len(),
            cs@.len() == ps.len(),
            forall|k: int| 0 <= k < cs@.len() ==> (#[trigger] cs@[k])@ == ps[k],
            joined@ == crate::text::join_with(ps.drop_last().take(i as int), '/'),
        decreases n - i,
    {
        let ghost cur = ps.drop_last().take(i + 1);
        assert(cur.drop_last() =~= ps.drop_last().take(i as int));
        assert(cur.last() == ps[i as int]);
        if i > 0 {
            joined.push('/');
        }
        let piece = &cs[i];
        let mut j: usize = 0;
        let ghost base = joined@;
        while j < piece.len()
            invariant
                j <= piece@.len(),
                joined@ == base + piece@.take(j as int),
            decreases piece@.len() - j,
        {
            joined.push(piece[j]);
            assert(piece@.take(j + 1) =~= piece@.take(j as int).push(piece@[j as int]));
            assert(joined@ =~= base + piece@.take(j + 1));
            j = j + 1;
        }
        assert(piece@.take(piece@.len() as int) =~= piece@);
        if i == 0 {
            assert(joined@ =~= ps[0]);
        }
        i = i + 1;
    }
    assert(ps.drop_last().take(n as int) =~= ps.drop_last());
    let mut k: usize = 0;
    let ghost start = out@;
    while k < joined.len()
        invariant
            k <= joined@.len(),
            out@ == start + joined@.take(k as int),
        decreases joined@.len() - k,
    {
        out.push(joined[k]);
        assert(joined@.take(k + 1) =~= joined@.take(k as int).push(joined@[k as int]));
        assert(out@ =~= start + joined@.take(k + 1));
        k = k + 1;
    }
    assert(joined@.take(joined@.len() as int) =~= joined@);
    Some(crate::text::chars_to_string(&out))
}

} // verus!
