//! Character classes and the character-sequence operations that the rest of
//! the library is specified with: trimming, splitting into runs, joining,
//! substring replacement and string building.
use vstd::prelude::*;

verus! {

/// Unicode `White_Space`, the set that `char::is_whitespace` and `str::trim` use.
pub open spec fn is_white_space(c: char) -> bool {
    let u = c as u32;
    ||| 0x9 <= u <= 0xd
    ||| u == 0x20
    ||| u == 0x85
    ||| u == 0xa0
    ||| u == 0x1680
    ||| 0x2000 <= u <= 0x200a
    ||| u == 0x2028
    ||| u == 0x2029
    ||| u == 0x202f
    ||| u == 0x205f
    ||| u == 0x3000
}

/// Unicode general category `Cc`, the set that `char::is_control` tests.
pub open spec fn is_control(c: char) -> bool {
    let u = c as u32;
    u <= 0x1f || (0x7f <= u && u <= 0x9f)
}

/// ASCII decimal digit.
pub open spec fn is_ascii_digit(c: char) -> bool {
    '0' <= c && c <= '9'
}

pub open spec fn is_slash(c: char) -> bool {
    c == '/'
}

/// A separator of a Windows path: `/` or `\`.
pub open spec fn is_windows_separator(c: char) -> bool {
    c == '/' || c == '\\'
}

pub open spec fn is_dot(c: char) -> bool {
    c == '.'
}

pub fn char_is_white_space(c: char) -> (r: bool)
    ensures
        r == is_white_space(c),
{
    let u = c as u32;
    (0x9 <= u && u <= 0xd) || u == 0x20 || u == 0x85 || u == 0xa0 || u == 0x1680 || (0x2000
        <= u && u <= 0x200a) || u == 0x2028 || u == 0x2029 || u == 0x202f || u == 0x205f || u
        == 0x3000
}

pub fn char_is_control(c: char) -> (r: bool)
    ensures
        r == is_control(c),
{
    let u = c as u32;
    u <= 0x1f || (0x7f <= u && u <= 0x9f)
}

pub fn char_is_ascii_digit(c: char) -> (r: bool)
    ensures
        r == is_ascii_digit(c),
{
    '0' <= c && c <= '9'
}

// ---------------------------------------------------------------------------
// Trimming
// ---------------------------------------------------------------------------
/// `s` without its leading characters that satisfy `p`.
pub open spec fn trim_start_by(s: Seq<char>, p: spec_fn(char) -> bool) -> Seq<char>
    decreases s.len(),
{
    if s.len() > 0 && p(s[0]) {
        trim_start_by(s.drop_first(), p)
    } else {
        s
    }
}

/// `s` without its trailing characters that satisfy `p`.
pub open spec fn trim_end_by(s: Seq<char>, p: spec_fn(char) -> bool) -> Seq<char>
    decreases s.len(),
{
    if s.len() > 0 && p(s.last()) {
        trim_end_by(s.drop_last(), p)
    } else {
        s
    }
}

/// `s` without the leading and trailing characters that satisfy `p`
/// (`str::trim_matches` with a predicate).
pub open spec fn trim_by(s: Seq<char>, p: spec_fn(char) -> bool) -> Seq<char> {
    trim_end_by(trim_start_by(s, p), p)
}

/// `str::trim`: no leading or trailing white space.
pub open spec fn trim_ws(s: Seq<char>) -> Seq<char> {
    trim_by(s, |c: char| is_white_space(c))
}

pub proof fn lemma_trim_start_skip(s: Seq<char>, p: spec_fn(char) -> bool, i: int)
    requires
        0 <= i <= s.len(),
        forall|k: int| 0 <= k < i ==> p(#[trigger] s[k]),
    ensures
        trim_start_by(s, p) == trim_start_by(s.skip(i), p),
    decreases i,
{
    if i > 0 {
        lemma_trim_start_skip(s.drop_first(), p, i - 1);
        assert(s.drop_first().skip(i - 1) =~= s.skip(i));
    } else {
        assert(s.skip(0) =~= s);
    }
}

pub proof fn lemma_trim_end_take(s: Seq<char>, p: spec_fn(char) -> bool, j: int)
    requires
        0 <= j <= s.len(),
        forall|k: int| j <= k < s.len() ==> p(#[trigger] s[k]),
    ensures
        trim_end_by(s, p) == trim_end_by(s.take(j), p),
    decreases s.len() - j,
{
    if j < s.len() {
        lemma_trim_end_take(s.drop_last(), p, j);
        assert(s.drop_last().take(j) =~= s.take(j));
    } else {
        assert(s.take(j) =~= s);
    }
}

/// The characters that `trim_bounds` removes: `'.'` when `dots`, white space otherwise.
pub open spec fn trim_hit(dots: bool, c: char) -> bool {
    if dots {
        is_dot(c)
    } else {
        is_white_space(c)
    }
}

fn char_trim_hit(dots: bool, c: char) -> (r: bool)
    ensures
        r == trim_hit(dots, c),
{
    if dots {
        c == '.'
    } else {
        char_is_white_space(c)
    }
}

/// Trimming keeps only characters of `s`, and leaves no trimmed character at either end.
pub proof fn lemma_trim_shape(s: Seq<char>, p: spec_fn(char) -> bool, q: spec_fn(char) -> bool)
    requires
        forall|k: int| 0 <= k < s.len() ==> q(#[trigger] s[k]),
    ensures
        forall|k: int| 0 <= k < trim_by(s, p).len() ==> q(#[trigger] trim_by(s, p)[k]),
        trim_by(s, p).len() > 0 ==> !p(trim_by(s, p)[0]) && !p(trim_by(s, p).last()),
{
    lemma_trim_start_shape(s, p, q);
    let t = trim_start_by(s, p);
    lemma_trim_end_shape(t, p, q);
    let u = trim_end_by(t, p);
    if u.len() > 0 {
        assert(u[0] == t[0]);
    }
}

proof fn lemma_trim_start_shape(s: Seq<char>, p: spec_fn(char) -> bool, q: spec_fn(char) -> bool)
    requires
        forall|k: int| 0 <= k < s.len() ==> q(#[trigger] s[k]),
    ensures
        forall|k: int| 0 <= k < trim_start_by(s, p).len() ==> q(#[trigger] trim_start_by(s, p)[k]),
        trim_start_by(s, p).len() > 0 ==> !p(trim_start_by(s, p)[0]),
    decreases s.len(),
{
    if s.len() > 0 && p(s[0]) {
        let d = s.drop_first();
        assert forall|k: int| 0 <= k < d.len() implies q(#[trigger] d[k]) by {
            assert(d[k] == s[k + 1]);
        }
        lemma_trim_start_shape(d, p, q);
    }
}

/// Trimming the end keeps a prefix.
proof fn lemma_trim_end_shape(s: Seq<char>, p: spec_fn(char) -> bool, q: spec_fn(char) -> bool)
    requires
        forall|k: int| 0 <= k < s.len() ==> q(#[trigger] s[k]),
    ensures
        forall|k: int| 0 <= k < trim_end_by(s, p).len() ==> q(#[trigger] trim_end_by(s, p)[k]),
        trim_end_by(s, p).len() > 0 ==> !p(trim_end_by(s, p).last()),
        trim_end_by(s, p).len() <= s.len(),
        forall|k: int| 0 <= k < trim_end_by(s, p).len() ==> trim_end_by(s, p)[k] == s[k],
    decreases s.len(),
{
    if s.len() > 0 && p(s.last()) {
        let d = s.drop_last();
        lemma_trim_end_shape(d, p, q);
        assert forall|k: int| 0 <= k < trim_end_by(s, p).len() implies trim_end_by(s, p)[k]
            == s[k] by {
            assert(d[k] == s[k]);
        }
    }
}

/// Trimming leaves alone a sequence whose ends are not trimmed characters.
pub proof fn lemma_trim_noop(s: Seq<char>, p: spec_fn(char) -> bool)
    requires
        s.len() > 0 ==> !p(s[0]) && !p(s.last()),
    ensures
        trim_by(s, p) == s,
{
}

/// A non-empty sequence with no separator is a single run.
pub proof fn lemma_runs_single(s: Seq<char>, sep: spec_fn(char) -> bool)
    requires
        forall|k: int| 0 <= k < s.len() ==> !sep(#[trigger] s[k]),
    ensures
        runs(s, sep) == (if s.len() == 0 {
            Seq::<Seq<char>>::empty()
        } else {
            seq![s]
        }),
    decreases s.len(),
{
    if s.len() > 0 {
        let d = s.drop_last();
        lemma_runs_single(d, sep);
        if s.len() >= 2 {
            assert(!sep(s[s.len() - 2]));
            assert(d.push(s.last()) =~= s);
            assert(runs(s, sep) =~= seq![s]);
        } else {
            assert(seq![s.last()] =~= s);
            assert(runs(s, sep) =~= seq![s]);
        }
    }
}

/// Every character of every run satisfies what every character of `s` satisfies.
pub proof fn lemma_runs_chars(s: Seq<char>, sep: spec_fn(char) -> bool, q: spec_fn(char) -> bool)
    requires
        forall|k: int| 0 <= k < s.len() ==> q(#[trigger] s[k]),
    ensures
        forall|i: int, k: int|
            0 <= i < runs(s, sep).len() && 0 <= k < runs(s, sep)[i].len() ==> q(
                #[trigger] runs(s, sep)[i][k],
            ),
    decreases s.len(),
{
    if s.len() > 0 {
        let d = s.drop_last();
        lemma_runs_chars(d, sep, q);
        let prev = runs(d, sep);
        let r = runs(s, sep);
        assert(q(s.last()));
        assert forall|i: int, k: int| 0 <= i < r.len() && 0 <= k < r[i].len() implies q(
            #[trigger] r[i][k],
        ) by {
            if i < prev.len() && r[i] == prev[i] {
            } else if i < prev.len() {
                if k < prev[i].len() {
                    assert(r[i][k] == prev[i][k]);
                }
            }
        }
    }
}

/// The bounds `[a, b)` of what trimming the white space (when `dots` is
/// false) or the `'.'` characters (when `dots` is true) leaves of `v`.
pub fn trim_bounds(v: &Vec<char>, dots: bool) -> (r: (usize, usize))
    ensures
        r.0 <= r.1 <= v@.len(),
        !dots ==> trim_ws(v@) == v@.subrange(r.0 as int, r.1 as int),
        dots ==> trim_by(v@, |c: char| is_dot(c)) == v@.subrange(r.0 as int, r.1 as int),
{
    let ghost p = |c: char| trim_hit(dots, c);
    let n = v.len();
    let mut a: usize = 0;
    while a < n && char_trim_hit(dots, v[a])
        invariant
            a <= n,
            n == v@.len(),
            p == (|c: char| trim_hit(dots, c)),
            forall|k: int| 0 <= k < a ==> p(#[trigger] v@[k]),
        decreases n - a,
    {
        a = a + 1;
    }
    proof {
        lemma_trim_start_skip(v@, p, a as int);
    }
    let ghost rest = v@.skip(a as int);
    assert(rest.len() == 0 || !p(rest[0]));
    assert(trim_start_by(rest, p) == rest);
    let mut b: usize = n;
    while b > a && char_trim_hit(dots, v[b - 1])
        invariant
            a <= b <= n,
            n == v@.len(),
            p == (|c: char| trim_hit(dots, c)),
            forall|k: int| b <= k < n ==> p(#[trigger] v@[k]),
        decreases b,
    {
        b = b - 1;
    }
    proof {
        assert forall|k: int| (b - a) <= k < rest.len() implies p(#[trigger] rest[k]) by {
            assert(rest[k] == v@[a + k]);
        }
        lemma_trim_end_take(rest, p, (b - a) as int);
        let t = rest.take((b - a) as int);
        assert(t =~= v@.subrange(a as int, b as int));
        if t.len() > 0 {
            assert(t.last() == v@[b - 1]);
        }
        assert(trim_end_by(t, p) == t);
        if dots {
            assert(p =~= |c: char| is_dot(c));
        } else {
            assert(p =~= |c: char| is_white_space(c));
        }
    }
    (a, b)
}

// ---------------------------------------------------------------------------
// Splitting into maximal runs and joining
// ---------------------------------------------------------------------------
/// The maximal runs of characters of `s` that do not satisfy `sep`, in order
/// (`str::split_whitespace` when `sep` is white space; the non-empty pieces
/// of `str::split` otherwise).
pub open spec fn runs(s: Seq<char>, sep: spec_fn(char) -> bool) -> Seq<Seq<char>>
    decreases s.len(),
{
    if s.len() == 0 {
        Seq::empty()
    } else {
        let prev = runs(s.drop_last(), sep);
        let c = s.last();
        if sep(c) {
            prev
        } else if s.len() >= 2 && !sep(s[s.len() - 2]) && prev.len() > 0 {
            prev.update(prev.len() - 1, prev.last().push(c))
        } else {
            prev.push(seq![c])
        }
    }
}

/// `str::split_whitespace`.
pub open spec fn words(s: Seq<char>) -> Seq<Seq<char>> {
    runs(s, |c: char| is_white_space(c))
}

/// The pieces joined with `sep` between consecutive pieces (`[T]::join`).
pub open spec fn join_with(pieces: Seq<Seq<char>>, sep: char) -> Seq<char>
    decreases pieces.len(),
{
    if pieces.len() == 0 {
        Seq::empty()
    } else if pieces.len() == 1 {
        pieces[0]
    } else {
        join_with(pieces.drop_last(), sep) + seq![sep] + pieces.last()
    }
}

/// Every run is non-empty and free of separators; the runs are non-empty when
/// the last character is no separator.
pub proof fn lemma_runs_shape(s: Seq<char>, sep: spec_fn(char) -> bool)
    ensures
        forall|i: int|
            0 <= i < runs(s, sep).len() ==> (#[trigger] runs(s, sep)[i]).len() > 0 && forall|
                k: int,
            |
                0 <= k < runs(s, sep)[i].len() ==> !sep(#[trigger] runs(s, sep)[i][k]),
        s.len() > 0 && !sep(s.last()) ==> runs(s, sep).len() > 0,
    decreases s.len(),
{
    if s.len() > 0 {
        lemma_runs_shape(s.drop_last(), sep);
        let prev = runs(s.drop_last(), sep);
        let r = runs(s, sep);
        let c = s.last();
        if sep(c) {
        } else if s.len() >= 2 && !sep(s[s.len() - 2]) && prev.len() > 0 {
            assert forall|i: int| 0 <= i < r.len() implies (#[trigger] r[i]).len() > 0 && forall|
                k: int,
            |
                0 <= k < r[i].len() ==> !sep(#[trigger] r[i][k]) by {
                if i == prev.len() - 1 {
                    assert forall|k: int| 0 <= k < r[i].len() implies !sep(#[trigger] r[i][k]) by {
                        if k < prev.last().len() {
                            assert(r[i][k] == prev[i][k]);
                        }
                    }
                } else {
                    assert(r[i] == prev[i]);
                }
            }
        } else {
            assert forall|i: int| 0 <= i < r.len() implies (#[trigger] r[i]).len() > 0 && forall|
                k: int,
            |
                0 <= k < r[i].len() ==> !sep(#[trigger] r[i][k]) by {
                if i < prev.len() {
                    assert(r[i] == prev[i]);
                }
            }
        }
    }
}

/// Joining non-empty pieces gives an empty sequence exactly when there are no pieces.
pub proof fn lemma_join_empty(pieces: Seq<Seq<char>>, sep: char)
    requires
        forall|i: int| 0 <= i < pieces.len() ==> (#[trigger] pieces[i]).len() > 0,
    ensures
        (join_with(pieces, sep).len() == 0) == (pieces.len() == 0),
    decreases pieces.len(),
{
    if pieces.len() > 1 {
        lemma_join_empty(pieces.drop_last(), sep);
    }
}

/// Every character of a join is a character of one of the pieces, or the separator.
pub proof fn lemma_join_chars(pieces: Seq<Seq<char>>, sep: char, q: spec_fn(char) -> bool)
    requires
        q(sep),
        forall|i: int, k: int|
            0 <= i < pieces.len() && 0 <= k < pieces[i].len() ==> q(#[trigger] pieces[i][k]),
    ensures
        forall|k: int| 0 <= k < join_with(pieces, sep).len() ==> q(#[trigger] join_with(pieces, sep)[k]),
    decreases pieces.len(),
{
    let j = join_with(pieces, sep);
    if pieces.len() == 1 {
        assert forall|k: int| 0 <= k < j.len() implies q(#[trigger] j[k]) by {
            assert(j[k] == pieces[0][k]);
        }
    } else if pieces.len() > 1 {
        let head = pieces.drop_last();
        assert forall|i: int, k: int| 0 <= i < head.len() && 0 <= k < head[i].len() implies q(
            #[trigger] head[i][k],
        ) by {
            assert(head[i] == pieces[i]);
        }
        lemma_join_chars(head, sep, q);
        let jh = join_with(head, sep);
        assert forall|k: int| 0 <= k < j.len() implies q(#[trigger] j[k]) by {
            if k < jh.len() {
                assert(j[k] == jh[k]);
            } else if k == jh.len() {
                assert(j[k] == sep);
            } else {
                assert(j[k] == pieces.last()[k - jh.len() - 1]);
                assert(pieces.last() == pieces[pieces.len() - 1]);
            }
        }
    }
}

/// Appending a character to the last piece appends it to the join.
pub proof fn lemma_join_extend_last(pieces: Seq<Seq<char>>, sep: char, c: char)
    requires
        pieces.len() > 0,
    ensures
        join_with(pieces.update(pieces.len() - 1, pieces.last().push(c)), sep) == join_with(
            pieces,
            sep,
        ).push(c),
{
    let up = pieces.update(pieces.len() - 1, pieces.last().push(c));
    if pieces.len() == 1 {
        assert(up[0] == pieces[0].push(c));
    } else {
        assert(up.drop_last() =~= pieces.drop_last());
        assert(join_with(up, sep) =~= join_with(pieces, sep).push(c));
    }
}

/// Pushing a piece appends the separator (when there were pieces) and the piece.
pub proof fn lemma_join_push(pieces: Seq<Seq<char>>, sep: char, w: Seq<char>)
    ensures
        join_with(pieces.push(w), sep) == (if pieces.len() == 0 {
            w
        } else {
            join_with(pieces, sep) + seq![sep] + w
        }),
{
    assert(pieces.push(w).drop_last() =~= pieces);
    if pieces.len() == 0 {
        assert(pieces.push(w)[0] == w);
    }
}

/// The join of the runs of `v` (`split_whitespace().join("_")` when `ws`
/// is true; the `'/'` separated components joined by `'/'` otherwise).
pub fn join_runs(v: &Vec<char>, ws: bool, joiner: char) -> (r: Vec<char>)
    ensures
        ws ==> r@ == join_with(words(v@), joiner),
        !ws ==> r@ == join_with(runs(v@, |c: char| is_slash(c)), joiner),
{
    let ghost sep: spec_fn(char) -> bool = if ws {
        |c: char| is_white_space(c)
    } else {
        |c: char| is_slash(c)
    };
    let mut out: Vec<char> = Vec::new();
    let n = v.len();
    let mut i: usize = 0;
    assert(v@.take(0) =~= Seq::<char>::empty());
    while i < n
        invariant
            i <= n,
            n == v@.len(),
            sep == (if ws {
                |c: char| is_white_space(c)
            } else {
                |c: char| is_slash(c)
            }),
            out@ == join_with(runs(v@.take(i as int), sep), joiner),
        decreases n - i,
    {
        let c = v[i];
        let is_sep = if ws {
            char_is_white_space(c)
        } else {
            c == '/'
        };
        let ghost pre = v@.take(i as int);
        let ghost cur = v@.take(i + 1);
        assert(cur.drop_last() =~= pre);
        assert(cur.last() == c);
        proof {
            lemma_runs_shape(pre, sep);
            lemma_join_empty(runs(pre, sep), joiner);
        }
        if is_sep {
        } else {
            let prev_word = i > 0 && {
                let d = v[i - 1];
                if ws {
                    !char_is_white_space(d)
                } else {
                    d != '/'
                }
            };
            if prev_word {
                assert(cur[cur.len() - 2] == v@[i - 1]);
                assert(pre.last() == v@[i - 1]);
                proof {
                    lemma_join_extend_last(runs(pre, sep), joiner, c);
                }
                out.push(c);
            } else {
                proof {
                    if i > 0 {
                        assert(cur[cur.len() - 2] == v@[i - 1]);
                    }
                    lemma_join_push(runs(pre, sep), joiner, seq![c]);
                }
                if out.len() > 0 {
                    out.push(joiner);
                }
                out.push(c);
                assert(out@ =~= join_with(runs(cur, sep), joiner));
            }
        }
        i = i + 1;
    }
    assert(v@.take(n as int) =~= v@);
    proof {
        if ws {
            assert(sep == |c: char| is_white_space(c));
        } else {
            assert(sep == |c: char| is_slash(c));
        }
    }
    out
}

/// The separators that `split_runs` splits at.
#[derive(Debug, Clone, Copy, PartialEq, Eq)]
pub enum Separator {
    WhiteSpace,
    Slash,
    Newline,
    /// `/` or `\`, the separators of a Windows path.
    WindowsPath,
}

pub open spec fn separates(kind: Separator, c: char) -> bool {
    match kind {
        Separator::WhiteSpace => is_white_space(c),
        Separator::Slash => is_slash(c),
        Separator::Newline => c == '\n',
        Separator::WindowsPath => is_windows_separator(c),
    }
}

/// The separator predicate of `kind`.
pub open spec fn separator_of(kind: Separator) -> spec_fn(char) -> bool {
    match kind {
        Separator::WhiteSpace => |c: char| is_white_space(c),
        Separator::Slash => |c: char| is_slash(c),
        Separator::Newline => |c: char| c == '\n',
        Separator::WindowsPath => |c: char| is_windows_separator(c),
    }
}

fn char_separates(kind: Separator, c: char) -> (r: bool)
    ensures
        r == separates(kind, c),
{
    match kind {
        Separator::WhiteSpace => char_is_white_space(c),
        Separator::Slash => c == '/',
        Separator::Newline => c == '\n',
        Separator::WindowsPath => c == '/' || c == '\\',
    }
}

/// The runs of `v` between separators of `kind`, each as its own vector.
pub fn split_runs(v: &Vec<char>, kind: Separator) -> (r: Vec<Vec<char>>)
    ensures
        r@.len() == runs(v@, separator_of(kind)).len(),
        forall|i: int| 0 <= i < r@.len() ==> (#[trigger] r@[i])@ == runs(v@, separator_of(kind))[i],
{
    let ghost sep = separator_of(kind);
    assert(sep =~= |c: char| separates(kind, c));
    let mut out: Vec<Vec<char>> = Vec::new();
    let n = v.len();
    let mut i: usize = 0;
    assert(v@.take(0) =~= Seq::<char>::empty());
    while i < n
        invariant
            i <= n,
            n == v@.len(),
            sep == separator_of(kind),
            sep =~= |c: char| separates(kind, c),
            out@.len() == runs(v@.take(i as int), sep).len(),
            forall|k: int| 0 <= k < out@.len() ==> (#[trigger] out@[k])@ == runs(v@.take(i as int), sep)[k],
        decreases n - i,
    {
        let c = v[i];
        let ghost pre = v@.take(i as int);
        let ghost cur = v@.take(i + 1);
        assert(cur.drop_last() =~= pre);
        assert(cur.last() == c);
        if !char_separates(kind, c) {
            if i > 0 && !char_separates(kind, v[i - 1]) && out.len() > 0 {
                assert(cur[cur.len() - 2] == v@[i - 1]);
                let last = out.len() - 1;
                let ghost before = out@;
                let mut w = out.pop().unwrap();
                w.push(c);
                out.push(w);
                proof {
                    let prev = runs(pre, sep);
                    assert(runs(cur, sep) == prev.update(prev.len() - 1, prev.last().push(c)));
                    assert forall|k: int| 0 <= k < out@.len() implies (#[trigger] out@[k])@ == runs(
                        cur,
                        sep,
                    )[k] by {
                        if k < last {
                            assert(out@[k] == before[k]);
                        }
                    }
                }
            } else {
                proof {
                    if i > 0 {
                        assert(cur[cur.len() - 2] == v@[i - 1]);
                    }
                }
                let mut w: Vec<char> = Vec::new();
                w.push(c);
                out.push(w);
                proof {
                    assert(w@ =~= seq![c]);
                }
            }
        }
        i = i + 1;
    }
    assert(v@.take(n as int) =~= v@);
    out
}

// ---------------------------------------------------------------------------
// Replacement
// ---------------------------------------------------------------------------
/// `str::replace`: every non-overlapping occurrence of `pat`, scanning from
/// the left, replaced by `rep`.
pub open spec fn replace_all(s: Seq<char>, pat: Seq<char>, rep: Seq<char>) -> Seq<char>
    recommends
        pat.len() > 0,
    decreases s.len(),
{
    if s.len() == 0 || pat.len() == 0 {
        s
    } else if pat.len() <= s.len() && s.take(pat.len() as int) == pat {
        rep + replace_all(s.skip(pat.len() as int), pat, rep)
    } else {
        seq![s[0]] + replace_all(s.drop_first(), pat, rep)
    }
}

fn starts_at(v: &Vec<char>, i: usize, pat: &Vec<char>) -> (r: bool)
    requires
        i <= v@.len(),
    ensures
        r == (pat@.len() <= v@.len() - i && v@.skip(i as int).take(pat@.len() as int) == pat@),
{
    let n = v.len();
    if pat.len() > n - i {
        return false;
    }
    let mut k: usize = 0;
    while k < pat.len()
        invariant
            k <= pat@.len(),
            n == v@.len(),
            i <= v@.len(),
            pat@.len() <= v@.len() - i,
            forall|m: int| 0 <= m < k ==> v@[i + m] == pat@[m],
        decreases pat@.len() - k,
    {
        if v[i + k] != pat[k] {
            assert(v@.skip(i as int).take(pat@.len() as int)[k as int] != pat@[k as int]);
            return false;
        }
        k = k + 1;
    }
    assert(v@.skip(i as int).take(pat@.len() as int) =~= pat@);
    true
}

/// `v` with every occurrence of `pat` replaced by `rep`, scanning from the left.
pub fn replace_chars(v: &Vec<char>, pat: &Vec<char>, rep: &Vec<char>) -> (r: Vec<char>)
    requires
        pat@.len() > 0,
    ensures
        r@ == replace_all(v@, pat@, rep@),
{
    let mut out: Vec<char> = Vec::new();
    let n = v.len();
    let mut i: usize = 0;
    assert(v@.skip(0) =~= v@);
    while i < n
        invariant
            i <= n,
            n == v@.len(),
            pat@.len() > 0,
            out@ + replace_all(v@.skip(i as int), pat@, rep@) == replace_all(v@, pat@, rep@),
        decreases n - i,
    {
        let ghost rest = v@.skip(i as int);
        if starts_at(v, i, pat) {
            let mut k: usize = 0;
            let ghost before = out@;
            while k < rep.len()
                invariant
                    k <= rep@.len(),
                    out@ == before + rep@.take(k as int),
                decreases rep@.len() - k,
            {
                out.push(rep[k]);
                assert(rep@.take(k + 1) =~= rep@.take(k as int).push(rep@[k as int]));
                k = k + 1;
            }
            assert(rep@.take(rep@.len() as int) =~= rep@);
            assert(rest.skip(pat@.len() as int) =~= v@.skip(i + pat@.len()));
            assert(out@ + replace_all(v@.skip(i + pat@.len()), pat@, rep@) =~= before + (rep@
                + replace_all(rest.skip(pat@.len() as int), pat@, rep@)));
            i = i + pat.len();
        } else {
            let ghost before = out@;
            out.push(v[i]);
            assert(rest.drop_first() =~= v@.skip(i + 1));
            assert(rest[0] == v@[i as int]);
            assert(out@ + replace_all(v@.skip(i + 1), pat@, rep@) =~= before + (seq![rest[0]]
                + replace_all(rest.drop_first(), pat@, rep@)));
            i = i + 1;
        }
    }
    assert(v@.skip(n as int) =~= Seq::<char>::empty());
    assert(out@ =~= out@ + replace_all(v@.skip(n as int), pat@, rep@));
    out
}

// ---------------------------------------------------------------------------
// Conversions and string building
// ---------------------------------------------------------------------------
pub fn str_to_chars(s: &str) -> (r: Vec<char>)
    ensures
        r@ == s@,
{
    let mut out: Vec<char> = Vec::new();
    for c in it: s.chars()
        invariant
            out@ == it.seq().take(it.index()),
    {
        out.push(c);
    }
    proof {
        broadcast use vstd::string::group_string_axioms;

    }
    assert(out@ == s@);
    out
}

/// `String::push`: `c` is appended to `s`.
#[verifier::external_body]
pub(crate) fn push_char(s: &mut String, c: char)
    ensures
        final(s)@ == old(s)@.push(c),
{
    s.push(c);
}

pub fn chars_to_string(v: &Vec<char>) -> (r: String)
    ensures
        r@ == v@,
{
    let mut out = String::new();
    let mut i: usize = 0;
    while i < v.len()
        invariant
            i <= v@.len(),
            out@ == v@.take(i as int),
        decreases v@.len() - i,
    {
        push_char(&mut out, v[i]);
        assert(v@.take(i + 1) =~= v@.take(i as int).push(v@[i as int]));
        i = i + 1;
    }
    assert(v@.take(v@.len() as int) =~= v@);
    out
}

/// The characters `v[a..b]` as a `String`.
pub fn slice_to_string(v: &Vec<char>, a: usize, b: usize) -> (r: String)
    requires
        a <= b <= v@.len(),
    ensures
        r@ == v@.subrange(a as int, b as int),
{
    let mut out = String::new();
    let mut i: usize = a;
    while i < b
        invariant
            a <= i <= b,
            b <= v@.len(),
            out@ == v@.subrange(a as int, i as int),
        decreases b - i,
    {
        push_char(&mut out, v[i]);
        assert(v@.subrange(a as int, i + 1) =~= v@.subrange(a as int, i as int).push(v@[i as int]));
        i = i + 1;
    }
    out
}

pub fn string_from(s: &str) -> (r: String)
    ensures
        r@ == s@,
{
    let mut out = String::new();
    out.append(s);
    out
}

pub fn concat2(a: &str, b: &str) -> (r: String)
    ensures
        r@ == a@ + b@,
{
    let mut out = String::new();
    out.append(a);
    out.append(b);
    out
}

pub fn concat3(a: &str, b: &str, c: &str) -> (r: String)
    ensures
        r@ == a@ + b@ + c@,
{
    let mut out = String::new();
    out.append(a);
    out.append(b);
    out.append(c);
    out
}

pub fn str_eq(a: &str, b: &str) -> (r: bool)
    ensures
        r == (a@ == b@),
{
    let va = str_to_chars(a);
    let vb = str_to_chars(b);
    if va.len() != vb.len() {
        assert(va@.len() != vb@.len());
        return false;
    }
    let mut i: usize = 0;
    while i < va.len()
        invariant
            i <= va@.len(),
            va@ == a@,
            vb@ == b@,
            va@.len() == vb@.len(),
            forall|k: int| 0 <= k < i ==> va@[k] == vb@[k],
        decreases va@.len() - i,
    {
        if va[i] != vb[i] {
            assert(va@[i as int] != vb@[i as int]);
            return false;
        }
        i = i + 1;
    }
    assert(va@ =~= vb@);
    true
}

/// Whether `s` begins with `prefix`.
pub fn str_starts_with(s: &str, prefix: &str) -> (r: bool)
    ensures
        r == (prefix@.len() <= s@.len() && s@.take(prefix@.len() as int) == prefix@),
{
    let vs = str_to_chars(s);
    let vp = str_to_chars(prefix);
    let b = starts_at(&vs, 0, &vp);
    assert(vs@.skip(0) =~= vs@);
    b
}

/// Decimal rendering of a natural number, as `u64`'s `Display` writes it.
pub open spec fn decimal(n: nat) -> Seq<char>
    decreases n,
{
    if n < 10 {
        seq![digit_char((n % 10) as nat)]
    } else {
        decimal(n / 10) + seq![digit_char((n % 10) as nat)]
    }
}

pub open spec fn digit_char(d: nat) -> char {
    if d == 0 {
        '0'
    } else if d == 1 {
        '1'
    } else if d == 2 {
        '2'
    } else if d == 3 {
        '3'
    } else if d == 4 {
        '4'
    } else if d == 5 {
        '5'
    } else if d == 6 {
        '6'
    } else if d == 7 {
        '7'
    } else if d == 8 {
        '8'
    } else {
        '9'
    }
}

fn digit(d: u64) -> (c: char)
    requires
        d < 10,
    ensures
        c == digit_char(d as nat),
{
    if d == 0 {
        '0'
    } else if d == 1 {
        '1'
    } else if d == 2 {
        '2'
    } else if d == 3 {
        '3'
    } else if d == 4 {
        '4'
    } else if d == 5 {
        '5'
    } else if d == 6 {
        '6'
    } else if d == 7 {
        '7'
    } else if d == 8 {
        '8'
    } else {
        '9'
    }
}

/// Appends the decimal rendering of `n` to `out`.
pub fn push_decimal(out: &mut String, n: u64)
    ensures
        final(out)@ == old(out)@ + decimal(n as nat),
    decreases n,
{
    if n < 10 {
        push_char(out, digit(n));
    } else {
        push_decimal(out, n / 10);
        push_char(out, digit(n % 10));
    }
}

/// Appends `n` with at least two digits (a leading zero below ten).
pub fn push_two_digits(out: &mut String, n: u64)
    ensures
        final(out)@ == old(out)@ + (if n < 10 {
            seq!['0'] + decimal(n as nat)
        } else {
            decimal(n as nat)
        }),
{
    if n < 10 {
        push_char(out, '0');
    }
    push_decimal(out, n);
}

} // verus!
