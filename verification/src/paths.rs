//! Paths as text, read the way `std::path` reads them on each platform.
//!
//! On Unix a path is split at `'/'`; a leading `'/'` is the root.
//! On Windows `'/'` and `'\\'` both separate, and a path may begin with a
//! prefix: a drive (`C:`), a UNC share (`\\server\share`), a device
//! (`\\.\name`), or a verbatim form (`\\?\C:`, `\\?\UNC\server\share`,
//! `\\?\name`), after which only `'\\'` separates and `"."` is kept as a
//! component. Empty pieces, and `"."` pieces past the start, are skipped;
//! `".."` names the parent directory.

use vstd::prelude::*;
use crate::text::{chars_of, string_of, string_of_range, views, cat, cat3, owned};
use crate::runtime::HostOs;

verus! {

// ---------------------------------------------------------------------------
// Separators and pieces
// ---------------------------------------------------------------------------

/// Which characters separate the pieces of a path.
#[derive(Clone, Copy, PartialEq, Eq, Structural)]
pub enum SepMode {
    /// `'/'` (Unix).
    Slash,
    /// `'/'` and `'\\'` (Windows).
    Both,
    /// `'\\'` only (after a Windows verbatim prefix).
    Backslash,
}

/// `c` separates pieces under `m`.
pub open spec fn is_sep_in(m: SepMode, c: char) -> bool {
    match m {
        SepMode::Slash => c == '/',
        SepMode::Both => c == '/' || c == '\\',
        SepMode::Backslash => c == '\\',
    }
}

/// Whether `c` separates pieces under `m`.
pub fn sep_in(m: SepMode, c: char) -> (b: bool)
    ensures
        b == is_sep_in(m, c),
{
    match m {
        SepMode::Slash => c == '/',
        SepMode::Both => c == '/' || c == '\\',
        SepMode::Backslash => c == '\\',
    }
}

/// The windows platform.
pub open spec fn win(os: HostOs) -> bool {
    os == HostOs::Windows
}

/// The separators of a platform's paths.
pub open spec fn os_mode(os: HostOs) -> SepMode {
    if win(os) {
        SepMode::Both
    } else {
        SepMode::Slash
    }
}

/// The pieces of `s` between separators (always at least one).
pub open spec fn split_by(s: Seq<char>, m: SepMode) -> Seq<Seq<char>>
    decreases s.len(),
{
    if s.len() == 0 {
        seq![Seq::<char>::empty()]
    } else {
        let p = split_by(s.drop_last(), m);
        if is_sep_in(m, s.last()) {
            p.push(Seq::<char>::empty())
        } else {
            p.update(p.len() - 1, p.last().push(s.last()))
        }
    }
}

/// The length of the first piece of `s`: the index of its first separator,
/// or its length.
pub open spec fn first_sep(s: Seq<char>, m: SepMode) -> int
    decreases s.len(),
{
    if s.len() == 0 {
        0
    } else if is_sep_in(m, s[0]) {
        0
    } else {
        1 + first_sep(s.drop_first(), m)
    }
}

proof fn lemma_first_sep(s: Seq<char>, m: SepMode, j: int)
    requires
        0 <= j <= s.len(),
        forall|k: int| 0 <= k < j ==> !is_sep_in(m, #[trigger] s[k]),
    ensures
        first_sep(s, m) == j + first_sep(s.skip(j), m),
    decreases j,
{
    if j == 0 {
        assert(s.skip(0) =~= s);
    } else {
        assert(!is_sep_in(m, s[0]));
        lemma_first_sep(s.drop_first(), m, j - 1);
        assert(s.drop_first().skip(j - 1) =~= s.skip(j));
    }
}

proof fn lemma_first_sep_bounds(s: Seq<char>, m: SepMode)
    ensures
        0 <= first_sep(s, m) <= s.len(),
        first_sep(s, m) < s.len() ==> is_sep_in(m, s[first_sep(s, m)]),
        forall|k: int| 0 <= k < first_sep(s, m) ==> !is_sep_in(m, #[trigger] s[k]),
    decreases s.len(),
{
    if s.len() > 0 && !is_sep_in(m, s[0]) {
        lemma_first_sep_bounds(s.drop_first(), m);
        assert forall|k: int| 0 <= k < first_sep(s, m) implies !is_sep_in(m, #[trigger] s[k]) by {
            if k > 0 {
                assert(s[k] == s.drop_first()[k - 1]);
            }
        }
    }
}

/// The index of the first separator of `v` at or after `from`, or its length.
fn first_sep_from(v: &Vec<char>, from: usize, m: SepMode) -> (r: usize)
    requires
        from <= v.len(),
    ensures
        from <= r <= v.len(),
        r - from == first_sep(v@.skip(from as int), m),
{
    let mut i = from;
    while i < v.len() && !sep_in(m, v[i])
        invariant
            from <= i <= v.len(),
            forall|k: int| from <= k < i ==> !is_sep_in(m, #[trigger] v@[k]),
        decreases v.len() - i,
    {
        i += 1;
    }
    let ghost t = v@.skip(from as int);
    proof {
        assert forall|k: int| 0 <= k < i - from implies !is_sep_in(m, #[trigger] t[k]) by {
            assert(t[k] == v@[from + k]);
        }
        lemma_first_sep(t, m, i - from);
        assert(t.skip(i - from) =~= v@.skip(i as int));
        if i < v.len() {
            assert(v@.skip(i as int)[0] == v@[i as int]);
        }
    }
    i
}

/// The pieces of `s` between occurrences of `sep` (`str::split` with a
/// character).
pub open spec fn split_pieces(s: Seq<char>, sep: char) -> Seq<Seq<char>>
    decreases s.len(),
{
    if s.len() == 0 {
        seq![Seq::<char>::empty()]
    } else {
        let p = split_pieces(s.drop_last(), sep);
        if s.last() == sep {
            p.push(Seq::<char>::empty())
        } else {
            p.update(p.len() - 1, p.last().push(s.last()))
        }
    }
}

/// The pieces of `v` from `from` on, between separators.
fn split_from(v: &Vec<char>, from: usize, m: SepMode) -> (r: Vec<String>)
    requires
        from <= v.len(),
    ensures
        views(r@) == split_by(v@.skip(from as int), m),
{
    let n = v.len();
    let ghost t = v@.skip(from as int);
    let mut done: Vec<String> = Vec::new();
    let mut st: usize = from;
    let mut i: usize = from;
    assert(t.take(0) =~= Seq::<char>::empty());
    assert(v@.subrange(from as int, from as int) =~= Seq::<char>::empty());
    assert(views(done@) =~= Seq::<Seq<char>>::empty());
    assert(split_by(t.take(0), m) =~= views(done@).push(v@.subrange(from as int, from as int)));
    while i < n
        invariant
            n == v@.len(),
            from <= st <= i <= n,
            t == v@.skip(from as int),
            split_by(t.take(i - from), m) == views(done@).push(v@.subrange(st as int, i as int)),
        decreases n - i,
    {
        assert(t.take(i - from + 1).drop_last() == t.take(i - from));
        assert(t.take(i - from + 1).last() == v@[i as int]);
        if sep_in(m, v[i]) {
            let piece = string_of_range(v, st, i);
            let ghost before = done@;
            done.push(piece);
            assert(views(done@) =~= views(before).push(piece@));
            assert(v@.subrange(i + 1, i + 1) =~= Seq::<char>::empty());
            st = i + 1;
        } else {
            assert(v@.subrange(st as int, i + 1) =~= v@.subrange(st as int, i as int).push(v@[i as int]));
            assert(views(done@).push(v@.subrange(st as int, i as int)).update(
                views(done@).len() as int,
                v@.subrange(st as int, i + 1),
            ) =~= views(done@).push(v@.subrange(st as int, i + 1)));
        }
        i += 1;
    }
    assert(t.take(n - from) == t);
    let last = string_of_range(v, st, n);
    let ghost before = done@;
    done.push(last);
    assert(views(done@) =~= views(before).push(last@));
    done
}

/// The pieces of `s` between occurrences of `sep` (`str::split` with a
/// character).
pub fn split_on(s: &str, sep: char) -> (r: Vec<String>)
    ensures
        views(r@) == split_pieces(s@, sep),
{
    let v = chars_of(s);
    let m = if sep == '/' {
        SepMode::Slash
    } else if sep == '\\' {
        SepMode::Backslash
    } else {
        return split_other(&v, sep);
    };
    let r = split_from(&v, 0, m);
    proof {
        assert(v@.skip(0) =~= s@);
        lemma_split_modes(s@, sep, m);
    }
    r
}

proof fn lemma_split_modes(s: Seq<char>, sep: char, m: SepMode)
    requires
        forall|c: char| is_sep_in(m, c) <==> c == sep,
    ensures
        split_by(s, m) == split_pieces(s, sep),
    decreases s.len(),
{
    if s.len() > 0 {
        lemma_split_modes(s.drop_last(), sep, m);
        assert(is_sep_in(m, s.last()) <==> s.last() == sep);
    }
}

fn split_other(v: &Vec<char>, sep: char) -> (r: Vec<String>)
    ensures
        views(r@) == split_pieces(v@, sep),
{
    let n = v.len();
    let mut done: Vec<String> = Vec::new();
    let mut st: usize = 0;
    let mut i: usize = 0;
    assert(v@.take(0) == Seq::<char>::empty());
    assert(split_pieces(v@.take(0), sep) == views(done@).push(v@.subrange(0, 0)));
    while i < n
        invariant
            n == v@.len(),
            st <= i <= n,
            split_pieces(v@.take(i as int), sep) == views(done@).push(v@.subrange(st as int, i as int)),
        decreases n - i,
    {
        assert(v@.take(i + 1).drop_last() == v@.take(i as int));
        if v[i] == sep {
            let piece = string_of_range(v, st, i);
            let ghost before = done@;
            done.push(piece);
            assert(views(done@) =~= views(before).push(piece@));
            assert(v@.subrange(i + 1, i + 1) =~= Seq::<char>::empty());
            st = i + 1;
        } else {
            assert(v@.subrange(st as int, i + 1) =~= v@.subrange(st as int, i as int).push(v@[i as int]));
            assert(views(done@).push(v@.subrange(st as int, i as int)).update(
                views(done@).len() as int,
                v@.subrange(st as int, i + 1),
            ) =~= views(done@).push(v@.subrange(st as int, i + 1)));
        }
        i += 1;
    }
    assert(v@.take(n as int) == v@);
    let last = string_of_range(v, st, n);
    let ghost before = done@;
    done.push(last);
    assert(views(done@) =~= views(before).push(last@));
    done
}

// ---------------------------------------------------------------------------
// Windows prefixes
// ---------------------------------------------------------------------------

/// The kinds of Windows path prefix (`std::path::Prefix`).
#[derive(Clone, Copy, PartialEq, Eq, Structural)]
pub enum PrefixKind {
    /// `C:`
    Disk,
    /// `\\?\C:`
    VerbatimDisk,
    /// `\\?\name`
    Verbatim,
    /// `\\?\UNC\server\share`
    VerbatimUnc,
    /// `\\.\name`
    DeviceNs,
    /// `\\server\share`
    Unc,
}

/// A separator of a Windows path outside verbatim forms.
pub open spec fn any_sep(c: char) -> bool {
    c == '/' || c == '\\'
}

/// An ASCII letter.
pub open spec fn ascii_letter(c: char) -> bool {
    (65 <= (c as u32) <= 90) || (97 <= (c as u32) <= 122)
}

/// The upper-case form of an ASCII letter.
pub open spec fn upper(c: char) -> char {
    if 97 <= (c as u32) <= 122 {
        ((c as u32) - 32) as char
    } else {
        c
    }
}

/// The text after the first piece of `s` and its separator (empty when
/// there is no separator).
pub open spec fn after_first(s: Seq<char>, m: SepMode) -> Seq<char> {
    if first_sep(s, m) < s.len() {
        s.skip(first_sep(s, m) + 1)
    } else {
        Seq::empty()
    }
}

/// The prefix of a Windows path: its kind, its length in characters, and
/// what tells it apart from other prefixes (the drive letter in upper case,
/// or the server and share, or the name).
pub open spec fn win_prefix(s: Seq<char>) -> Option<(PrefixKind, int, Seq<char>)> {
    if s.len() >= 2 && any_sep(s[0]) && any_sep(s[1]) {
        if s.len() >= 4 && s[0] == '\\' && s[1] == '\\' && s[2] == '?' && s[3] == '\\' {
            let u = s.skip(4);
            if u.len() >= 4 && u[0] == 'U' && u[1] == 'N' && u[2] == 'C' && any_sep(u[3]) {
                let v = u.skip(4);
                let a = first_sep(v, SepMode::Backslash);
                let w = after_first(v, SepMode::Backslash);
                let b = first_sep(w, SepMode::Backslash);
                Some(
                    (
                        PrefixKind::VerbatimUnc,
                        8 + a + if b > 0 {
                            1 + b
                        } else {
                            0
                        },
                        v.take(a) + seq!['\\'] + w.take(b),
                    ),
                )
            } else if u.len() >= 3 && ascii_letter(u[0]) && u[1] == ':' && u[2] == '\\' {
                Some((PrefixKind::VerbatimDisk, 6, seq![upper(u[0])]))
            } else {
                let a = first_sep(u, SepMode::Backslash);
                Some((PrefixKind::Verbatim, 4 + a, u.take(a)))
            }
        } else if s.len() >= 4 && s[2] == '.' && any_sep(s[3]) {
            let u = s.skip(4);
            let a = first_sep(u, SepMode::Both);
            Some((PrefixKind::DeviceNs, 4 + a, u.take(a)))
        } else {
            let t = s.skip(2);
            let a = first_sep(t, SepMode::Both);
            let w = after_first(t, SepMode::Both);
            let b = first_sep(w, SepMode::Both);
            if a > 0 && b > 0 {
                Some((PrefixKind::Unc, 2 + a + 1 + b, t.take(a) + seq!['\\'] + w.take(b)))
            } else {
                None
            }
        }
    } else if s.len() >= 2 && ascii_letter(s[0]) && s[1] == ':' {
        Some((PrefixKind::Disk, 2, seq![upper(s[0])]))
    } else {
        None
    }
}

/// The prefix of a path on `os` (Unix paths have none).
pub open spec fn prefix_of(os: HostOs, s: Seq<char>) -> Option<(PrefixKind, int, Seq<char>)> {
    if win(os) {
        win_prefix(s)
    } else {
        None
    }
}

/// How many characters the prefix takes.
pub open spec fn prefix_len(os: HostOs, s: Seq<char>) -> int {
    match prefix_of(os, s) {
        Some(p) => p.1,
        None => 0,
    }
}

/// The path begins with a verbatim prefix (`\\?\`).
pub open spec fn verbatim(os: HostOs, s: Seq<char>) -> bool {
    prefix_of(os, s) matches Some(p) && (p.0 == PrefixKind::VerbatimDisk || p.0 == PrefixKind::Verbatim || p.0
        == PrefixKind::VerbatimUnc)
}

/// The separators after the prefix.
pub open spec fn body_mode(os: HostOs, s: Seq<char>) -> SepMode {
    if !win(os) {
        SepMode::Slash
    } else if verbatim(os, s) {
        SepMode::Backslash
    } else {
        SepMode::Both
    }
}

/// The path after its prefix.
pub open spec fn body(os: HostOs, s: Seq<char>) -> Seq<char> {
    s.skip(prefix_len(os, s))
}

/// A separator follows the prefix.
pub open spec fn physical_root(os: HostOs, s: Seq<char>) -> bool {
    body(os, s).len() > 0 && is_sep_in(os_mode(os), body(os, s)[0])
}

/// The prefix counts as a root component (UNC shares and devices).
pub open spec fn implicit_root(os: HostOs, s: Seq<char>) -> bool {
    prefix_of(os, s) matches Some(p) && (p.0 == PrefixKind::Unc || p.0 == PrefixKind::DeviceNs)
}

/// `Path::has_root`.
pub open spec fn has_root(os: HostOs, s: Seq<char>) -> bool {
    physical_root(os, s) || (prefix_of(os, s) matches Some(p) && p.0 != PrefixKind::Disk)
}

/// `Path::is_absolute`: on Unix a root; on Windows a prefix and a root.
pub open spec fn is_abs(os: HostOs, s: Seq<char>) -> bool {
    if win(os) {
        prefix_of(os, s) is Some && has_root(os, s)
    } else {
        physical_root(os, s)
    }
}

// ---------------------------------------------------------------------------
// Components
// ---------------------------------------------------------------------------

/// `".."`.
pub open spec fn dot_dot() -> Seq<char> {
    seq!['.', '.']
}

/// A piece that is a component: not empty, and not `"."` unless the path is
/// verbatim.
pub open spec fn is_segment_in(keep_dot: bool, p: Seq<char>) -> bool {
    p.len() > 0 && (keep_dot || p != seq!['.'])
}

/// The components after the prefix and root, in order (the `Normal`,
/// `ParentDir` and, in verbatim paths, `CurDir` components of
/// `Path::components`).
pub open spec fn segments(os: HostOs, s: Seq<char>) -> Seq<Seq<char>> {
    let v = verbatim(os, s);
    split_by(body(os, s), body_mode(os, s)).filter(|p: Seq<char>| is_segment_in(v, p))
}

/// The path starts with a `CurDir` component (`"."` or `"./..."`, with no
/// prefix or root).
pub open spec fn starts_at_cur_dir(os: HostOs, s: Seq<char>) -> bool {
    let b = body(os, s);
    &&& prefix_of(os, s) is None
    &&& !physical_root(os, s)
    &&& b.len() > 0
    &&& b[0] == '.'
    &&& (b.len() == 1 || is_sep_in(body_mode(os, s), b[1]))
}

/// The letter that tells the kinds of prefix apart in `components`.
pub open spec fn kind_char(k: PrefixKind) -> char {
    match k {
        PrefixKind::Disk => 'D',
        PrefixKind::VerbatimDisk => 'V',
        PrefixKind::Verbatim => 'R',
        PrefixKind::VerbatimUnc => 'U',
        PrefixKind::DeviceNs => 'N',
        PrefixKind::Unc => 'C',
    }
}

/// All components of a path, as `Path::components` gives them: the prefix
/// (as `'\\'`, its kind's letter and what identifies it), the root (as the
/// empty text), a leading `CurDir` (as `"."`), then the segments.
pub open spec fn components(os: HostOs, s: Seq<char>) -> Seq<Seq<char>> {
    let pre = match prefix_of(os, s) {
        Some(p) => seq![seq!['\\', kind_char(p.0)] + p.2],
        None => Seq::<Seq<char>>::empty(),
    };
    let root = if physical_root(os, s) || implicit_root(os, s) {
        seq![Seq::<char>::empty()]
    } else {
        Seq::<Seq<char>>::empty()
    };
    let cur = if starts_at_cur_dir(os, s) {
        seq![seq!['.']]
    } else {
        Seq::<Seq<char>>::empty()
    };
    pre + root + cur + segments(os, s)
}

/// The path has a `..` component.
pub open spec fn has_parent_ref(os: HostOs, s: Seq<char>) -> bool {
    segments(os, s).contains(dot_dot())
}

/// `Path::file_name`: the last component when it is a name.
pub open spec fn file_name_of(os: HostOs, s: Seq<char>) -> Option<Seq<char>> {
    let g = segments(os, s);
    if g.len() > 0 && g.last() != dot_dot() && g.last() != seq!['.'] {
        Some(g.last())
    } else {
        None
    }
}

/// The index of the last `'.'` in `n`, or -1.
pub open spec fn last_dot(n: Seq<char>) -> int
    decreases n.len(),
{
    if n.len() == 0 {
        -1
    } else if n.last() == '.' {
        n.len() - 1
    } else {
        last_dot(n.drop_last())
    }
}

/// The extension of a file name: what follows its last `'.'`, when that
/// `'.'` is not the first character.
pub open spec fn name_extension(n: Seq<char>) -> Option<Seq<char>> {
    let i = last_dot(n);
    if i <= 0 {
        None
    } else {
        Some(n.skip(i + 1))
    }
}

/// `Path::extension`.
pub open spec fn extension_of(os: HostOs, s: Seq<char>) -> Option<Seq<char>> {
    match file_name_of(os, s) {
        Some(n) => name_extension(n),
        None => None,
    }
}

/// `Path::starts_with`: `base`'s components are the first components of `p`.
pub open spec fn path_has_prefix(os: HostOs, p: Seq<char>, base: Seq<char>) -> bool {
    let cb = components(os, base);
    let cp = components(os, p);
    cb.len() <= cp.len() && cp.take(cb.len() as int) == cb
}

// ---------------------------------------------------------------------------
// Joining
// ---------------------------------------------------------------------------

/// `"\\"`, the root component as a verbatim join writes it.
pub open spec fn root_text() -> Seq<char> {
    seq!['\\']
}

/// One component of `rel` applied to the components of a verbatim base: a
/// root keeps only the prefix, `".."` drops a preceding name, `"."` is
/// skipped, a name is added.
pub open spec fn verbatim_step(buf: Seq<Seq<char>>, c: Seq<char>) -> Seq<Seq<char>> {
    if c == root_text() {
        buf.take(1).push(c)
    } else if c == dot_dot() {
        if buf.len() > 1 && buf.last() != root_text() && buf.last() != seq!['.'] && buf.last() != dot_dot() {
            buf.drop_last()
        } else {
            buf
        }
    } else if c == seq!['.'] {
        buf
    } else {
        buf.push(c)
    }
}

/// The components of `rel` applied one by one.
pub open spec fn verbatim_apply(buf: Seq<Seq<char>>, items: Seq<Seq<char>>) -> Seq<Seq<char>>
    decreases items.len(),
{
    if items.len() == 0 {
        buf
    } else {
        verbatim_step(verbatim_apply(buf, items.drop_last()), items.last())
    }
}

/// The components written out: `'\\'` between two of them unless either is
/// the root.
pub open spec fn verbatim_text(items: Seq<Seq<char>>) -> Seq<char>
    decreases items.len(),
{
    if items.len() == 0 {
        Seq::empty()
    } else {
        let n = items.len();
        let sep = if n > 1 && items[n - 1] != root_text() && items[n - 2] != root_text() {
            root_text()
        } else {
            Seq::<char>::empty()
        };
        verbatim_text(items.drop_last()) + sep + items.last()
    }
}

/// The components of a verbatim base as a join rebuilds them: the prefix,
/// the root, then its segments.
pub open spec fn verbatim_items(s: Seq<char>) -> Seq<Seq<char>> {
    let w = HostOs::Windows;
    seq![s.take(prefix_len(w, s))] + (if physical_root(w, s) {
        seq![root_text()]
    } else {
        Seq::<Seq<char>>::empty()
    }) + segments(w, s)
}

/// The components of a relative path pushed onto a verbatim base.
pub open spec fn relative_items(s: Seq<char>) -> Seq<Seq<char>> {
    let w = HostOs::Windows;
    (if physical_root(w, s) {
        seq![root_text()]
    } else {
        Seq::<Seq<char>>::empty()
    }) + segments(w, s)
}

/// A separator must be added between a Windows base and a relative path:
/// the base is not empty, does not end in a separator, and is not a bare
/// drive (`C:`).
pub open spec fn win_needs_sep(base: Seq<char>) -> bool {
    &&& base.len() > 0
    &&& !any_sep(base.last())
    &&& !(win_prefix(base) matches Some(p) && p.0 == PrefixKind::Disk && p.1 == base.len())
}

/// `base.join(rel)` (`PathBuf::push`): `rel` alone when it is absolute or
/// has a prefix; on Windows, after a verbatim base the components are
/// rebuilt, and a rooted `rel` keeps only the base's prefix; otherwise `rel`
/// after `base`, with a separator (`'/'`, or `'\\'` on Windows) between them
/// when `base` needs one.
#[verifier::opaque]
pub open spec fn joined(os: HostOs, base: Seq<char>, rel: Seq<char>) -> Seq<char> {
    if !win(os) {
        if physical_root(os, rel) {
            rel
        } else if base.len() > 0 && base.last() != '/' {
            base + seq!['/'] + rel
        } else {
            base + rel
        }
    } else if is_abs(os, rel) || prefix_of(os, rel) is Some {
        rel
    } else if verbatim(os, base) && rel.len() > 0 {
        verbatim_text(verbatim_apply(verbatim_items(base), relative_items(rel)))
    } else if has_root(os, rel) {
        base.take(prefix_len(os, base)) + rel
    } else if win_needs_sep(base) {
        base + seq!['\\'] + rel
    } else {
        base + rel
    }
}

// ---------------------------------------------------------------------------
// Executable reading
// ---------------------------------------------------------------------------

fn ascii_letter_char(c: char) -> (b: bool)
    ensures
        b == ascii_letter(c),
{
    (65 <= (c as u32) && (c as u32) <= 90) || (97 <= (c as u32) && (c as u32) <= 122)
}

fn upper_char(c: char) -> (r: char)
    requires
        ascii_letter(c),
    ensures
        r == upper(c),
{
    if 97 <= (c as u32) && (c as u32) <= 122 {
        let u: u32 = (c as u32) - 32;
        let r = (u as u8) as char;
        assert(r == upper(c)) by {
            assert((u as u8) as char == ((c as u32) - 32) as char);
        }
        r
    } else {
        c
    }
}

/// The prefix of a Windows path (see `win_prefix`), with its identifying
/// text.
fn win_prefix_of(v: &Vec<char>) -> (r: Option<(PrefixKind, usize, Vec<char>)>)
    ensures
        match win_prefix(v@) {
            Some(p) => r matches Some(q) && q.0 == p.0 && q.1 == p.1 && q.2@ == p.2,
            None => r is None,
        },
        r matches Some(q) ==> q.1 <= v.len(),
{
    let n = v.len();
    let ghost s = v@;
    if n >= 2 && (v[0] == '/' || v[0] == '\\') && (v[1] == '/' || v[1] == '\\') {
        if n >= 4 && v[0] == '\\' && v[1] == '\\' && v[2] == '?' && v[3] == '\\' {
            let ghost u = s.skip(4);
            if n >= 8 && v[4] == 'U' && v[5] == 'N' && v[6] == 'C' && (v[7] == '/' || v[7] == '\\') {
                assert(u.skip(4) =~= s.skip(8));
                let ghost vv = s.skip(8);
                let e = first_sep_from(v, 8, SepMode::Backslash);
                let a = e - 8;
                proof {
                    lemma_first_sep_bounds(vv, SepMode::Backslash);
                }
                let mut key = take_range(v, 8, e);
                assert(key@ =~= vv.take(a as int));
                key.push('\\');
                let (b, f) = if e < n {
                    assert(after_first(vv, SepMode::Backslash) =~= s.skip(e + 1));
                    let f = first_sep_from(v, e + 1, SepMode::Backslash);
                    (f - (e + 1), f)
                } else {
                    assert(after_first(vv, SepMode::Backslash) =~= Seq::<char>::empty());
                    (0, e)
                };
                let ghost w = after_first(vv, SepMode::Backslash);
                let st = if e < n { e + 1 } else { e };
                let tail = take_range(v, st, f);
                let ghost k0 = key@;
                append_chars(&mut key, &tail);
                assert(e < n ==> w =~= s.skip(e + 1));
                assert(tail@ =~= w.take(b as int));
                let len = if b > 0 { 8 + a + 1 + b } else { 8 + a };
                return Some((PrefixKind::VerbatimUnc, len, key));
            } else if n >= 7 && ascii_letter_char(v[4]) && v[5] == ':' && v[6] == '\\' {
                let mut key: Vec<char> = Vec::new();
                key.push(upper_char(v[4]));
                assert(key@ =~= seq![upper(u[0])]);
                return Some((PrefixKind::VerbatimDisk, 6, key));
            } else {
                assert(!(u.len() >= 4 && u[0] == 'U' && u[1] == 'N' && u[2] == 'C' && any_sep(u[3])));
                assert(!(u.len() >= 3 && ascii_letter(u[0]) && u[1] == ':' && u[2] == '\\'));
                let e = first_sep_from(v, 4, SepMode::Backslash);
                let key = take_range(v, 4, e);
                assert(key@ =~= u.take(e - 4));
                return Some((PrefixKind::Verbatim, e, key));
            }
        } else if n >= 4 && v[2] == '.' && (v[3] == '/' || v[3] == '\\') {
            let e = first_sep_from(v, 4, SepMode::Both);
            let key = take_range(v, 4, e);
            assert(key@ =~= s.skip(4).take(e - 4));
            return Some((PrefixKind::DeviceNs, e, key));
        } else {
            let ghost t = s.skip(2);
            let e = first_sep_from(v, 2, SepMode::Both);
            let a = e - 2;
            proof {
                lemma_first_sep_bounds(t, SepMode::Both);
            }
            if e >= n {
                assert(after_first(t, SepMode::Both) =~= Seq::<char>::empty());
                return None;
            }
            assert(after_first(t, SepMode::Both) =~= s.skip(e + 1));
            let f = first_sep_from(v, e + 1, SepMode::Both);
            let b = f - (e + 1);
            if a > 0 && b > 0 {
                let mut key = take_range(v, 2, e);
                assert(key@ =~= t.take(a as int));
                key.push('\\');
                let tail = take_range(v, e + 1, f);
                append_chars(&mut key, &tail);
                assert(tail@ =~= s.skip(e + 1).take(b as int));
                return Some((PrefixKind::Unc, 2 + a + 1 + b, key));
            }
            return None;
        }
    } else if n >= 2 && ascii_letter_char(v[0]) && v[1] == ':' {
        let mut key: Vec<char> = Vec::new();
        key.push(upper_char(v[0]));
        assert(key@ =~= seq![upper(s[0])]);
        return Some((PrefixKind::Disk, 2, key));
    }
    None
}

/// Appends the characters of `t` to `key`.
fn append_chars(key: &mut Vec<char>, t: &Vec<char>)
    ensures
        final(key)@ == old(key)@ + t@,
{
    let ghost k0 = key@;
    let mut j: usize = 0;
    while j < t.len()
        invariant
            j <= t.len(),
            key@ == k0 + t@.take(j as int),
        decreases t.len() - j,
    {
        key.push(t[j]);
        assert(t@.take(j + 1) =~= t@.take(j as int).push(t@[j as int]));
        j += 1;
    }
    assert(t@.take(t.len() as int) =~= t@);
}

/// The characters of `v` from `a` to `b`.
fn take_range(v: &Vec<char>, a: usize, b: usize) -> (r: Vec<char>)
    requires
        a <= b <= v.len(),
    ensures
        r@ == v@.subrange(a as int, b as int),
        r@ == v@.skip(a as int).take(b - a),
{
    let mut r: Vec<char> = Vec::new();
    let mut i = a;
    while i < b
        invariant
            a <= i <= b <= v.len(),
            r@ == v@.subrange(a as int, i as int),
        decreases b - i,
    {
        r.push(v[i]);
        assert(v@.subrange(a as int, i + 1) =~= v@.subrange(a as int, i as int).push(v@[i as int]));
        i += 1;
    }
    assert(v@.subrange(a as int, b as int) =~= v@.skip(a as int).take(b - a));
    r
}

/// The parts of a path that the questions below need.
struct Parsed {
    /// The prefix: its kind, length and identifying text.
    prefix: Option<(PrefixKind, usize, Vec<char>)>,
    /// The characters of the path.
    chars: Vec<char>,
    /// The prefix length.
    plen: usize,
    /// The separators after the prefix.
    mode: SepMode,
    /// A separator follows the prefix.
    root: bool,
}

impl Parsed {
    spec fn matches(self, os: HostOs, s: Seq<char>) -> bool {
        &&& self.chars@ == s
        &&& self.plen == prefix_len(os, s)
        &&& self.plen <= s.len()
        &&& self.mode == body_mode(os, s)
        &&& self.root == physical_root(os, s)
        &&& match prefix_of(os, s) {
            Some(p) => self.prefix matches Some(q) && q.0 == p.0 && q.1 == p.1 && q.2@ == p.2,
            None => self.prefix is None,
        }
    }
}

fn parse(os: HostOs, s: &str) -> (r: Parsed)
    ensures
        r.matches(os, s@),
{
    let v = chars_of(s);
    let prefix = if os == HostOs::Windows {
        win_prefix_of(&v)
    } else {
        None
    };
    let plen = match &prefix {
        Some(p) => p.1,
        None => 0,
    };
    let verb = match &prefix {
        Some(p) => p.0 == PrefixKind::VerbatimDisk || p.0 == PrefixKind::Verbatim || p.0 == PrefixKind::VerbatimUnc,
        None => false,
    };
    let mode = if os != HostOs::Windows {
        SepMode::Slash
    } else if verb {
        SepMode::Backslash
    } else {
        SepMode::Both
    };
    let omode = if os == HostOs::Windows {
        SepMode::Both
    } else {
        SepMode::Slash
    };
    let root = plen < v.len() && sep_in(omode, v[plen]);
    assert(plen < v.len() ==> s@.skip(plen as int)[0] == v@[plen as int]);
    Parsed { prefix, chars: v, plen, mode, root }
}

/// The segments of a parsed path.
fn parsed_segments(p: &Parsed, Ghost(os): Ghost<HostOs>, Ghost(s): Ghost<Seq<char>>) -> (r: Vec<String>)
    requires
        p.matches(os, s),
    ensures
        views(r@) == segments(os, s),
{
    let pieces = split_from(&p.chars, p.plen, p.mode);
    let keep_dot = p.mode == SepMode::Backslash && os_is_windows_verbatim(p);
    let ghost all = split_by(body(os, s), body_mode(os, s));
    let ghost pred = |q: Seq<char>| is_segment_in(verbatim(os, s), q);
    proof {
        assert(keep_dot == verbatim(os, s));
    }
    let mut r: Vec<String> = Vec::new();
    let mut i: usize = 0;
    assert(all.take(0).filter(pred) =~= Seq::<Seq<char>>::empty()) by {
        reveal(Seq::filter);
    }
    while i < pieces.len()
        invariant
            views(pieces@) == all,
            i <= pieces.len(),
            pred == (|q: Seq<char>| is_segment_in(verbatim(os, s), q)),
            keep_dot == verbatim(os, s),
            views(r@) == all.take(i as int).filter(pred),
        decreases pieces.len() - i,
    {
        assert(views(pieces@)[i as int] == pieces@[i as int]@);
        assert(all.take(i + 1) == all.take(i as int).push(all[i as int]));
        proof {
            all.take(i as int).lemma_filter_push(all[i as int], pred);
        }
        let q = &pieces[i];
        if keep_piece(q.as_str(), keep_dot) {
            let ghost before = r@;
            r.push(q.clone());
            assert(views(r@) =~= views(before).push(q@));
        }
        i += 1;
    }
    assert(all.take(pieces.len() as int) == all);
    r
}

fn os_is_windows_verbatim(p: &Parsed) -> (b: bool)
    ensures
        b == (p.prefix matches Some(q) && (q.0 == PrefixKind::VerbatimDisk || q.0 == PrefixKind::Verbatim || q.0
            == PrefixKind::VerbatimUnc)),
{
    match &p.prefix {
        Some(q) => q.0 == PrefixKind::VerbatimDisk || q.0 == PrefixKind::Verbatim || q.0 == PrefixKind::VerbatimUnc,
        None => false,
    }
}

fn keep_piece(p: &str, keep_dot: bool) -> (b: bool)
    ensures
        b == is_segment_in(keep_dot, p@),
{
    let v = chars_of(p);
    if v.len() == 0 {
        false
    } else if v.len() == 1 && v[0] == '.' {
        assert(v@ =~= seq!['.']);
        keep_dot
    } else {
        assert(p@ != seq!['.']) by {
            if p@ == seq!['.'] {
                assert(v@.len() == 1);
            }
        }
        true
    }
}

/// The components after the prefix and root of `s` on `os` (see `segments`).
pub fn path_segments(os: HostOs, s: &str) -> (r: Vec<String>)
    ensures
        views(r@) == segments(os, s@),
{
    let p = parse(os, s);
    parsed_segments(&p, Ghost(os), Ghost(s@))
}

/// `Path::new(s).is_absolute()` on `os`.
pub fn is_absolute(os: HostOs, s: &str) -> (b: bool)
    ensures
        b == is_abs(os, s@),
{
    let p = parse(os, s);
    if os == HostOs::Windows {
        match &p.prefix {
            Some(q) => p.root || q.0 != PrefixKind::Disk,
            None => false,
        }
    } else {
        p.root
    }
}

/// Whether `s` has a prefix on `os`.
pub fn has_prefix_component(os: HostOs, s: &str) -> (b: bool)
    ensures
        b == (prefix_of(os, s@) is Some),
{
    let p = parse(os, s);
    p.prefix.is_some()
}

fn cur_dir_start(p: &Parsed, Ghost(os): Ghost<HostOs>, Ghost(s): Ghost<Seq<char>>) -> (b: bool)
    requires
        p.matches(os, s),
    ensures
        b == starts_at_cur_dir(os, s),
{
    let v = &p.chars;
    let k = p.plen;
    assert(k < v.len() ==> body(os, s)[0] == v@[k as int]);
    assert(k + 1 < v.len() ==> body(os, s)[1] == v@[k + 1]);
    p.prefix.is_none() && !p.root && k < v.len() && v[k] == '.' && (k + 1 == v.len() || sep_in(p.mode, v[k + 1]))
}

fn is_dot_dot(p: &str) -> (b: bool)
    ensures
        b == (p@ == dot_dot()),
{
    let v = chars_of(p);
    let r = v.len() == 2 && v[0] == '.' && v[1] == '.';
    if r {
        assert(v@ =~= dot_dot());
    }
    r
}

fn is_dot(p: &str) -> (b: bool)
    ensures
        b == (p@ == seq!['.']),
{
    let v = chars_of(p);
    let r = v.len() == 1 && v[0] == '.';
    if r {
        assert(v@ =~= seq!['.']);
    }
    r
}

/// Whether the path has a `..` component on `os`.
pub fn has_parent_component(os: HostOs, s: &str) -> (b: bool)
    ensures
        b == has_parent_ref(os, s@),
{
    let g = path_segments(os, s);
    let mut i: usize = 0;
    while i < g.len()
        invariant
            views(g@) == segments(os, s@),
            i <= g.len(),
            forall|k: int| 0 <= k < i ==> segments(os, s@)[k] != dot_dot(),
        decreases g.len() - i,
    {
        assert(views(g@)[i as int] == g@[i as int]@);
        if is_dot_dot(g[i].as_str()) {
            assert(segments(os, s@)[i as int] == dot_dot());
            return true;
        }
        i += 1;
    }
    false
}

/// All components of `s` on `os` (see `components`).
fn path_components(os: HostOs, s: &str) -> (r: Vec<Vec<char>>)
    ensures
        r@.map_values(|c: Vec<char>| c@) == components(os, s@),
{
    let p = parse(os, s);
    let g = parsed_segments(&p, Ghost(os), Ghost(s@));
    let cur = cur_dir_start(&p, Ghost(os), Ghost(s@));
    let mut r: Vec<Vec<char>> = Vec::new();
    let implicit = match &p.prefix {
        Some(q) => {
            let mut t: Vec<char> = Vec::new();
            t.push('\\');
            t.push(
                match q.0 {
                    PrefixKind::Disk => 'D',
                    PrefixKind::VerbatimDisk => 'V',
                    PrefixKind::Verbatim => 'R',
                    PrefixKind::VerbatimUnc => 'U',
                    PrefixKind::DeviceNs => 'N',
                    PrefixKind::Unc => 'C',
                },
            );
            let mut j: usize = 0;
            let ghost t0 = t@;
            while j < q.2.len()
                invariant
                    j <= q.2.len(),
                    t@ == t0 + q.2@.take(j as int),
                decreases q.2.len() - j,
            {
                t.push(q.2[j]);
                assert(q.2@.take(j + 1) =~= q.2@.take(j as int).push(q.2@[j as int]));
                j += 1;
            }
            assert(q.2@.take(q.2.len() as int) =~= q.2@);
            assert(t@ =~= seq!['\\', kind_char(q.0)] + q.2@);
            r.push(t);
            q.0 == PrefixKind::Unc || q.0 == PrefixKind::DeviceNs
        },
        None => false,
    };
    let ghost pre = r@.map_values(|c: Vec<char>| c@);
    if p.root || implicit {
        r.push(Vec::new());
    }
    if cur {
        let mut d: Vec<char> = Vec::new();
        d.push('.');
        assert(d@ =~= seq!['.']);
        r.push(d);
    }
    let ghost head = r@.map_values(|c: Vec<char>| c@);
    let mut i: usize = 0;
    while i < g.len()
        invariant
            i <= g.len(),
            views(g@) == segments(os, s@),
            r@.map_values(|c: Vec<char>| c@) == head + segments(os, s@).take(i as int),
        decreases g.len() - i,
    {
        let c = chars_of(g[i].as_str());
        let ghost before = r@.map_values(|c: Vec<char>| c@);
        r.push(c);
        assert(views(g@)[i as int] == g@[i as int]@);
        assert(r@.map_values(|c: Vec<char>| c@) =~= before.push(c@));
        assert(segments(os, s@).take(i + 1) =~= segments(os, s@).take(i as int).push(segments(os, s@)[i as int]));
        i += 1;
    }
    assert(segments(os, s@).take(g.len() as int) =~= segments(os, s@));
    assert(r@.map_values(|c: Vec<char>| c@) =~= components(os, s@));
    r
}

/// `Path::new(p).starts_with(base)` on `os`.
pub fn path_starts_with(os: HostOs, p: &str, base: &str) -> (b: bool)
    ensures
        b == path_has_prefix(os, p@, base@),
{
    let cp = path_components(os, p);
    let cb = path_components(os, base);
    let ghost vp = cp@.map_values(|c: Vec<char>| c@);
    let ghost vb = cb@.map_values(|c: Vec<char>| c@);
    assert(vp.len() == cp.len() && vb.len() == cb.len());
    if cb.len() > cp.len() {
        return false;
    }
    let mut i: usize = 0;
    while i < cb.len()
        invariant
            i <= cb.len() <= cp.len(),
            vp == cp@.map_values(|c: Vec<char>| c@),
            vb == cb@.map_values(|c: Vec<char>| c@),
            vp == components(os, p@),
            vb == components(os, base@),
            forall|k: int| 0 <= k < i ==> vp[k] == vb[k],
        decreases cb.len() - i,
    {
        assert(vp[i as int] == cp@[i as int]@);
        assert(vb[i as int] == cb@[i as int]@);
        if !same_chars(&cp[i], &cb[i]) {
            assert(vp[i as int] == cp@[i as int]@);
            assert(vb[i as int] == cb@[i as int]@);
            assert(vp.take(cb.len() as int)[i as int] != vb[i as int]);
            return false;
        }
        i += 1;
    }
    assert(vp.take(cb.len() as int) =~= vb);
    true
}

fn same_chars(a: &Vec<char>, b: &Vec<char>) -> (r: bool)
    ensures
        r == (a@ == b@),
{
    if a.len() != b.len() {
        return false;
    }
    let mut i: usize = 0;
    while i < a.len()
        invariant
            a.len() == b.len(),
            i <= a.len(),
            forall|k: int| 0 <= k < i ==> a@[k] == b@[k],
        decreases a.len() - i,
    {
        if a[i] != b[i] {
            return false;
        }
        i += 1;
    }
    assert(a@ =~= b@);
    true
}

/// `Path::new(s).file_name()` on `os`.
pub fn file_name(os: HostOs, s: &str) -> (r: Option<String>)
    ensures
        r matches Some(n) ==> file_name_of(os, s@) == Some(n@),
        r is None ==> file_name_of(os, s@) is None,
{
    let g = path_segments(os, s);
    if g.len() == 0 {
        return None;
    }
    let last = &g[g.len() - 1];
    assert(views(g@)[g.len() - 1] == last@);
    if is_dot_dot(last.as_str()) || is_dot(last.as_str()) {
        None
    } else {
        Some(last.clone())
    }
}

/// The extension of a file name (see `name_extension`).
pub fn name_ext(n: &str) -> (r: Option<String>)
    ensures
        r matches Some(e) ==> name_extension(n@) == Some(e@),
        r is None ==> name_extension(n@) is None,
{
    let v = chars_of(n);
    let mut i: usize = v.len();
    assert(v@.take(v.len() as int) == v@);
    while i > 0 && v[i - 1] != '.'
        invariant
            i <= v.len(),
            v@ == n@,
            last_dot(v@) == last_dot(v@.take(i as int)),
        decreases i,
    {
        assert(v@.take(i as int).drop_last() == v@.take(i - 1));
        i -= 1;
    }
    if i == 0 {
        assert(v@.take(0) == Seq::<char>::empty());
        return None;
    }
    assert(v@.take(i as int).last() == '.');
    if i == 1 {
        return None;
    }
    let e = string_of_range(&v, i, v.len());
    assert(v@.subrange(i as int, v.len() as int) == n@.skip(i as int));
    Some(e)
}

/// `Path::new(s).extension()` on `os`.
pub fn extension(os: HostOs, s: &str) -> (r: Option<String>)
    ensures
        r matches Some(e) ==> extension_of(os, s@) == Some(e@),
        r is None ==> extension_of(os, s@) is None,
{
    match file_name(os, s) {
        Some(n) => name_ext(n.as_str()),
        None => None,
    }
}

// ---------------------------------------------------------------------------
// Executable joining
// ---------------------------------------------------------------------------

/// The components of a verbatim base (see `verbatim_items`).
fn base_items(p: &Parsed, Ghost(s): Ghost<Seq<char>>) -> (r: Vec<Vec<char>>)
    requires
        p.matches(HostOs::Windows, s),
    ensures
        r@.map_values(|c: Vec<char>| c@) == verbatim_items(s),
{
    let w = HostOs::Windows;
    let g = parsed_segments(p, Ghost(w), Ghost(s));
    let mut r: Vec<Vec<char>> = Vec::new();
    r.push(take_range(&p.chars, 0, p.plen));
    assert(s.skip(0).take(p.plen as int) =~= s.take(prefix_len(w, s)));
    if p.root {
        let mut t: Vec<char> = Vec::new();
        t.push('\\');
        assert(t@ =~= root_text());
        r.push(t);
    }
    let ghost head = r@.map_values(|c: Vec<char>| c@);
    let mut i: usize = 0;
    while i < g.len()
        invariant
            i <= g.len(),
            views(g@) == segments(w, s),
            r@.map_values(|c: Vec<char>| c@) == head + segments(w, s).take(i as int),
        decreases g.len() - i,
    {
        let c = chars_of(g[i].as_str());
        let ghost before = r@.map_values(|c: Vec<char>| c@);
        r.push(c);
        assert(views(g@)[i as int] == g@[i as int]@);
        assert(r@.map_values(|c: Vec<char>| c@) =~= before.push(c@));
        assert(segments(w, s).take(i + 1) =~= segments(w, s).take(i as int).push(segments(w, s)[i as int]));
        i += 1;
    }
    assert(segments(w, s).take(g.len() as int) =~= segments(w, s));
    assert(r@.map_values(|c: Vec<char>| c@) =~= verbatim_items(s));
    r
}

/// The components of a relative path (see `relative_items`).
fn rel_items(p: &Parsed, Ghost(s): Ghost<Seq<char>>) -> (r: Vec<Vec<char>>)
    requires
        p.matches(HostOs::Windows, s),
    ensures
        r@.map_values(|c: Vec<char>| c@) == relative_items(s),
{
    let w = HostOs::Windows;
    let g = parsed_segments(p, Ghost(w), Ghost(s));
    let mut r: Vec<Vec<char>> = Vec::new();
    if p.root {
        let mut t: Vec<char> = Vec::new();
        t.push('\\');
        assert(t@ =~= root_text());
        r.push(t);
    }
    let ghost head = r@.map_values(|c: Vec<char>| c@);
    let mut i: usize = 0;
    while i < g.len()
        invariant
            i <= g.len(),
            views(g@) == segments(w, s),
            r@.map_values(|c: Vec<char>| c@) == head + segments(w, s).take(i as int),
        decreases g.len() - i,
    {
        let c = chars_of(g[i].as_str());
        let ghost before = r@.map_values(|c: Vec<char>| c@);
        r.push(c);
        assert(views(g@)[i as int] == g@[i as int]@);
        assert(r@.map_values(|c: Vec<char>| c@) =~= before.push(c@));
        assert(segments(w, s).take(i + 1) =~= segments(w, s).take(i as int).push(segments(w, s)[i as int]));
        i += 1;
    }
    assert(segments(w, s).take(g.len() as int) =~= segments(w, s));
    assert(r@.map_values(|c: Vec<char>| c@) =~= relative_items(s));
    r
}

fn is_root_item(c: &Vec<char>) -> (b: bool)
    ensures
        b == (c@ == root_text()),
{
    let b = c.len() == 1 && c[0] == '\\';
    if b {
        assert(c@ =~= root_text());
    }
    b
}

fn is_dot_item(c: &Vec<char>) -> (b: bool)
    ensures
        b == (c@ == seq!['.']),
{
    let b = c.len() == 1 && c[0] == '.';
    if b {
        assert(c@ =~= seq!['.']);
    }
    b
}

fn is_dot_dot_item(c: &Vec<char>) -> (b: bool)
    ensures
        b == (c@ == dot_dot()),
{
    let b = c.len() == 2 && c[0] == '.' && c[1] == '.';
    if b {
        assert(c@ =~= dot_dot());
    }
    b
}

/// `base.join(rel)` for a verbatim Windows base and a relative `rel`.
fn verbatim_join(pb: &Parsed, pr: &Parsed, Ghost(base): Ghost<Seq<char>>, Ghost(rel): Ghost<Seq<char>>) -> (r: Vec<char>)
    requires
        pb.matches(HostOs::Windows, base),
        pr.matches(HostOs::Windows, rel),
    ensures
        r@ == verbatim_text(verbatim_apply(verbatim_items(base), relative_items(rel))),
{
    let mut buf = base_items(pb, Ghost(base));
    let items = rel_items(pr, Ghost(rel));
    let ghost start = verbatim_items(base);
    let ghost iv = items@.map_values(|c: Vec<char>| c@);
    assert(buf@.map_values(|c: Vec<char>| c@).len() == buf.len());
    let mut i: usize = 0;
    assert(iv.take(0) =~= Seq::<Seq<char>>::empty());
    while i < items.len()
        invariant
            i <= items.len(),
            iv == items@.map_values(|c: Vec<char>| c@),
            iv == relative_items(rel),
            buf.len() >= 1,
            buf@.map_values(|c: Vec<char>| c@) == verbatim_apply(start, iv.take(i as int)),
        decreases items.len() - i,
    {
        let c = &items[i];
        let ghost before = buf@.map_values(|c: Vec<char>| c@);
        assert(iv.take(i + 1).drop_last() =~= iv.take(i as int));
        assert(iv.take(i + 1).last() == c@);
        if is_root_item(c) {
            buf.truncate(1);
            let cc = take_range(c, 0, c.len());
            assert(cc@ =~= c@);
            buf.push(cc);
            assert(buf@.map_values(|c: Vec<char>| c@) =~= before.take(1).push(c@));
        } else if is_dot_dot_item(c) {
            let n = buf.len();
            if n > 1 && !is_root_item(&buf[n - 1]) && !is_dot_item(&buf[n - 1]) && !is_dot_dot_item(&buf[n - 1]) {
                buf.pop();
                assert(buf@.map_values(|c: Vec<char>| c@) =~= before.drop_last());
            }
        } else if is_dot_item(c) {
        } else {
            let cc = take_range(c, 0, c.len());
            assert(cc@ =~= c@);
            buf.push(cc);
            assert(buf@.map_values(|c: Vec<char>| c@) =~= before.push(c@));
        }
        i += 1;
    }
    assert(iv.take(items.len() as int) =~= iv);
    let ghost fin = buf@.map_values(|c: Vec<char>| c@);
    let mut out: Vec<char> = Vec::new();
    let mut j: usize = 0;
    assert(fin.take(0) =~= Seq::<Seq<char>>::empty());
    while j < buf.len()
        invariant
            j <= buf.len(),
            fin == buf@.map_values(|c: Vec<char>| c@),
            out@ == verbatim_text(fin.take(j as int)),
        decreases buf.len() - j,
    {
        let ghost tk = fin.take(j + 1);
        assert(tk.drop_last() =~= fin.take(j as int));
        assert(tk.last() == buf@[j as int]@);
        if j > 0 {
            assert(tk[j - 1] == buf@[j - 1]@);
        }
        if j > 0 && !is_root_item(&buf[j]) && !is_root_item(&buf[j - 1]) {
            out.push('\\');
        }
        let ghost mid = out@;
        let c = &buf[j];
        let mut k: usize = 0;
        while k < c.len()
            invariant
                k <= c.len(),
                out@ == mid + c@.take(k as int),
            decreases c.len() - k,
        {
            out.push(c[k]);
            assert(c@.take(k + 1) =~= c@.take(k as int).push(c@[k as int]));
            k += 1;
        }
        assert(c@.take(c.len() as int) =~= c@);
        assert(out@ =~= verbatim_text(tk));
        j += 1;
    }
    assert(fin.take(buf.len() as int) =~= fin);
    out
}

/// `Path::new(base).join(rel)` on `os`, as text.
pub fn join(os: HostOs, base: &str, rel: &str) -> (r: String)
    ensures
        r@ == joined(os, base@, rel@),
{
    reveal(joined);
    let pr = parse(os, rel);
    if os != HostOs::Windows {
        if pr.root {
            return owned(rel);
        }
        let bv = chars_of(base);
        proof {
            reveal_strlit("/");
        }
        return if bv.len() > 0 && bv[bv.len() - 1] != '/' {
            cat3(base, "/", rel)
        } else {
            cat(base, rel)
        };
    }
    let rel_abs = match &pr.prefix {
        Some(_) => true,
        None => false,
    };
    if rel_abs {
        return owned(rel);
    }
    let pb = parse(os, base);
    let base_verbatim = os_is_windows_verbatim(&pb);
    if base_verbatim && pr.chars.len() > 0 {
        let v = verbatim_join(&pb, &pr, Ghost(base@), Ghost(rel@));
        return string_of(&v);
    }
    proof {
        reveal_strlit("\\");
    }
    if pr.root {
        let head = take_range(&pb.chars, 0, pb.plen);
        let h = string_of(&head);
        assert(h@ =~= base@.take(prefix_len(os, base@)));
        return cat(h.as_str(), rel);
    }
    let bv = &pb.chars;
    let n = bv.len();
    let bare_drive = match &pb.prefix {
        Some(q) => q.0 == PrefixKind::Disk && q.1 == n,
        None => false,
    };
    if n > 0 && bv[n - 1] != '/' && bv[n - 1] != '\\' && !bare_drive {
        cat3(base, "\\", rel)
    } else {
        cat(base, rel)
    }
}

// ---------------------------------------------------------------------------
// Lemmas
// ---------------------------------------------------------------------------

pub proof fn lemma_split_len(s: Seq<char>, m: SepMode)
    ensures
        split_by(s, m).len() >= 1,
    decreases s.len(),
{
    if s.len() > 0 {
        lemma_split_len(s.drop_last(), m);
    }
}

/// Text without a separator is a single piece.
pub proof fn lemma_split_without_sep(s: Seq<char>, m: SepMode)
    requires
        forall|i: int| 0 <= i < s.len() ==> !is_sep_in(m, #[trigger] s[i]),
    ensures
        split_by(s, m) == seq![s],
    decreases s.len(),
{
    if s.len() == 0 {
        assert(s =~= Seq::<char>::empty());
        assert(split_by(s, m) =~= seq![s]);
    } else {
        let d = s.drop_last();
        assert(!is_sep_in(m, s[s.len() - 1]));
        lemma_split_without_sep(d, m);
        assert(d.push(s.last()) =~= s);
        let p = split_by(d, m);
        assert(split_by(s, m) == p.update(p.len() - 1, p.last().push(s.last())));
        assert(split_by(s, m) =~= seq![s]);
    }
}

/// Splitting text joined by a separator splits each side.
pub proof fn lemma_split_concat(a: Seq<char>, m: SepMode, c: char, b: Seq<char>)
    requires
        is_sep_in(m, c),
    ensures
        split_by(a + seq![c] + b, m) == split_by(a, m) + split_by(b, m),
    decreases b.len(),
{
    if b.len() == 0 {
        assert(a + seq![c] + b =~= a.push(c));
        assert((a + seq![c] + b).drop_last() =~= a);
        assert(split_by(b, m) =~= seq![Seq::<char>::empty()]);
        assert(split_by(a, m).push(Seq::<char>::empty()) =~= split_by(a, m) + seq![Seq::<char>::empty()]);
    } else {
        let s = a + seq![c] + b;
        assert(s.drop_last() =~= a + seq![c] + b.drop_last());
        assert(s.last() == b.last());
        lemma_split_concat(a, m, c, b.drop_last());
        lemma_split_len(b.drop_last(), m);
        let x = split_by(a, m);
        let y = split_by(b.drop_last(), m);
        if is_sep_in(m, b.last()) {
            assert((x + y).push(Seq::<char>::empty()) =~= x + y.push(Seq::<char>::empty()));
        } else {
            assert((x + y).update((x + y).len() - 1, (x + y).last().push(b.last())) =~= x + y.update(
                y.len() - 1,
                y.last().push(b.last()),
            ));
        }
    }
}

proof fn lemma_first_sep_extend(x: Seq<char>, t: Seq<char>, m: SepMode)
    requires
        first_sep(x, m) < x.len(),
    ensures
        first_sep(x + t, m) == first_sep(x, m),
    decreases x.len(),
{
    assert((x + t)[0] == x[0]);
    if !is_sep_in(m, x[0]) {
        assert((x + t).drop_first() =~= x.drop_first() + t);
        lemma_first_sep_extend(x.drop_first(), t, m);
    }
}

/// A prefix that a root separator follows is not changed by what comes
/// after it.
proof fn lemma_prefix_extend(s: Seq<char>, t: Seq<char>)
    requires
        win_prefix(s) matches Some(p) && (p.0 == PrefixKind::Disk || p.0 == PrefixKind::DeviceNs || p.0
            == PrefixKind::Unc) && p.1 < s.len() && any_sep(s[p.1]),
    ensures
        win_prefix(s + t) == win_prefix(s),
{
    let st = s + t;
    let p = win_prefix(s)->Some_0;
    assert(forall|i: int| 0 <= i < s.len() ==> st[i] == s[i]);
    if p.0 == PrefixKind::DeviceNs {
        let u = s.skip(4);
        lemma_first_sep_bounds(u, SepMode::Both);
        assert(st.skip(4) =~= u + t);
        assert(first_sep(u, SepMode::Both) < u.len());
        lemma_first_sep_extend(u, t, SepMode::Both);
        assert((u + t).take(first_sep(u, SepMode::Both)) =~= u.take(first_sep(u, SepMode::Both)));
    } else if p.0 == PrefixKind::Unc {
        let x = s.skip(2);
        let a = first_sep(x, SepMode::Both);
        lemma_first_sep_bounds(x, SepMode::Both);
        assert(st.skip(2) =~= x + t);
        assert(a < x.len());
        lemma_first_sep_extend(x, t, SepMode::Both);
        let w = after_first(x, SepMode::Both);
        assert(w =~= x.skip(a + 1));
        assert(after_first(x + t, SepMode::Both) =~= w + t);
        let b = first_sep(w, SepMode::Both);
        lemma_first_sep_bounds(w, SepMode::Both);
        assert(b < w.len());
        lemma_first_sep_extend(w, t, SepMode::Both);
        assert((x + t).take(a) =~= x.take(a));
        assert((w + t).take(b) =~= w.take(b));
    }
}

/// The separator a join adds on `os`.
pub open spec fn join_sep(os: HostOs) -> char {
    if win(os) {
        '\\'
    } else {
        '/'
    }
}

/// A join on `os` adds a separator after `base`.
pub open spec fn needs_sep(os: HostOs, base: Seq<char>) -> bool {
    if win(os) {
        win_needs_sep(base)
    } else {
        base.len() > 0 && base.last() != '/'
    }
}

/// The base may be joined to without its prefix changing: not empty, and on
/// Windows absolute, not verbatim, and followed by a root separator.
pub open spec fn plain_base(os: HostOs, base: Seq<char>) -> bool {
    &&& base.len() > 0
    &&& win(os) ==> prefix_of(os, base) is Some && physical_root(os, base) && !verbatim(os, base)
}

proof fn lemma_join_shape(os: HostOs, base: Seq<char>, rel: Seq<char>)
    requires
        plain_base(os, base),
        prefix_of(os, rel) is None,
        !has_root(os, rel),
    ensures
        joined(os, base, rel) == base + (if needs_sep(os, base) {
            seq![join_sep(os)] + rel
        } else {
            rel
        }),
        !needs_sep(os, base) ==> is_sep_in(os_mode(os), base.last()),
{
    reveal(joined);
    if win(os) {
        assert(!is_abs(os, rel));
        let p = win_prefix(base)->Some_0;
        if !win_needs_sep(base) {
            if !any_sep(base.last()) {
                assert(p.0 == PrefixKind::Disk && p.1 == base.len());
                assert(body(os, base).len() == 0);
            }
        }
    } else {
        assert(!physical_root(os, rel));
    }
}

/// A prefix is not empty and lies within the path.
pub proof fn lemma_prefix_bounds(s: Seq<char>)
    ensures
        win_prefix(s) matches Some(p) ==> 0 < p.1 <= s.len(),
{
    if s.len() >= 2 && any_sep(s[0]) && any_sep(s[1]) {
        if s.len() >= 4 && s[0] == '\\' && s[1] == '\\' && s[2] == '?' && s[3] == '\\' {
            let u = s.skip(4);
            lemma_first_sep_bounds(u, SepMode::Backslash);
            if u.len() >= 4 && u[0] == 'U' && u[1] == 'N' && u[2] == 'C' && any_sep(u[3]) {
                let v = u.skip(4);
                lemma_first_sep_bounds(v, SepMode::Backslash);
                let w = after_first(v, SepMode::Backslash);
                lemma_first_sep_bounds(w, SepMode::Backslash);
            }
        } else if s.len() >= 4 && s[2] == '.' && any_sep(s[3]) {
            lemma_first_sep_bounds(s.skip(4), SepMode::Both);
        } else {
            let t = s.skip(2);
            lemma_first_sep_bounds(t, SepMode::Both);
            let w = after_first(t, SepMode::Both);
            lemma_first_sep_bounds(w, SepMode::Both);
        }
    }
}

proof fn lemma_prefix_same(os: HostOs, base: Seq<char>, suffix: Seq<char>)
    requires
        plain_base(os, base),
    ensures
        prefix_of(os, base + suffix) == prefix_of(os, base),
        prefix_len(os, base + suffix) == prefix_len(os, base),
        body(os, base + suffix) == body(os, base) + suffix,
        body(os, base).len() > 0,
        !verbatim(os, base + suffix),
        body_mode(os, base + suffix) == os_mode(os),
        body_mode(os, base) == os_mode(os),
{
    if win(os) {
        let p = win_prefix(base)->Some_0;
        lemma_prefix_bounds(base);
        assert(body(os, base).len() > 0);
        assert(p.1 < base.len());
        assert(body(os, base)[0] == base[p.1]);
        lemma_prefix_extend(base, suffix);
    }
    assert(body(os, base + suffix) =~= body(os, base) + suffix);
}

proof fn lemma_rel_segments(os: HostOs, rel: Seq<char>)
    requires
        prefix_of(os, rel) is None,
    ensures
        segments(os, rel) == split_by(rel, os_mode(os)).filter(|q: Seq<char>| is_segment_in(false, q)),
{
    assert(body(os, rel) =~= rel);
}

proof fn lemma_plain_segments(os: HostOs, s: Seq<char>)
    requires
        !verbatim(os, s),
        body_mode(os, s) == os_mode(os),
    ensures
        segments(os, s) == split_by(body(os, s), os_mode(os)).filter(|q: Seq<char>| is_segment_in(false, q)),
{
}

proof fn lemma_split_segments(x: Seq<char>, m: SepMode, c: char, y: Seq<char>)
    requires
        is_sep_in(m, c),
    ensures
        split_by(x + seq![c] + y, m).filter(|q: Seq<char>| is_segment_in(false, q)) == split_by(x, m).filter(
            |q: Seq<char>| is_segment_in(false, q),
        ) + split_by(y, m).filter(|q: Seq<char>| is_segment_in(false, q)),
        split_by(x + seq![c], m).filter(|q: Seq<char>| is_segment_in(false, q)) == split_by(x, m).filter(
            |q: Seq<char>| is_segment_in(false, q),
        ),
{
    let pred = |q: Seq<char>| is_segment_in(false, q);
    lemma_split_concat(x, m, c, y);
    Seq::filter_distributes_over_add(split_by(x, m), split_by(y, m), pred);
    lemma_split_concat(x, m, c, Seq::<char>::empty());
    assert(x + seq![c] + Seq::<char>::empty() =~= x + seq![c]);
    Seq::filter_distributes_over_add(split_by(x, m), split_by(Seq::<char>::empty(), m), pred);
    let e0 = Seq::<Seq<char>>::empty();
    assert(split_by(Seq::<char>::empty(), m) =~= e0.push(Seq::<char>::empty()));
    e0.lemma_filter_push(Seq::<char>::empty(), pred);
    assert(e0.filter(pred) =~= e0) by {
        reveal(Seq::filter);
    }
    assert(split_by(x, m).filter(pred) + e0 =~= split_by(x, m).filter(pred));
}

/// Joining a relative path with no prefix or root to a base (on Windows an
/// absolute, non-verbatim base followed by a root separator) keeps the
/// base's components and adds the path's.
pub proof fn lemma_join_relative(os: HostOs, base: Seq<char>, rel: Seq<char>)
    requires
        plain_base(os, base),
        prefix_of(os, rel) is None,
        !has_root(os, rel),
    ensures
        ({
            let j = joined(os, base, rel);
            &&& plain_base(os, j)
            &&& prefix_of(os, j) == prefix_of(os, base)
            &&& physical_root(os, j) == physical_root(os, base)
            &&& starts_at_cur_dir(os, j) == starts_at_cur_dir(os, base)
            &&& segments(os, j) == segments(os, base) + segments(os, rel)
            &&& components(os, j) == components(os, base) + segments(os, rel)
        }),
{
    let j = joined(os, base, rel);
    let m = os_mode(os);
    let need = needs_sep(os, base);
    let c = join_sep(os);
    let suffix = if need { seq![c] + rel } else { rel };
    lemma_join_shape(os, base, rel);
    lemma_prefix_same(os, base, suffix);
    assert(j == base + suffix);
    let bb = body(os, base);
    lemma_rel_segments(os, rel);
    lemma_plain_segments(os, base);
    lemma_plain_segments(os, j);
    if need {
        assert(body(os, j) =~= bb + seq![c] + rel);
        lemma_split_segments(bb, m, c, rel);
    } else {
        let d = bb.drop_last();
        let e = bb.last();
        if win(os) {
            lemma_prefix_bounds(base);
        }
        assert(bb == base.skip(prefix_len(os, base)));
        assert(e == base.last());
        assert(bb =~= d + seq![e]);
        assert(body(os, j) =~= d + seq![e] + rel);
        lemma_split_segments(d, m, e, rel);
    }
    assert(segments(os, j) =~= segments(os, base) + segments(os, rel));
    assert(body(os, j)[0] == bb[0]);
    if bb.len() > 1 {
        assert(body(os, j)[1] == bb[1]);
    }
    assert(starts_at_cur_dir(os, j) == starts_at_cur_dir(os, base));
    assert(components(os, j) =~= components(os, base) + segments(os, rel));
}

/// A single name with no separator, prefix or `"."`: its only component.
pub proof fn lemma_name_segments(os: HostOs, n: Seq<char>)
    requires
        forall|i: int| 0 <= i < n.len() ==> !is_sep_in(os_mode(os), #[trigger] n[i]),
        is_segment_in(false, n),
        prefix_of(os, n) is None,
    ensures
        segments(os, n) == seq![n],
        !has_root(os, n),
        !is_abs(os, n),
{
    let m = os_mode(os);
    assert(body(os, n) =~= n);
    assert(body_mode(os, n) == m);
    lemma_split_without_sep(n, m);
    let pred = |q: Seq<char>| is_segment_in(false, q);
    let e = Seq::<Seq<char>>::empty();
    assert(seq![n] =~= e.push(n));
    e.lemma_filter_push(n, pred);
    assert(e.filter(pred) =~= e) by {
        reveal(Seq::filter);
    }
    assert(segments(os, n) == seq![n].filter(pred));
    assert(!is_sep_in(m, n[0]));
}

} // verus!
