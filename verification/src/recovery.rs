//! Crash-recovery snapshots of unsaved editor buffers: where they are
//! written, which old ones are pruned, how they are listed, and which paths
//! may be read back.

use vstd::prelude::*;
use crate::text::{owned, cat, cat3, chars_of, string_of, views, has_suffix, ends_with, replace_char, replaced,
    is_alphanumeric, alphanumeric_char, same_text};
use crate::numbers::{decimal, decimal_string, is_digit};
use crate::order::{sort_strings, sorted_lex};
use crate::paths::{dot_dot, extension, extension_of, file_name, file_name_of, join, joined, path_has_prefix,
    path_segments, path_starts_with, segments, is_abs, is_sep_in, is_segment_in, os_mode, prefix_of, physical_root,
    verbatim, win, components, last_dot, body, lemma_join_relative, lemma_name_segments, split_by, SepMode, has_root,
    prefix_len, plain_base, name_extension};
use crate::workspace::{safe_component, valid_component, project_path, recovery_dir};
use crate::runtime::HostOs;
use crate::security::{ConfigPresence, WorkspaceLock, require_unlocked, gate_open, locked_text};

verus! {

/// What a snapshot file holds.
pub struct SnapshotEnvelope {
    pub relative_path: String,
    pub content: String,
    pub saved_at: u64,
}

/// One snapshot in the recovery list.
pub struct RecoverySnapshot {
    pub project: String,
    pub relative_path: String,
    pub snapshot_path: String,
    pub size: u64,
    pub saved_at: u64,
}

/// A snapshot read back for restoring.
pub struct RecoveryContent {
    pub project: String,
    pub relative_path: String,
    pub content: String,
    pub saved_at: u64,
}

/// How many snapshots of one file are kept.
pub const SNAPSHOTS_KEPT: usize = 5;

// ---------------------------------------------------------------------------
// Naming
// ---------------------------------------------------------------------------

/// A character kept in a snapshot file name, or `'_'` in its place. Path
/// separators are never alphanumeric, so they are always replaced.
pub open spec fn suffix_char(c: char) -> char {
    if c == '/' || c == '\\' {
        '_'
    } else if alphanumeric_char(c) || c == '.' || c == '-' {
        c
    } else {
        '_'
    }
}

/// A relative path made safe for a file name: every character that is not
/// alphanumeric, `'.'` or `'-'` becomes `'_'`.
pub open spec fn safe_suffix_of(s: Seq<char>) -> Seq<char> {
    s.map_values(|c: char| suffix_char(c))
}

/// A relative path made safe for a file name (see `safe_suffix_of`).
pub fn safe_suffix(relative_path: &str) -> (r: String)
    ensures
        r@ == safe_suffix_of(relative_path@),
{
    let v = chars_of(relative_path);
    let mut out: Vec<char> = Vec::new();
    let mut i: usize = 0;
    while i < v.len()
        invariant
            v@ == relative_path@,
            i <= v.len(),
            out@ == safe_suffix_of(v@.take(i as int)),
        decreases v.len() - i,
    {
        let c = v[i];
        let k = if is_alphanumeric(c) || c == '.' || c == '-' { c } else { '_' };
        out.push(k);
        assert(safe_suffix_of(v@.take(i + 1)) =~= safe_suffix_of(v@.take(i as int)).push(k));
        i += 1;
    }
    assert(v@.take(v.len() as int) == v@);
    string_of(&out)
}

/// Making a path safe twice changes nothing more, and keeps its length.
pub proof fn law_safe_suffix_idempotent(s: Seq<char>)
    ensures
        safe_suffix_of(safe_suffix_of(s)) == safe_suffix_of(s),
        safe_suffix_of(s).len() == s.len(),
{
    assert(safe_suffix_of(safe_suffix_of(s)) =~= safe_suffix_of(s));
}

/// The end shared by every snapshot file of one source file.
pub open spec fn snapshot_suffix(relative_path: Seq<char>) -> Seq<char> {
    "-"@ + safe_suffix_of(relative_path) + ".json"@
}

/// The name of a snapshot file: `<saved_at>-<safe path>.json`.
pub open spec fn snapshot_name(saved_at: u64, relative_path: Seq<char>) -> Seq<char> {
    decimal(saved_at as nat) + snapshot_suffix(relative_path)
}

/// The end shared by every snapshot file of one source file.
pub fn snapshot_file_suffix(relative_path: &str) -> (r: String)
    ensures
        r@ == snapshot_suffix(relative_path@),
{
    let s = safe_suffix(relative_path);
    cat3("-", s.as_str(), ".json")
}

/// The name of a snapshot file.
pub fn snapshot_file_name(saved_at: u64, relative_path: &str) -> (r: String)
    ensures
        r@ == snapshot_name(saved_at, relative_path@),
{
    let t = decimal_string(saved_at);
    let s = snapshot_file_suffix(relative_path);
    cat(t.as_str(), s.as_str())
}

/// Where a new snapshot of `relative_path` taken at `saved_at` is written,
/// inside the project's recovery directory.
pub open spec fn snapshot_path_in(os: HostOs, dir: Seq<char>, saved_at: u64, relative_path: Seq<char>) -> Seq<char> {
    joined(os, dir, snapshot_name(saved_at, relative_path))
}

/// A snapshot about to be saved: the recovery directory to create, the
/// file to write and what to write in it, and the path shown once it is
/// saved (with `'/'` separators).
pub struct SnapshotPlan {
    pub dir: String,
    pub path: String,
    pub envelope: SnapshotEnvelope,
    pub shown: String,
}

/// Saving a snapshot of an unsaved buffer, up to the writing: refused while
/// locked, then for an invalid project name, then when the data root is
/// unknown; else the project's recovery directory, the snapshot file
/// `<saved_at>-<safe path>.json` in it, the envelope holding the exact
/// relative path, content and time, and the path shown for it. After the
/// file is written, `snapshots_to_prune` names what to delete.
pub fn save_recovery_snapshot(
    os: HostOs,
    config: &ConfigPresence,
    lock: &WorkspaceLock,
    root: &Result<String, String>,
    project: &str,
    saved_at: u64,
    relative_path: String,
    content: String,
) -> (r: Result<SnapshotPlan, String>)
    ensures
        config matches Err(e) ==> r == Err::<SnapshotPlan, String>(*e),
        (config matches Ok(c) && !gate_open(*c, lock@)) ==> (r matches Err(m) && m@ == locked_text()),
        (config matches Ok(c) && gate_open(*c, lock@)) ==> {
            &&& !valid_component(project@) ==> (r matches Err(m) && m@ == "invalid project name"@)
            &&& (valid_component(project@) && root is Err) ==> r == Err::<SnapshotPlan, String>(root->Err_0)
            &&& (valid_component(project@) && root is Ok) ==> (r matches Ok(plan) && {
                let dir = joined(os, joined(os, project_path(os, root->Ok_0@, project@), ".kdev"@), "recovery"@);
                &&& plan.dir@ == dir
                &&& plan.path@ == snapshot_path_in(os, dir, saved_at, relative_path@)
                &&& plan.shown@ == replaced(plan.path@, '\\', '/')
                &&& plan.envelope.relative_path@ == relative_path@
                &&& plan.envelope.content@ == content@
                &&& plan.envelope.saved_at == saved_at
            })
        },
{
    require_unlocked(config, lock)?;
    let dir = recovery_dir(os, root, project)?;
    let name = snapshot_file_name(saved_at, relative_path.as_str());
    let path = join(os, dir.as_str(), name.as_str());
    let shown = shown_path(path.as_str());
    let envelope = snapshot_envelope(relative_path, content, saved_at);
    Ok(SnapshotPlan { dir, path, envelope, shown })
}

/// A newly written snapshot is one of the files its source file's pruning
/// looks at, and it is looked at only when pruning a source file whose path
/// is made safe to the same text.
pub proof fn law_saved_snapshot_is_pruned_with_its_file(saved_at: u64, relative_path: Seq<char>, other_path: Seq<char>)
    ensures
        is_snapshot_of(snapshot_name(saved_at, relative_path), snapshot_suffix(relative_path)),
        is_snapshot_of(snapshot_name(saved_at, relative_path), snapshot_suffix(other_path)) ==> safe_suffix_of(
            other_path,
        ) == safe_suffix_of(relative_path),
{
    reveal_strlit("-");
    reveal_strlit(".json");
    let n = snapshot_name(saved_at, relative_path);
    let d = decimal(saved_at as nat);
    let s = snapshot_suffix(relative_path);
    crate::numbers::lemma_decimal_digits(saved_at as nat);
    assert(n.skip(n.len() - s.len()) =~= s);
    assert forall|i: int| 0 <= i < n.len() - s.len() implies is_digit(#[trigger] n[i]) by {
        assert(n[i] == d[i]);
    }
    let o = snapshot_suffix(other_path);
    if is_snapshot_of(n, o) {
        let k = n.len() - o.len();
        // the digits before each suffix end where its '-' begins
        if k > d.len() {
            assert(n[d.len() as int] == '-');
            assert(is_digit(n[d.len() as int]));
        } else if k < d.len() {
            assert(n.skip(k) == o);
            assert(n[k] == o[0]);
            assert(o[0] == '-');
            assert(n[k] == d[k]);
            assert(is_digit(d[k]));
        }
        assert(k == d.len());
        assert(n.skip(k) =~= s);
        assert(o == s);
        let a = safe_suffix_of(other_path);
        let b = safe_suffix_of(relative_path);
        assert(a =~= o.subrange(1, o.len() - 5));
        assert(b =~= s.subrange(1, s.len() - 5));
    }
}

/// A path as the frontend is shown it: `'\\'` written as `'/'`.
pub fn shown_path(p: &str) -> (r: String)
    ensures
        r@ == replaced(p@, '\\', '/'),
{
    replace_char(p, '\\', '/')
}

/// The contents of a new snapshot file.
pub fn snapshot_envelope(relative_path: String, content: String, saved_at: u64) -> (r: SnapshotEnvelope)
    ensures
        r.relative_path@ == relative_path@,
        r.content@ == content@,
        r.saved_at == saved_at,
{
    SnapshotEnvelope { relative_path, content, saved_at }
}

// ---------------------------------------------------------------------------
// Pruning
// ---------------------------------------------------------------------------

/// `name` is a snapshot file of the source file whose snapshots end with
/// `suffix`: one or more decimal digits (the time it was saved), then
/// `suffix`.
pub open spec fn is_snapshot_of(name: Seq<char>, suffix: Seq<char>) -> bool {
    &&& name.len() > suffix.len()
    &&& has_suffix(name, suffix)
    &&& forall|i: int| 0 <= i < name.len() - suffix.len() ==> is_digit(#[trigger] name[i])
}

/// The snapshot files of one source file among `names`, in their original
/// order.
pub open spec fn matching(names: Seq<String>, suffix: Seq<char>) -> Seq<String> {
    names.filter(|n: String| is_snapshot_of(n@, suffix))
}

/// Whether `name` is a snapshot file of the source file whose snapshots end
/// with `suffix` (see `is_snapshot_of`).
fn is_snapshot_name(name: &str, suffix: &str) -> (b: bool)
    ensures
        b == is_snapshot_of(name@, suffix@),
{
    if !ends_with(name, suffix) {
        return false;
    }
    let v = chars_of(name);
    let t = chars_of(suffix);
    if v.len() <= t.len() {
        return false;
    }
    let stem = v.len() - t.len();
    let mut i: usize = 0;
    while i < stem
        invariant
            v@ == name@,
            stem == name@.len() - suffix@.len(),
            i <= stem,
            forall|k: int| 0 <= k < i ==> is_digit(#[trigger] name@[k]),
        decreases stem - i,
    {
        let c = v[i];
        if !(48 <= (c as u32) && (c as u32) <= 57) {
            assert(!is_digit(name@[i as int]));
            return false;
        }
        i += 1;
    }
    true
}

/// The snapshot files of one source file to delete so that only the
/// newest `keep` remain: the names of its snapshots (digits, then
/// `snapshot_suffix(relative_path)`) are sorted and all but the last `keep`
/// of them are returned, first to last. Snapshots of other source files
/// whose names happen to end the same way are left alone.
pub fn snapshots_to_prune(names: Vec<String>, relative_path: &str, keep: usize) -> (r: Vec<String>)
    ensures
        ({
            let m = matching(names@, snapshot_suffix(relative_path@));
            &&& r@.len() == (if m.len() > keep { m.len() - keep } else { 0 })
            &&& exists|kept: Seq<String>|
                #![trigger (r@ + kept).to_multiset()]
                kept.len() == m.len() - r@.len() && (r@ + kept).to_multiset() == m.to_multiset()
                    && sorted_lex(views(r@ + kept))
        }),
{
    let suffix = snapshot_file_suffix(relative_path);
    let ghost pred = |n: String| is_snapshot_of(n@, suffix@);
    let mut ms: Vec<String> = Vec::new();
    let mut i: usize = 0;
    assert(names@.take(0).filter(pred) =~= Seq::<String>::empty()) by {
        reveal(Seq::filter);
    }
    while i < names.len()
        invariant
            i <= names.len(),
            pred == (|n: String| is_snapshot_of(n@, suffix@)),
            ms@ == names@.take(i as int).filter(pred),
        decreases names.len() - i,
    {
        assert(names@.take(i + 1) =~= names@.take(i as int).push(names@[i as int]));
        proof {
            names@.take(i as int).lemma_filter_push(names@[i as int], pred);
        }
        if is_snapshot_name(names[i].as_str(), suffix.as_str()) {
            ms.push(names[i].clone());
        }
        i += 1;
    }
    assert(names@.take(names.len() as int) =~= names@);
    let ghost m = ms@;
    let s = sort_strings(ms);
    let n = s.len();
    let cut = if n > keep { n - keep } else { 0 };
    let mut r: Vec<String> = Vec::new();
    let mut j: usize = 0;
    while j < cut
        invariant
            j <= cut <= n == s@.len(),
            r@ == s@.take(j as int),
        decreases cut - j,
    {
        r.push(s[j].clone());
        assert(s@.take(j + 1) =~= s@.take(j as int).push(s@[j as int]));
        j += 1;
    }
    let ghost kept = s@.skip(cut as int);
    assert(r@ + kept =~= s@);
    r
}

// ---------------------------------------------------------------------------
// Listing
// ---------------------------------------------------------------------------

/// Which projects to list: `Some(name)` for one (checked) project, `None`
/// for all of them when no name (or an empty one) is given.
pub fn snapshot_scope(project: Option<String>) -> (r: Result<Option<String>, String>)
    ensures
        project matches Some(p) ==> (p@.len() > 0 && valid_component(p@) ==> (r matches Ok(Some(q)) && q@ == p@)),
        project matches Some(p) ==> (p@.len() > 0 && !valid_component(p@) ==> (r matches Err(m) && m@
            == "invalid project name"@)),
        (project is None || project->Some_0@.len() == 0) ==> r matches Ok(None),
{
    match project {
        Some(p) => if !p.as_str().is_empty() {
            safe_component(p.as_str())?;
            Ok(Some(p))
        } else {
            Ok(None)
        },
        None => Ok(None),
    }
}

/// The last name of a directory, or `""`.
pub open spec fn dir_name(os: HostOs, dir: Seq<char>) -> Seq<char> {
    match file_name_of(os, dir) {
        Some(n) => n,
        None => Seq::empty(),
    }
}

/// The project a directory belongs to: its last name, or `""`.
pub fn project_name_of_dir(os: HostOs, dir: &str) -> (r: String)
    ensures
        r@ == dir_name(os, dir@),
{
    match file_name(os, dir) {
        Some(n) => n,
        None => String::new(),
    }
}

/// One line of the recovery list for a snapshot file that was read.
pub fn snapshot_entry(project: String, envelope: SnapshotEnvelope, path: &str, size: u64) -> (r: RecoverySnapshot)
    ensures
        r.project@ == project@,
        r.relative_path@ == envelope.relative_path@,
        r.snapshot_path@ == replaced(path@, '\\', '/'),
        r.size == size,
        r.saved_at == envelope.saved_at,
{
    RecoverySnapshot {
        project,
        relative_path: envelope.relative_path,
        snapshot_path: shown_path(path),
        size,
        saved_at: envelope.saved_at,
    }
}

/// No later snapshot is newer than an earlier one.
pub open spec fn newest_first(s: Seq<RecoverySnapshot>) -> bool {
    forall|i: int, j: int| 0 <= i < j < s.len() ==> #[trigger] s[i].saved_at >= #[trigger] s[j].saved_at
}

/// The snapshots saved at time `t`, in order.
pub open spec fn saved_at_time(s: Seq<RecoverySnapshot>, t: u64) -> Seq<RecoverySnapshot> {
    s.filter(|x: RecoverySnapshot| x.saved_at == t)
}

proof fn lemma_filter_none<A>(s: Seq<A>, pred: spec_fn(A) -> bool)
    requires
        forall|i: int| 0 <= i < s.len() ==> !pred(#[trigger] s[i]),
    ensures
        s.filter(pred) == Seq::<A>::empty(),
{
    broadcast use vstd::seq_lib::group_filter_ensures;
    if s.filter(pred).len() > 0 {
        let x = s.filter(pred)[0];
        assert(pred(x));
        assert(s.filter(pred).contains(x));
        s.lemma_filter_contains_rev(pred, x);
        assert(s.contains(x));
        let i = choose|i: int| 0 <= i < s.len() && s[i] == x;
        assert(!pred(s[i]));
    }
    assert(s.filter(pred) =~= Seq::<A>::empty());
}

/// The snapshots sorted newest first; snapshots saved at the same time keep
/// their order.
pub fn sort_newest_first(v: Vec<RecoverySnapshot>) -> (r: Vec<RecoverySnapshot>)
    ensures
        r@.to_multiset() == v@.to_multiset(),
        newest_first(r@),
        forall|t: u64| #[trigger] saved_at_time(r@, t) == saved_at_time(v@, t),
{
    let ghost orig = v@;
    assert(orig.len() == v.len());
    let mut rest = v;
    let mut r: Vec<RecoverySnapshot> = Vec::new();
    let mut k: usize = 0;
    proof {
        assert(orig.take(0) =~= Seq::<RecoverySnapshot>::empty());
        assert forall|t: u64| #[trigger] saved_at_time(r@, t) == saved_at_time(orig.take(0), t) by {
            assert(r@ =~= orig.take(0));
        }
        assert(rest@ =~= orig.skip(0));
    }
    while rest.len() > 0
        invariant
            k <= orig.len(),
            orig.len() <= usize::MAX,
            rest@ == orig.skip(k as int),
            r@.to_multiset() == orig.take(k as int).to_multiset(),
            newest_first(r@),
            forall|t: u64| #[trigger] saved_at_time(r@, t) == saved_at_time(orig.take(k as int), t),
        decreases rest.len(),
    {
        let x = rest.remove(0);
        proof {
            assert(x == orig[k as int]);
            assert(rest@ =~= orig.skip(k + 1));
        }
        let mut p: usize = 0;
        while p < r.len() && r[p].saved_at >= x.saved_at
            invariant
                p <= r.len(),
                forall|q: int| 0 <= q < p ==> #[trigger] r@[q].saved_at >= x.saved_at,
            decreases r.len() - p,
        {
            p += 1;
        }
        let ghost before = r@;
        r.insert(p, x);
        proof {
            crate::order::lemma_insert_multiset(before, p as int, x);
            assert(orig.take(k + 1) =~= orig.take(k as int).push(x));
            vstd::seq_lib::lemma_multiset_commutative(orig.take(k as int), seq![x]);
            assert(orig.take(k as int).push(x).to_multiset() =~= orig.take(k as int).to_multiset().insert(x)) by {
                orig.take(k as int).to_multiset_ensures();
            }
            // every snapshot from p on is older than x
            assert forall|q: int| p <= q < before.len() implies #[trigger] before[q].saved_at < x.saved_at by {
                assert(before[p as int].saved_at < x.saved_at);
                if q > p {
                    assert(before[p as int].saved_at >= before[q].saved_at);
                }
            }
            assert forall|a: int, b: int| 0 <= a < b < r@.len() implies #[trigger] r@[a].saved_at
                >= #[trigger] r@[b].saved_at by {
                if b < p {
                } else if b == p {
                } else if a < p {
                    assert(r@[b] == before[b - 1]);
                } else if a == p {
                    assert(r@[b] == before[b - 1]);
                } else {
                    assert(r@[a] == before[a - 1]);
                    assert(r@[b] == before[b - 1]);
                }
            }
            let head = before.take(p as int);
            let tail = before.skip(p as int);
            assert(before =~= head + tail);
            assert(r@ =~= head.push(x) + tail);
            assert forall|t: u64| #[trigger] saved_at_time(r@, t) == saved_at_time(orig.take(k + 1), t) by {
                let pred = |y: RecoverySnapshot| y.saved_at == t;
                Seq::filter_distributes_over_add(head.push(x), tail, pred);
                Seq::filter_distributes_over_add(head, tail, pred);
                head.lemma_filter_push(x, pred);
                orig.take(k as int).lemma_filter_push(x, pred);
                if x.saved_at == t {
                    assert forall|q: int| 0 <= q < tail.len() implies !pred(#[trigger] tail[q]) by {
                        assert(tail[q] == before[p + q]);
                    }
                    lemma_filter_none(tail, pred);
                    assert(head.filter(pred) + tail.filter(pred) =~= head.filter(pred));
                    assert(head.filter(pred).push(x) + tail.filter(pred) =~= head.filter(pred).push(x));
                }
                assert(saved_at_time(before, t) == head.filter(pred) + tail.filter(pred));
            }
        }
        k += 1;
    }
    proof {
        assert(orig.take(k as int) =~= orig);
    }
    r
}

/// A snapshot file found while listing: the project directory it lies in,
/// its path, its envelope when it could be read and parsed, and its size.
pub struct SnapshotFile {
    pub project_dir: String,
    pub path: String,
    pub envelope: Option<SnapshotEnvelope>,
    pub size: u64,
}

/// What a listed snapshot shows: project, relative path, snapshot path,
/// size and time.
pub open spec fn snapshot_view(x: RecoverySnapshot) -> (Seq<char>, Seq<char>, Seq<char>, u64, u64) {
    (x.project@, x.relative_path@, x.snapshot_path@, x.size, x.saved_at)
}

/// The listing entry of a snapshot file that was read: the project is its
/// directory's name, the relative path and time come from the file, the
/// path is shown with `'/'` separators.
pub open spec fn file_entry(os: HostOs, f: SnapshotFile) -> (Seq<char>, Seq<char>, Seq<char>, u64, u64) {
    (
        dir_name(os, f.project_dir@),
        f.envelope->Some_0.relative_path@,
        replaced(f.path@, '\\', '/'),
        f.size,
        f.envelope->Some_0.saved_at,
    )
}

/// The files that could be read as snapshots, in order.
pub open spec fn readable_files(files: Seq<SnapshotFile>) -> Seq<SnapshotFile> {
    files.filter(|f: SnapshotFile| f.envelope is Some)
}

/// Lists recovery snapshots: refused for an invalid project name (a
/// non-empty one with a separator, or `.` or `..`); else one entry per
/// snapshot file that could be read (the others are skipped), sorted newest
/// first, snapshots saved at the same time in the order found.
pub fn list_recovery_snapshots(os: HostOs, project: Option<String>, files: Vec<SnapshotFile>) -> (r: Result<Vec<RecoverySnapshot>, String>)
    ensures
        (project matches Some(p) && p@.len() > 0 && !valid_component(p@)) ==> (r matches Err(m) && m@
            == "invalid project name"@),
        !(project matches Some(p) && p@.len() > 0 && !valid_component(p@)) ==> (r matches Ok(v) && exists|
            e: Seq<RecoverySnapshot>,
        |
            #![trigger e.to_multiset()]
            {
                &&& e.map_values(|x: RecoverySnapshot| snapshot_view(x)) == readable_files(files@).map_values(
                    |f: SnapshotFile| file_entry(os, f),
                )
                &&& v@.to_multiset() == e.to_multiset()
                &&& newest_first(v@)
                &&& forall|t: u64| #[trigger] saved_at_time(v@, t) == saved_at_time(e, t)
            }),
{
    snapshot_scope(project)?;
    let mut e: Vec<RecoverySnapshot> = Vec::new();
    let mut i: usize = 0;
    let ghost pred = |f: SnapshotFile| f.envelope is Some;
    let ghost ent = |f: SnapshotFile| file_entry(os, f);
    let ghost vw = |x: RecoverySnapshot| snapshot_view(x);
    assert(files@.take(0).filter(pred) =~= Seq::<SnapshotFile>::empty()) by {
        reveal(Seq::filter);
    }
    while i < files.len()
        invariant
            i <= files.len(),
            pred == (|f: SnapshotFile| f.envelope is Some),
            ent == (|f: SnapshotFile| file_entry(os, f)),
            vw == (|x: RecoverySnapshot| snapshot_view(x)),
            e@.map_values(vw) == files@.take(i as int).filter(pred).map_values(ent),
        decreases files.len() - i,
    {
        let f = &files[i];
        assert(files@.take(i + 1) =~= files@.take(i as int).push(files@[i as int]));
        proof {
            files@.take(i as int).lemma_filter_push(files@[i as int], pred);
        }
        match &f.envelope {
            Some(env) => {
                let read = snapshot_envelope(env.relative_path.clone(), String::new(), env.saved_at);
                let entry = snapshot_entry(project_name_of_dir(os, f.project_dir.as_str()), read, f.path.as_str(), f.size);
                let ghost before = e@;
                e.push(entry);
                assert(e@.map_values(vw) =~= before.map_values(vw).push(vw(entry)));
                assert(files@.take(i + 1).filter(pred) == files@.take(i as int).filter(pred).push(files@[i as int]));
                assert(files@.take(i + 1).filter(pred).map_values(ent) =~= files@.take(i as int).filter(pred).map_values(
                    ent,
                ).push(ent(files@[i as int])));
            },
            None => {},
        }
        i += 1;
    }
    assert(files@.take(files.len() as int) =~= files@);
    let ghost ev = e@;
    let v = sort_newest_first(e);
    assert(ev.map_values(vw) == readable_files(files@).map_values(ent));
    Ok(v)
}

// ---------------------------------------------------------------------------
// Reading back
// ---------------------------------------------------------------------------

/// A path may be read back as a snapshot when it lies inside KDev's root and
/// is a `.json` file (both paths as the file system resolved them).
pub open spec fn readable_snapshot(os: HostOs, root: Seq<char>, path: Seq<char>) -> bool {
    path_has_prefix(os, path, root) && extension_of(os, path) == Some("json"@)
}

/// Checks a resolved snapshot path against the resolved KDev root.
pub fn check_snapshot_path(os: HostOs, canonical_root: &str, canonical_path: &str) -> (r: Result<(), String>)
    ensures
        r is Ok <==> readable_snapshot(os, canonical_root@, canonical_path@),
        r matches Err(m) ==> m@ == "invalid recovery snapshot path"@,
{
    if !path_starts_with(os, canonical_path, canonical_root) {
        return Err(owned("invalid recovery snapshot path"));
    }
    match extension(os, canonical_path) {
        Some(e) => if same_text(e.as_str(), "json") {
            Ok(())
        } else {
            Err(owned("invalid recovery snapshot path"))
        },
        None => Err(owned("invalid recovery snapshot path")),
    }
}

/// The project of a snapshot file: the name three levels above it
/// (`<project>/.kdev/recovery/<file>`), or `""`.
pub open spec fn snapshot_project(os: HostOs, path: Seq<char>) -> Seq<char> {
    let g = segments(os, path);
    if g.len() >= 4 && g[g.len() - 4] != dot_dot() && g[g.len() - 4] != seq!['.'] {
        g[g.len() - 4]
    } else {
        Seq::empty()
    }
}

/// A snapshot read back, with its project taken from where it lies.
pub fn recovery_content(os: HostOs, canonical_path: &str, envelope: SnapshotEnvelope) -> (r: RecoveryContent)
    ensures
        r.project@ == snapshot_project(os, canonical_path@),
        r.relative_path@ == envelope.relative_path@,
        r.content@ == envelope.content@,
        r.saved_at == envelope.saved_at,
{
    let g = path_segments(os, canonical_path);
    let n = g.len();
    proof {
        reveal_strlit("..");
        reveal_strlit(".");
        assert(".."@ =~= dot_dot());
        assert("."@ =~= seq!['.']);
        if n >= 4 {
            assert(crate::text::views(g@)[n - 4] == g@[n - 4]@);
        }
    }
    let project = if n >= 4 && !same_text(g[n - 4].as_str(), "..") && !same_text(g[n - 4].as_str(), ".") {
        g[n - 4].clone()
    } else {
        String::new()
    };
    RecoveryContent {
        project,
        relative_path: envelope.relative_path,
        content: envelope.content,
        saved_at: envelope.saved_at,
    }
}

/// A snapshot path that passes the check lies inside KDev's root and names
/// a file.
pub proof fn law_read_snapshot_inside_root(os: HostOs, root: Seq<char>, path: Seq<char>)
    requires
        readable_snapshot(os, root, path),
    ensures
        components(os, path).take(components(os, root).len() as int) == components(os, root),
        file_name_of(os, path) is Some,
{
}

/// The last `'.'` of a name that ends in `.json` is the one before `json`.
proof fn lemma_last_dot_json(x: Seq<char>)
    ensures
        last_dot(x + ".json"@) == x.len(),
{
    reveal_strlit(".json");
    let n = x + ".json"@;
    let n1 = x + seq!['.', 'j', 's', 'o'];
    let n2 = x + seq!['.', 'j', 's'];
    let n3 = x + seq!['.', 'j'];
    let n4 = x + seq!['.'];
    assert(n.drop_last() =~= n1);
    assert(n4.last() == '.');
    assert(last_dot(n4) == x.len());
    assert(n3.drop_last() =~= n4 && n3.last() == 'j');
    assert(last_dot(n3) == x.len());
    assert(n2.drop_last() =~= n3 && n2.last() == 's');
    assert(last_dot(n2) == x.len());
    assert(n1.drop_last() =~= n2 && n1.last() == 'o');
    assert(last_dot(n1) == x.len());
    assert(n.last() == 'n');
}

/// A name made of characters that are neither separators nor the start of
/// a prefix is a single component.
proof fn lemma_plain_name(os: HostOs, n: Seq<char>)
    requires
        n.len() > 0,
        n != seq!['.'],
        forall|i: int| 0 <= i < n.len() ==> #[trigger] n[i] != '/' && n[i] != '\\',
        n.len() >= 2 ==> n[1] != ':',
    ensures
        segments(os, n) == seq![n],
        prefix_of(os, n) is None,
        !has_root(os, n),
{
    assert(forall|i: int| 0 <= i < n.len() ==> !is_sep_in(os_mode(os), #[trigger] n[i]));
    lemma_name_segments(os, n);
}

/// A snapshot file name is a single plain component whose extension is
/// `json`.
proof fn lemma_snapshot_name_plain(os: HostOs, saved_at: u64, relative_path: Seq<char>)
    ensures
        ({
            let name = snapshot_name(saved_at, relative_path);
            &&& segments(os, name) == seq![name]
            &&& prefix_of(os, name) is None
            &&& !has_root(os, name)
            &&& name != dot_dot()
            &&& name != seq!['.']
            &&& name_extension(name) == Some("json"@)
        }),
{
    reveal_strlit("-");
    reveal_strlit(".json");
    reveal_strlit("json");
    let name = snapshot_name(saved_at, relative_path);
    let d = decimal(saved_at as nat);
    let safe = safe_suffix_of(relative_path);
    crate::numbers::lemma_decimal_digits(saved_at as nat);
    assert forall|i: int| 0 <= i < name.len() implies #[trigger] name[i] != '/' && name[i] != '\\' by {
        if i < d.len() {
            assert(name[i] == d[i]);
            assert(is_digit(d[i]));
        } else if i == d.len() {
            assert(name[i] == '-');
        } else if i < d.len() + 1 + safe.len() {
            assert(name[i] == safe[i - d.len() - 1]);
            assert(safe[i - d.len() - 1] == suffix_char(relative_path[i - d.len() - 1]));
        } else {
            assert(name[i] == ".json"@[i - d.len() - 1 - safe.len()]);
        }
    }
    assert(name[0] == d[0]);
    assert(is_digit(name[0]));
    assert(name.len() >= 2 ==> name[1] != ':') by {
        if name.len() >= 2 {
            if d.len() >= 2 {
                assert(name[1] == d[1]);
                assert(is_digit(d[1]));
            } else {
                assert(name[1] == '-');
            }
        }
    }
    assert(name != seq!['.']);
    lemma_plain_name(os, name);
    let x = d + "-"@ + safe;
    assert(name =~= x + ".json"@);
    lemma_last_dot_json(x);
    assert(name.skip(x.len() + 1int) =~= "json"@);
}

/// Joining a single plain name adds it as the last component.
proof fn lemma_join_name(os: HostOs, base: Seq<char>, n: Seq<char>)
    requires
        plain_base(os, base),
        segments(os, n) == seq![n] && prefix_of(os, n) is None && !has_root(os, n),
    ensures
        plain_base(os, joined(os, base, n)),
        components(os, joined(os, base, n)) == components(os, base).push(n),
        segments(os, joined(os, base, n)) == segments(os, base).push(n),
{
    lemma_join_relative(os, base, n);
    assert(components(os, base) + seq![n] =~= components(os, base).push(n));
    assert(segments(os, base) + seq![n] =~= segments(os, base).push(n));
}

/// The joins from the data root to a snapshot file keep the root's
/// components first and end in the project, `.kdev`, `recovery` and the
/// name.
#[verifier::rlimit(40)]
proof fn lemma_snapshot_components(os: HostOs, root: Seq<char>, project: Seq<char>, name: Seq<char>)
    requires
        plain_base(os, root),
        segments(os, project) == seq![project] && prefix_of(os, project) is None && !has_root(os, project),
        segments(os, name) == seq![name] && prefix_of(os, name) is None && !has_root(os, name),
    ensures
        ({
            let q = joined(os, joined(os, joined(os, project_path(os, root, project), ".kdev"@), "recovery"@), name);
            let wp = "workspace/projects"@;
            &&& components(os, q) == components(os, root) + segments(os, wp) + seq![project, ".kdev"@, "recovery"@, name]
            &&& segments(os, q) == segments(os, root) + segments(os, wp) + seq![project, ".kdev"@, "recovery"@, name]
        }),
{
    reveal_strlit("workspace/projects");
    reveal_strlit(".kdev");
    reveal_strlit("recovery");
    let wp = "workspace/projects"@;
    assert(prefix_of(os, wp) is None);
    assert(!has_root(os, wp)) by {
        assert(body(os, wp) =~= wp);
    }
    assert(".kdev"@.len() == 5 && "recovery"@.len() == 8);
    lemma_plain_name(os, ".kdev"@);
    lemma_plain_name(os, "recovery"@);
    lemma_join_relative(os, root, wp);
    let a1 = joined(os, root, wp);
    lemma_join_name(os, a1, project);
    let a2 = joined(os, a1, project);
    lemma_join_name(os, a2, ".kdev"@);
    let a3 = joined(os, a2, ".kdev"@);
    lemma_join_name(os, a3, "recovery"@);
    let a4 = joined(os, a3, "recovery"@);
    lemma_join_name(os, a4, name);
    let q = joined(os, a4, name);
    assert(components(os, q) =~= components(os, root) + segments(os, wp) + seq![project, ".kdev"@, "recovery"@, name]);
    assert(segments(os, q) =~= segments(os, root) + segments(os, wp) + seq![project, ".kdev"@, "recovery"@, name]);
}

/// A snapshot saved for a project can be read back from where it was
/// written: under an absolute data root (on Windows one that is not
/// verbatim and that a separator follows), the snapshot file in the
/// project's recovery directory passes the read-back check, names the
/// snapshot file, and gives back that project. (On Windows a project name
/// with a drive prefix, such as `C:x`, replaces the path when joined, and is
/// left out.)
#[verifier::rlimit(40)]
pub proof fn law_saved_snapshot_reads_back(
    os: HostOs,
    root: Seq<char>,
    project: Seq<char>,
    saved_at: u64,
    relative_path: Seq<char>,
)
    requires
        is_abs(os, root),
        win(os) ==> physical_root(os, root) && !verbatim(os, root),
        valid_component(project),
        prefix_of(os, project) is None,
    ensures
        ({
            let dir = joined(os, joined(os, project_path(os, root, project), ".kdev"@), "recovery"@);
            let q = snapshot_path_in(os, dir, saved_at, relative_path);
            &&& readable_snapshot(os, root, q)
            &&& file_name_of(os, q) == Some(snapshot_name(saved_at, relative_path))
            &&& snapshot_project(os, q) == project
        }),
{
    let name = snapshot_name(saved_at, relative_path);
    lemma_snapshot_name_plain(os, saved_at, relative_path);
    assert forall|i: int| 0 <= i < project.len() implies #[trigger] project[i] != '/' && project[i] != '\\' by {
        assert(project.contains(project[i]));
    }
    lemma_name_segments_ok(os, project);
    assert(root.len() > 0);
    lemma_snapshot_components(os, root, project, name);
    let dir = joined(os, joined(os, project_path(os, root, project), ".kdev"@), "recovery"@);
    let q = snapshot_path_in(os, dir, saved_at, relative_path);
    let g = segments(os, q);
    assert(g[g.len() - 4] == project);
    assert(g.last() == name);
    assert(components(os, q).take(components(os, root).len() as int) =~= components(os, root));
    assert(path_has_prefix(os, q, root));
    assert(file_name_of(os, q) == Some(name));
    assert(extension_of(os, q) == Some("json"@));
}

/// A valid project name without a prefix is a single component.
proof fn lemma_name_segments_ok(os: HostOs, project: Seq<char>)
    requires
        valid_component(project),
        prefix_of(os, project) is None,
        forall|i: int| 0 <= i < project.len() ==> #[trigger] project[i] != '/' && project[i] != '\\',
    ensures
        segments(os, project) == seq![project],
        !has_root(os, project),
{
    assert(forall|i: int| 0 <= i < project.len() ==> !is_sep_in(os_mode(os), #[trigger] project[i]));
    lemma_name_segments(os, project);
}

} // verus!
