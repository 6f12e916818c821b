//! Extension management: which discovered extensions are listed, and the
//! persisted record of the ones the user disabled. (KDev does not run
//! extension code; this only records the user's choice.)

use vstd::prelude::*;
use crate::text::{owned, contains_char, same_text, views};
use crate::paths::{join, joined};
use crate::runtime::HostOs;
use crate::order::{less, lex_lt, lemma_lex_trichotomy, lemma_lex_transitive};

verus! {

/// One extension in the extensions panel.
pub struct ExtensionInfo {
    pub id: String,
    pub name: String,
    pub enabled: bool,
    pub source: String,
}

/// The extension ids the user has disabled; every other extension counts
/// as enabled. Its view is the set of those ids.
///
/// The ids are kept in a `Vec`, not a `HashSet<String>`: vstd's
/// specifications of `HashSet` and `HashMap` describe their contents only
/// for key types that `vstd::std_specs::hash::obeys_key_model` holds of,
/// and that is established for integers, `bool` and boxes of them but not
/// for `String`, short of assuming it. A linear search over a list whose
/// view is a set states the same behaviour and can be proved.
pub struct ExtensionState {
    disabled: Vec<String>,
}

impl View for ExtensionState {
    type V = Set<Seq<char>>;

    closed spec fn view(&self) -> Set<Seq<char>> {
        views(self.disabled@).to_set()
    }
}

proof fn lemma_push_to_set(s: Seq<Seq<char>>, x: Seq<char>)
    ensures
        s.push(x).to_set() == s.to_set().insert(x),
{
    assert forall|a: Seq<char>| #[trigger] s.push(x).to_set().contains(a) <==> s.to_set().insert(x).contains(a) by {
        if s.push(x).contains(a) {
            let j = choose|j: int| 0 <= j < s.push(x).len() && s.push(x)[j] == a;
            if j < s.len() {
                assert(s[j] == a);
            }
        }
        if s.contains(a) {
            let j = choose|j: int| 0 <= j < s.len() && s[j] == a;
            assert(s.push(x)[j] == a);
        }
        if a == x {
            assert(s.push(x)[s.len() as int] == x);
        }
    }
    assert(s.push(x).to_set() =~= s.to_set().insert(x));
}

fn position_of(v: &Vec<String>, id: &str) -> (r: Option<usize>)
    ensures
        r is None <==> !views(v@).contains(id@),
        r matches Some(i) ==> i < v.len() && v@[i as int]@ == id@,
{
    let mut i: usize = 0;
    while i < v.len()
        invariant
            i <= v.len(),
            forall|k: int| 0 <= k < i ==> v@[k]@ != id@,
        decreases v.len() - i,
    {
        if same_text(v[i].as_str(), id) {
            assert(views(v@)[i as int] == id@);
            return Some(i);
        }
        i += 1;
    }
    assert forall|k: int| 0 <= k < views(v@).len() implies views(v@)[k] != id@ by {
        assert(views(v@)[k] == v@[k]@);
    }
    None
}

impl ExtensionState {
    /// Nothing disabled.
    pub fn new() -> (s: ExtensionState)
        ensures
            s@ == Set::<Seq<char>>::empty(),
    {
        let s = ExtensionState { disabled: Vec::new() };
        assert(views(s.disabled@).to_set() =~= Set::<Seq<char>>::empty());
        s
    }

    /// The state recorded with these disabled ids.
    pub fn from_disabled(ids: Vec<String>) -> (s: ExtensionState)
        ensures
            s@ == views(ids@).to_set(),
    {
        ExtensionState { disabled: ids }
    }

    /// The disabled ids, for saving.
    pub fn disabled_ids(&self) -> (r: Vec<String>)
        ensures
            views(r@).to_set() == self@,
    {
        self.disabled.clone()
    }

    /// Whether the extension `id` is disabled.
    pub fn is_disabled(&self, id: &str) -> (b: bool)
        ensures
            b == self@.contains(id@),
    {
        position_of(&self.disabled, id).is_some()
    }

    fn disable(&mut self, id: &str)
        ensures
            final(self)@ == old(self)@.insert(id@),
    {
        if position_of(&self.disabled, id).is_none() {
            let ghost before = views(self.disabled@);
            self.disabled.push(owned(id));
            assert(views(self.disabled@) =~= before.push(id@));
            proof {
                lemma_push_to_set(before, id@);
            }
        } else {
            assert(views(self.disabled@).to_set().insert(id@) =~= views(self.disabled@).to_set()) by {
            }
        }
    }

    fn enable(&mut self, id: &str)
        ensures
            final(self)@ == old(self)@.remove(id@),
    {
        let ghost old_v = views(self.disabled@);
        let mut kept: Vec<String> = Vec::new();
        let mut i: usize = 0;
        while i < self.disabled.len()
            invariant
                i <= self.disabled.len(),
                views(self.disabled@) == old_v,
                views(kept@).to_set() == old_v.take(i as int).to_set().remove(id@),
            decreases self.disabled.len() - i,
        {
            let ghost before = views(kept@);
            assert(old_v.take(i + 1) =~= old_v.take(i as int).push(old_v[i as int]));
            assert(old_v[i as int] == self.disabled@[i as int]@);
            proof {
                lemma_push_to_set(old_v.take(i as int), old_v[i as int]);
            }
            if !same_text(self.disabled[i].as_str(), id) {
                kept.push(self.disabled[i].clone());
                assert(views(kept@) =~= before.push(old_v[i as int]));
                proof {
                    lemma_push_to_set(before, old_v[i as int]);
                }
                assert(views(kept@).to_set() =~= old_v.take(i + 1).to_set().remove(id@));
            } else {
                assert(views(kept@).to_set() =~= old_v.take(i + 1).to_set().remove(id@));
            }
            i += 1;
        }
        assert(old_v.take(self.disabled.len() as int) =~= old_v);
        self.disabled = kept;
    }
}

/// Where the extension state is kept:
/// `<root>/extensions/.kdev-extension-state.json`.
pub fn state_path(os: HostOs, root: &Result<String, String>) -> (r: Result<String, String>)
    ensures
        root matches Ok(b) ==> (r matches Ok(p) && p@ == joined(os, joined(os, b@, "extensions"@), ".kdev-extension-state.json"@)),
        root is Err ==> r == *root,
{
    match root {
        Ok(b) => {
            let e = join(os, b.as_str(), "extensions");
            Ok(join(os, e.as_str(), ".kdev-extension-state.json"))
        },
        Err(e) => Err(e.clone()),
    }
}

/// The directories searched for extensions, in priority order, each with
/// its source label: the packaged resource directory and the folder beside
/// the executable (`bundled`), then the data root (`user-installed`); a
/// directory that could not be found is left out.
pub fn extension_dirs(os: HostOs, resource_dir: Option<String>, exe_dir: Option<String>, root: Result<String, String>) -> (r: Vec<(String, &'static str)>)
    ensures
        r@.map_values(|p: (String, &str)| (p.0@, p.1@)) == (match resource_dir {
            Some(d) => seq![(joined(os, d@, "extensions"@), "bundled"@)],
            None => Seq::empty(),
        }) + (match exe_dir {
            Some(d) => seq![(joined(os, d@, "extensions"@), "bundled"@)],
            None => Seq::empty(),
        }) + (match root {
            Ok(d) => seq![(joined(os, d@, "extensions"@), "user-installed"@)],
            Err(_) => Seq::empty(),
        }),
{
    let mut r: Vec<(String, &'static str)> = Vec::new();
    if let Some(d) = &resource_dir {
        r.push((join(os, d.as_str(), "extensions"), "bundled"));
    }
    if let Some(d) = &exe_dir {
        r.push((join(os, d.as_str(), "extensions"), "bundled"));
    }
    if let Ok(d) = &root {
        r.push((join(os, d.as_str(), "extensions"), "user-installed"));
    }
    assert(r@.map_values(|p: (String, &str)| (p.0@, p.1@)) =~= (match resource_dir {
        Some(d) => seq![(joined(os, d@, "extensions"@), "bundled"@)],
        None => Seq::empty(),
    }) + (match exe_dir {
        Some(d) => seq![(joined(os, d@, "extensions"@), "bundled"@)],
        None => Seq::empty(),
    }) + (match root {
        Ok(d) => seq![(joined(os, d@, "extensions"@), "user-installed"@)],
        Err(_) => Seq::empty(),
    }));
    r
}

/// A listed extension whose id was just disabled is shown disabled, and one
/// that was just enabled is shown enabled.
pub proof fn law_listing_follows_state(r: Seq<ExtensionInfo>, c: Seq<(String, String)>, disabled: Set<Seq<char>>, id: Seq<char>)
    ensures
        listed_correctly(r, c, disabled.insert(id)) ==> forall|k: int| 0 <= k < r.len() && #[trigger] r[k].id@ == id
            ==> !r[k].enabled,
        listed_correctly(r, c, disabled.remove(id)) ==> forall|k: int| 0 <= k < r.len() && #[trigger] r[k].id@ == id
            ==> r[k].enabled,
{
    if listed_correctly(r, c, disabled.insert(id)) {
        assert forall|k: int| 0 <= k < r.len() && #[trigger] r[k].id@ == id implies !r[k].enabled by {
            assert(r[k].enabled == !disabled.insert(id).contains(r[k].id@));
        }
    }
    if listed_correctly(r, c, disabled.remove(id)) {
        assert forall|k: int| 0 <= k < r.len() && #[trigger] r[k].id@ == id implies r[k].enabled by {
            assert(r[k].enabled == !disabled.remove(id).contains(r[k].id@));
        }
    }
}

/// An extension id names a single directory: not empty, no `'/'` or `'\\'`.
pub open spec fn valid_extension_id(id: Seq<char>) -> bool {
    id.len() > 0 && !id.contains('/') && !id.contains('\\')
}

/// Records whether an extension should be treated as enabled.
pub fn set_extension_enabled(state: &mut ExtensionState, id: &str, enabled: bool) -> (r: Result<(), String>)
    ensures
        r is Ok <==> valid_extension_id(id@),
        r matches Err(m) ==> m@ == "invalid extension id"@,
        !valid_extension_id(id@) ==> final(state)@ == old(state)@,
        valid_extension_id(id@) && enabled ==> final(state)@ == old(state)@.remove(id@),
        valid_extension_id(id@) && !enabled ==> final(state)@ == old(state)@.insert(id@),
{
    if id.is_empty() || contains_char(id, '/') || contains_char(id, '\\') {
        return Err(owned("invalid extension id"));
    }
    if enabled {
        state.enable(id);
    } else {
        state.disable(id);
    }
    Ok(())
}

/// Turning an extension off and on again leaves the others as they were,
/// and it enabled.
pub proof fn law_disable_then_enable(s: Set<Seq<char>>, id: Seq<char>)
    ensures
        s.insert(id).remove(id) == s.remove(id),
        !s.insert(id).remove(id).contains(id),
        s.remove(id).insert(id).contains(id),
{
    assert(s.insert(id).remove(id) =~= s.remove(id));
}

/// The ids of the discovered extensions, in discovery order.
pub open spec fn candidate_ids(c: Seq<(String, String)>) -> Seq<Seq<char>> {
    c.map_values(|p: (String, String)| p.0@)
}

/// The source label of the first discovered extension with this id.
pub open spec fn first_source(c: Seq<(String, String)>, id: Seq<char>) -> Seq<char>
    decreases c.len(),
{
    if c.len() == 0 {
        Seq::empty()
    } else if candidate_ids(c.drop_last()).contains(id) {
        first_source(c.drop_last(), id)
    } else if c.last().0@ == id {
        c.last().1@
    } else {
        Seq::empty()
    }
}

/// The extensions list: one entry per distinct id (the first directory
/// that holds it wins), sorted by id, enabled unless disabled.
pub open spec fn listed_correctly(r: Seq<ExtensionInfo>, c: Seq<(String, String)>, disabled: Set<Seq<char>>) -> bool {
    &&& forall|i: int, j: int| 0 <= i < j < r.len() ==> lex_lt(#[trigger] r[i].id@, #[trigger] r[j].id@)
    &&& forall|id: Seq<char>| #[trigger] candidate_ids(c).contains(id) <==> exists|k: int| 0 <= k < r.len() && r[k].id@ == id
    &&& forall|k: int| #![trigger r[k]] 0 <= k < r.len() ==> {
        &&& r[k].name@ == r[k].id@
        &&& r[k].enabled == !disabled.contains(r[k].id@)
        &&& r[k].source@ == first_source(c, r[k].id@)
    }
}

fn contains_id(r: &Vec<ExtensionInfo>, id: &str) -> (b: bool)
    ensures
        b == exists|k: int| 0 <= k < r.len() && r@[k].id@ == id@,
{
    let mut i: usize = 0;
    while i < r.len()
        invariant
            i <= r.len(),
            forall|k: int| 0 <= k < i ==> r@[k].id@ != id@,
        decreases r.len() - i,
    {
        if same_text(r[i].id.as_str(), id) {
            return true;
        }
        i += 1;
    }
    false
}

/// Lists the discovered extensions (`(id, source)` in discovery order:
/// bundled directories first, then the user's) with their enabled state.
pub fn list_extensions(candidates: &Vec<(String, String)>, state: &ExtensionState) -> (r: Vec<ExtensionInfo>)
    ensures
        listed_correctly(r@, candidates@, state@),
{
    let mut r: Vec<ExtensionInfo> = Vec::new();
    let mut i: usize = 0;
    assert(candidates@.take(0) =~= Seq::<(String, String)>::empty());
    while i < candidates.len()
        invariant
            i <= candidates.len(),
            listed_correctly(r@, candidates@.take(i as int), state@),
        decreases candidates.len() - i,
    {
        let ghost c0 = candidates@.take(i as int);
        let ghost c1 = candidates@.take(i + 1);
        assert(c1.drop_last() =~= c0);
        assert(c1.last() == candidates@[i as int]);
        assert(candidate_ids(c1) =~= candidate_ids(c0).push(candidates@[i as int].0@));
        let id = &candidates[i].0;
        if contains_id(&r, id.as_str()) {
            proof {
                let k0 = choose|k: int| 0 <= k < r@.len() && r@[k].id@ == id@;
                assert(candidate_ids(c0).contains(id@));
                assert forall|x: Seq<char>| #[trigger] candidate_ids(c1).contains(x) <==> exists|k: int|
                    0 <= k < r@.len() && r@[k].id@ == x by {
                    if candidate_ids(c1).contains(x) && !candidate_ids(c0).contains(x) {
                        let j = choose|j: int| 0 <= j < candidate_ids(c1).len() && candidate_ids(c1)[j] == x;
                        assert(j == i);
                    }
                    if candidate_ids(c0).contains(x) {
                        let j = choose|j: int| 0 <= j < candidate_ids(c0).len() && candidate_ids(c0)[j] == x;
                        assert(candidate_ids(c1)[j] == x);
                    }
                }
                assert forall|k: int| #![trigger r@[k]] 0 <= k < r@.len() implies {
                    &&& r@[k].name@ == r@[k].id@
                    &&& r@[k].enabled == !state@.contains(r@[k].id@)
                    &&& r@[k].source@ == first_source(c1, r@[k].id@)
                } by {
                    assert(candidate_ids(c0).contains(r@[k].id@));
                }
            }
        } else {
            let enabled = !state.is_disabled(id.as_str());
            let info = ExtensionInfo {
                id: id.clone(),
                name: id.clone(),
                enabled,
                source: candidates[i].1.clone(),
            };
            let mut p: usize = 0;
            while p < r.len() && !less(id.as_str(), r[p].id.as_str())
                invariant
                    p <= r.len(),
                    forall|q: int| 0 <= q < p ==> !lex_lt(id@, #[trigger] r@[q].id@),
                decreases r.len() - p,
            {
                p += 1;
            }
            let ghost before = r@;
            r.insert(p, info);
            proof {
                assert(!candidate_ids(c0).contains(id@));
                assert forall|q: int| 0 <= q < p implies lex_lt(#[trigger] before[q].id@, id@) by {
                    lemma_lex_trichotomy(before[q].id@, id@);
                }
                assert forall|a: int, b: int| 0 <= a < b < r@.len() implies lex_lt(#[trigger] r@[a].id@, #[trigger] r@[b].id@) by {
                    if b < p {
                    } else if b == p {
                    } else if a < p {
                        assert(r@[b] == before[b - 1]);
                        assert(lex_lt(id@, before[p as int].id@));
                        if b - 1 > p {
                            lemma_lex_transitive(id@, before[p as int].id@, before[b - 1].id@);
                        }
                        lemma_lex_transitive(before[a].id@, id@, before[b - 1].id@);
                    } else if a == p {
                        assert(r@[b] == before[b - 1]);
                        assert(lex_lt(id@, before[p as int].id@));
                        if b - 1 > p {
                            lemma_lex_transitive(id@, before[p as int].id@, before[b - 1].id@);
                        }
                    } else {
                        assert(r@[a] == before[a - 1]);
                        assert(r@[b] == before[b - 1]);
                    }
                }
                assert forall|x: Seq<char>| #[trigger] candidate_ids(c1).contains(x) <==> exists|k: int|
                    0 <= k < r@.len() && r@[k].id@ == x by {
                    if candidate_ids(c1).contains(x) {
                        if x == id@ {
                            assert(r@[p as int].id@ == x);
                        } else {
                            let j = choose|j: int| 0 <= j < candidate_ids(c1).len() && candidate_ids(c1)[j] == x;
                            assert(j < i);
                            assert(candidate_ids(c0)[j] == x);
                            assert(candidate_ids(c0).contains(x));
                            let k = choose|k: int| 0 <= k < before.len() && before[k].id@ == x;
                            if k < p {
                                assert(r@[k] == before[k]);
                            } else {
                                assert(r@[k + 1] == before[k]);
                            }
                        }
                    }
                    if exists|k: int| 0 <= k < r@.len() && r@[k].id@ == x {
                        let k = choose|k: int| 0 <= k < r@.len() && r@[k].id@ == x;
                        if k == p {
                            assert(candidate_ids(c1)[i as int] == x);
                        } else {
                            let kb = if k < p { k } else { k - 1 };
                            assert(before[kb] == r@[k]);
                            assert(candidate_ids(c0).contains(x));
                            let j = choose|j: int| 0 <= j < candidate_ids(c0).len() && candidate_ids(c0)[j] == x;
                            assert(candidate_ids(c1)[j] == x);
                        }
                    }
                }
                assert forall|k: int| #![trigger r@[k]] 0 <= k < r@.len() implies {
                    &&& r@[k].name@ == r@[k].id@
                    &&& r@[k].enabled == !state@.contains(r@[k].id@)
                    &&& r@[k].source@ == first_source(c1, r@[k].id@)
                } by {
                    if k != p {
                        let kb = if k < p { k } else { k - 1 };
                        assert(before[kb] == r@[k]);
                        assert(candidate_ids(c0).contains(r@[k].id@));
                    }
                }
            }
        }
        i += 1;
    }
    assert(candidates@.take(candidates.len() as int) =~= candidates@);
    r
}

} // verus!
