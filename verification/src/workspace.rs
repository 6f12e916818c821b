//! Where things live in KDev's data root, and which user-supplied names and
//! relative paths are accepted there.

use vstd::prelude::*;
use crate::text::{owned, cat, contains_char, contains_str, has_infix};
use crate::paths::{
    dot_dot, has_parent_component, has_parent_ref, is_abs, is_absolute, join, joined, path_has_prefix, segments,
    prefix_of, has_root, physical_root, verbatim, win, components, lemma_join_relative,
};
use crate::runtime::HostOs;

verus! {

// ---------------------------------------------------------------------------
// The data root
// ---------------------------------------------------------------------------

/// The portable data root beside the executable (`<exe dir>/KDevData`), or
/// why it cannot be named: the executable could not be located (`Err`), or
/// it has no parent directory (`Ok(None)`).
pub fn portable_data_root(os: HostOs, exe_dir: Result<Option<String>, String>) -> (r: Result<String, String>)
    ensures
        exe_dir matches Err(e) ==> (r matches Err(m) && m@ == "cannot locate KDev executable: "@ + e@),
        exe_dir matches Ok(None) ==> (r matches Err(m) && m@ == "cannot determine KDev executable directory"@),
        exe_dir matches Ok(Some(d)) ==> (r matches Ok(p) && p@ == joined(os, d@, "KDevData"@)),
{
    match exe_dir {
        Err(e) => Err(cat("cannot locate KDev executable: ", e.as_str())),
        Ok(None) => Err(owned("cannot determine KDev executable directory")),
        Ok(Some(d)) => Ok(join(os, d.as_str(), "KDevData")),
    }
}

/// The per-user data root path: `<home>/Documents/KDev` on Windows,
/// `<home>/.kdev` elsewhere.
pub open spec fn user_root_path(os: HostOs, home: Seq<char>) -> Seq<char> {
    if os == HostOs::Windows {
        joined(os, joined(os, home, "Documents"@), "KDev"@)
    } else {
        joined(os, home, ".kdev"@)
    }
}

/// The message for a missing home directory variable.
pub open spec fn missing_home_text(os: HostOs) -> Seq<char> {
    if os == HostOs::Windows {
        "USERPROFILE is unavailable"@
    } else {
        "HOME is unavailable"@
    }
}

/// The per-user data root used when KDev cannot write beside its executable
/// (`%USERPROFILE%`, or `$HOME`, given as `home`), or the message for a
/// missing home variable.
pub fn user_data_root(home: Option<String>, os: HostOs) -> (r: Result<String, String>)
    ensures
        home is None ==> (r matches Err(m) && m@ == missing_home_text(os)),
        home matches Some(h) ==> (r matches Ok(p) && p@ == user_root_path(os, h@)),
{
    match home {
        None => if os == HostOs::Windows {
            Err(owned("USERPROFILE is unavailable"))
        } else {
            Err(owned("HOME is unavailable"))
        },
        Some(h) => if os == HostOs::Windows {
            let d = join(os, h.as_str(), "Documents");
            Ok(join(os, d.as_str(), "KDev"))
        } else {
            Ok(join(os, h.as_str(), ".kdev"))
        },
    }
}

/// The home directory variable, and how creating the per-user data root
/// under it went.
pub enum UserHome {
    /// The variable is not set.
    Missing,
    /// The variable's value, and the outcome of creating the data root.
    Found { home: String, created: Result<(), String> },
}

/// What KDev learned while choosing its data root: the portable folder is
/// writable, or it is not and the per-user root was looked for.
pub enum RootProbe {
    PortableWritable,
    PortableNotWritable(UserHome),
}

/// KDev's writable data root: `<exe dir>/KDevData` when that folder is
/// writable, else the per-user root (`<home>/.kdev`, or
/// `<home>/Documents/KDev` on Windows), created on the way. Errors: the
/// executable or its folder cannot be found; the home variable is missing;
/// the per-user root cannot be created.
pub fn kdev_root(os: HostOs, exe_dir: Result<Option<String>, String>, probe: RootProbe) -> (r: Result<String, String>)
    ensures
        exe_dir matches Err(e) ==> (r matches Err(m) && m@ == "cannot locate KDev executable: "@ + e@),
        exe_dir matches Ok(None) ==> (r matches Err(m) && m@ == "cannot determine KDev executable directory"@),
        exe_dir matches Ok(Some(d)) ==> match probe {
            RootProbe::PortableWritable => r matches Ok(p) && p@ == joined(os, d@, "KDevData"@),
            RootProbe::PortableNotWritable(UserHome::Missing) => r matches Err(m) && m@ == missing_home_text(os),
            RootProbe::PortableNotWritable(UserHome::Found { home, created }) => match created {
                Ok(_) => r matches Ok(p) && p@ == user_root_path(os, home@),
                Err(e) => r matches Err(m) && m@ == "cannot create KDev workspace: "@ + e@,
            },
        },
{
    let portable = portable_data_root(os, exe_dir)?;
    match probe {
        RootProbe::PortableWritable => Ok(portable),
        RootProbe::PortableNotWritable(UserHome::Missing) => user_data_root(None, os),
        RootProbe::PortableNotWritable(UserHome::Found { home, created }) => {
            let root = user_data_root(Some(home), os)?;
            match created {
                Ok(_) => Ok(root),
                Err(e) => Err(workspace_creation_error(e.as_str())),
            }
        },
    }
}

/// The message of a failed creation of the per-user data root.
pub fn workspace_creation_error(e: &str) -> (r: String)
    ensures
        r@ == "cannot create KDev workspace: "@ + e@,
{
    cat("cannot create KDev workspace: ", e)
}

// ---------------------------------------------------------------------------
// Names and relative paths
// ---------------------------------------------------------------------------

/// A single directory name: not empty, no `'/'` or `'\\'`, not `.` or `..`.
pub open spec fn valid_component(name: Seq<char>) -> bool {
    name.len() > 0 && !name.contains('/') && !name.contains('\\') && name != seq!['.']
        && name != dot_dot()
}

/// Whether `name` is a single directory name (see `valid_component`).
pub fn is_valid_component(name: &str) -> (b: bool)
    ensures
        b == valid_component(name@),
{
    let v = crate::text::chars_of(name);
    if v.len() == 0 || contains_char(name, '/') || contains_char(name, '\\') {
        return false;
    }
    if v.len() == 1 && v[0] == '.' {
        assert(name@ =~= seq!['.']);
        return false;
    }
    if v.len() == 2 && v[0] == '.' && v[1] == '.' {
        assert(name@ =~= dot_dot());
        return false;
    }
    assert(name@ != seq!['.']) by {
        if name@ == seq!['.'] {
            assert(v@.len() == 1);
        }
    }
    assert(name@ != dot_dot()) by {
        if name@ == dot_dot() {
            assert(v@.len() == 2);
        }
    }
    true
}

/// Checks a project or recovery directory name.
pub fn safe_component(name: &str) -> (r: Result<(), String>)
    ensures
        r is Ok <==> valid_component(name@),
        r matches Err(m) ==> m@ == "invalid project name"@,
{
    if is_valid_component(name) {
        Ok(())
    } else {
        Err(owned("invalid project name"))
    }
}

/// `<root>/workspace/projects/<name>`.
pub open spec fn project_path(os: HostOs, root: Seq<char>, name: Seq<char>) -> Seq<char> {
    joined(os, joined(os, root, "workspace/projects"@), name)
}

/// A project's directory: the name is checked first, then the data root.
pub fn project_dir(os: HostOs, root: &Result<String, String>, project: &str) -> (r: Result<String, String>)
    ensures
        !valid_component(project@) ==> (r matches Err(m) && m@ == "invalid project name"@),
        valid_component(project@) && root is Err ==> r == *root,
        valid_component(project@) && root is Ok ==> (r matches Ok(p) && p@ == project_path(os, root->Ok_0@, project@)),
{
    safe_component(project)?;
    match root {
        Err(e) => Err(e.clone()),
        Ok(base) => {
            let w = join(os, base.as_str(), "workspace/projects");
            Ok(join(os, w.as_str(), project))
        },
    }
}

/// A project's recovery directory: `<project>/.kdev/recovery`.
pub fn recovery_dir(os: HostOs, root: &Result<String, String>, project: &str) -> (r: Result<String, String>)
    ensures
        !valid_component(project@) ==> (r matches Err(m) && m@ == "invalid project name"@),
        valid_component(project@) && root is Err ==> r == *root,
        valid_component(project@) && root is Ok ==> (r matches Ok(p) && p@ == joined(
            os,
            joined(os, project_path(os, root->Ok_0@, project@), ".kdev"@),
            "recovery"@,
        )),
{
    let dir = project_dir(os, root, project)?;
    let k = join(os, dir.as_str(), ".kdev");
    Ok(join(os, k.as_str(), "recovery"))
}

/// The working directory of a Git or tool command: the named project, or
/// the data root itself when no project (or an empty name) is given. The
/// project name is not checked here.
pub fn project_cwd(os: HostOs, root: &Result<String, String>, project: &Option<String>) -> (r: Result<String, String>)
    ensures
        root is Err ==> r == *root,
        root matches Ok(b) ==> (r matches Ok(p) && p@ == match project {
            Some(n) => if n@.len() > 0 { project_path(os, b@, n@) } else { b@ },
            None => b@,
        }),
{
    match root {
        Err(e) => Err(e.clone()),
        Ok(base) => match project {
            Some(p) => if !p.as_str().is_empty() {
                let w = join(os, base.as_str(), "workspace/projects");
                Ok(join(os, w.as_str(), p.as_str()))
            } else {
                Ok(base.clone())
            },
            None => Ok(base.clone()),
        },
    }
}

/// A workspace path: relative, with no `..` component, joined to the data
/// root. The data root's own error comes first.
pub fn safe_workspace_path(os: HostOs, root: &Result<String, String>, relative_path: &str) -> (r: Result<String, String>)
    ensures
        root is Err ==> r == *root,
        root is Ok && is_abs(os, relative_path@) ==> (r matches Err(m) && m@ == "absolute workspace paths are not allowed"@),
        root is Ok && !is_abs(os, relative_path@) && has_parent_ref(os, relative_path@) ==> (r matches Err(m)
            && m@ == "parent-directory traversal is not allowed"@),
        root is Ok && !is_abs(os, relative_path@) && !has_parent_ref(os, relative_path@) ==> (r matches Ok(p)
            && p@ == joined(os, root->Ok_0@, relative_path@)),
{
    let base = match root {
        Err(e) => return Err(e.clone()),
        Ok(b) => b,
    };
    if is_absolute(os, relative_path) {
        return Err(owned("absolute workspace paths are not allowed"));
    }
    if has_parent_component(os, relative_path) {
        return Err(owned("parent-directory traversal is not allowed"));
    }
    Ok(join(os, base.as_str(), relative_path))
}

/// A project file path: not empty, not absolute, and with no `".."` anywhere
/// in it.
pub open spec fn valid_relative_file(os: HostOs, p: Seq<char>) -> bool {
    p.len() > 0 && !has_infix(p, dot_dot()) && !is_abs(os, p)
}

/// Checks a project file path (see `valid_relative_file`).
pub fn safe_relative_file(os: HostOs, relative_path: &str) -> (r: Result<(), String>)
    ensures
        r is Ok <==> valid_relative_file(os, relative_path@),
        r matches Err(m) ==> m@ == "invalid file path"@,
{
    proof {
        reveal_strlit("..");
        assert(".."@ =~= dot_dot());
    }
    if relative_path.is_empty() || contains_str(relative_path, "..") || is_absolute(os, relative_path) {
        Err(owned("invalid file path"))
    } else {
        Ok(())
    }
}

// ---------------------------------------------------------------------------
// Staying inside the root
// ---------------------------------------------------------------------------

/// A path accepted by `safe_workspace_path` that has no prefix or root of
/// its own (on Windows, `C:x` and `\\x` are not absolute, yet leave the
/// root) lies inside the data root: the root's components come first, and
/// none of the components after them is `..`. On Windows the root is an
/// absolute, non-verbatim path that a separator follows.
pub proof fn law_workspace_path_inside_root(os: HostOs, root: Seq<char>, rel: Seq<char>)
    requires
        root.len() > 0,
        win(os) ==> prefix_of(os, root) is Some && physical_root(os, root) && !verbatim(os, root),
        !is_abs(os, rel),
        !has_parent_ref(os, rel),
        prefix_of(os, rel) is None,
        !has_root(os, rel),
    ensures
        path_has_prefix(os, joined(os, root, rel), root),
        segments(os, joined(os, root, rel)) == segments(os, root) + segments(os, rel),
        !segments(os, joined(os, root, rel)).skip(segments(os, root).len() as int).contains(dot_dot()),
{
    lemma_join_relative(os, root, rel);
    let j = joined(os, root, rel);
    assert(components(os, j).take(components(os, root).len() as int) =~= components(os, root));
    assert(segments(os, j).skip(segments(os, root).len() as int) =~= segments(os, rel));
}

/// The per-user data root: on Windows `<home>\\Documents\\KDev`; on every
/// other platform (Linux, macOS, the rest) `<home>/.kdev`.
pub proof fn law_user_root_layout(os: HostOs, home: Seq<char>)
    ensures
        os != HostOs::Windows ==> user_root_path(os, home) == joined(os, home, ".kdev"@),
        os == HostOs::MacOs ==> user_root_path(os, home) == joined(os, home, ".kdev"@),
        os == HostOs::Other ==> user_root_path(os, home) == joined(os, home, ".kdev"@),
        os == HostOs::Windows ==> user_root_path(os, home) == joined(os, joined(os, home, "Documents"@), "KDev"@),
{
}

} // verus!
