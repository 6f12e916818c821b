//! Where KDev finds the tools it runs: a bundled copy first, the host's copy
//! only as a fallback, and an honest report of which one was used.

use vstd::prelude::*;
use crate::text::{owned, cat, trim};
use crate::paths::{join, joined};

verus! {

/// Where a tool came from.
#[derive(Clone, Copy, Debug, PartialEq, Eq, Structural)]
pub enum RuntimeSource {
    Bundled,
    Host,
    Missing,
}

/// The label shown for a tool's source.
pub open spec fn source_text(s: RuntimeSource) -> Seq<char> {
    match s {
        RuntimeSource::Bundled => "KDev bundled runtime"@,
        RuntimeSource::Host => "Host system"@,
        RuntimeSource::Missing => "KDev runtime not installed"@,
    }
}

impl RuntimeSource {
    /// The label shown for a tool's source.
    pub fn label(self) -> (s: &'static str)
        ensures
            s@ == source_text(self),
    {
        match self {
            RuntimeSource::Bundled => "KDev bundled runtime",
            RuntimeSource::Host => "Host system",
            RuntimeSource::Missing => "KDev runtime not installed",
        }
    }
}

/// The executable KDev will invoke for a tool, and where it came from.
pub struct ResolvedTool {
    pub executable: String,
    pub source: RuntimeSource,
}

/// The operating system family KDev was built for.
#[derive(Clone, Copy, Debug, PartialEq, Eq, Structural)]
pub enum HostOs {
    Windows,
    MacOs,
    Other,
}

/// The target KDev was built for.
#[derive(Clone, Copy, Debug, PartialEq, Eq, Structural)]
pub struct Platform {
    pub os: HostOs,
    pub aarch64: bool,
}

/// The runtime subdirectories searched on a platform, in order.
pub open spec fn subdir_names(p: Platform) -> Seq<Seq<char>> {
    match p.os {
        HostOs::Windows => seq!["windows-x64"@, "windows-arm64"@],
        HostOs::MacOs => if p.aarch64 {
            seq!["macos-arm64"@, "macos-x64"@]
        } else {
            seq!["macos-x64"@]
        },
        HostOs::Other => if p.aarch64 {
            seq!["linux-arm64"@]
        } else {
            seq!["linux-x64"@]
        },
    }
}

/// The runtime subdirectories searched on a platform, in order.
pub fn platform_subdirs(p: Platform) -> (r: Vec<&'static str>)
    ensures
        r@.map_values(|s: &str| s@) == subdir_names(p),
{
    let mut r: Vec<&'static str> = Vec::new();
    match p.os {
        HostOs::Windows => {
            r.push("windows-x64");
            r.push("windows-arm64");
        },
        HostOs::MacOs => {
            if p.aarch64 {
                r.push("macos-arm64");
            }
            r.push("macos-x64");
        },
        HostOs::Other => {
            if p.aarch64 {
                r.push("linux-arm64");
            } else {
                r.push("linux-x64");
            }
        },
    }
    assert(r@.map_values(|s: &str| s@) =~= subdir_names(p));
    r
}

/// The file name of a tool's executable: `tool.exe` on Windows.
pub open spec fn exe_name(p: Platform, tool: Seq<char>) -> Seq<char> {
    if p.os == HostOs::Windows {
        tool + ".exe"@
    } else {
        tool
    }
}

/// The candidate paths under one runtime root: `<root>/<platform>/bin/<exe>`
/// for each platform subdirectory, then `<root>/bin/<exe>`.
pub open spec fn root_candidates(os: HostOs, root: Seq<char>, subs: Seq<Seq<char>>, exe: Seq<char>) -> Seq<Seq<char>> {
    subs.map_values(|sub: Seq<char>| joined(os, joined(os, joined(os, root, sub), "bin"@), exe)).push(
        joined(os, joined(os, root, "bin"@), exe),
    )
}

/// Every candidate path for a bundled tool, root by root, in search order.
pub open spec fn bundled_candidates(roots: Seq<Seq<char>>, p: Platform, tool: Seq<char>) -> Seq<Seq<char>>
    decreases roots.len(),
{
    if roots.len() == 0 {
        Seq::empty()
    } else {
        bundled_candidates(roots.drop_last(), p, tool) + root_candidates(
            p.os,
            roots.last(),
            subdir_names(p),
            exe_name(p, tool),
        )
    }
}

/// The runtime roots, in priority order: the packaged resource directory,
/// the folder beside the executable, and KDev's own data root, each with
/// `runtime` appended.
pub open spec fn runtime_root_paths(os: HostOs, resource_dir: Option<Seq<char>>, exe_dir: Option<Seq<char>>, kdev_root: Seq<char>) -> Seq<Seq<char>> {
    (match resource_dir {
        Some(r) => seq![joined(os, r, "runtime"@)],
        None => Seq::empty(),
    }) + (match exe_dir {
        Some(e) => seq![joined(os, e, "runtime"@)],
        None => Seq::empty(),
    }) + seq![joined(os, kdev_root, "runtime"@)]
}

/// The directories searched for bundled tools, in priority order.
pub fn runtime_roots(os: HostOs, resource_dir: Option<String>, exe_dir: Option<String>, kdev_root: &str) -> (r: Vec<String>)
    ensures
        crate::text::views(r@) == runtime_root_paths(
            os,
            match resource_dir { Some(s) => Some(s@), None => None },
            match exe_dir { Some(s) => Some(s@), None => None },
            kdev_root@,
        ),
{
    let mut r: Vec<String> = Vec::new();
    if let Some(d) = &resource_dir {
        r.push(join(os, d.as_str(), "runtime"));
    }
    if let Some(d) = &exe_dir {
        r.push(join(os, d.as_str(), "runtime"));
    }
    r.push(join(os, kdev_root, "runtime"));
    assert(crate::text::views(r@) =~= runtime_root_paths(
        os,
        match resource_dir { Some(s) => Some(s@), None => None },
        match exe_dir { Some(s) => Some(s@), None => None },
        kdev_root@,
    ));
    r
}

/// The paths to try, in order, for a bundled copy of `tool`.
pub fn bundled_candidate_paths(roots: &Vec<String>, p: Platform, tool: &str) -> (r: Vec<String>)
    ensures
        crate::text::views(r@) == bundled_candidates(crate::text::views(roots@), p, tool@),
{
    let os = p.os;
    let subs = platform_subdirs(p);
    let exe = if p.os == HostOs::Windows { cat(tool, ".exe") } else { owned(tool) };
    let ghost subv = subs@.map_values(|s: &str| s@);
    let mut r: Vec<String> = Vec::new();
    let mut i: usize = 0;
    assert(crate::text::views(roots@).take(0) =~= Seq::<Seq<char>>::empty());
    while i < roots.len()
        invariant
            i <= roots.len(),
            subv == subdir_names(p),
            os == p.os,
            subs@.map_values(|s: &str| s@) == subv,
            exe@ == exe_name(p, tool@),
            crate::text::views(r@) == bundled_candidates(crate::text::views(roots@).take(i as int), p, tool@),
        decreases roots.len() - i,
    {
        let root = &roots[i];
        let ghost before = crate::text::views(r@);
        let mut j: usize = 0;
        while j < subs.len()
            invariant
                j <= subs.len(),
                subs@.map_values(|s: &str| s@) == subv,
                os == p.os,
                crate::text::views(r@) == before + subv.take(j as int).map_values(
                    |sub: Seq<char>| joined(os, joined(os, joined(os, root@, sub), "bin"@), exe@),
                ),
            decreases subs.len() - j,
        {
            let a = join(os, root.as_str(), subs[j]);
            let b = join(os, a.as_str(), "bin");
            let c = join(os, b.as_str(), exe.as_str());
            let ghost mid = crate::text::views(r@);
            r.push(c);
            assert(subv[j as int] == subs@[j as int]@);
            assert(crate::text::views(r@) =~= mid.push(c@));
            assert(subv.take(j + 1).map_values(|sub: Seq<char>| joined(os, joined(os, joined(os, root@, sub), "bin"@), exe@))
                =~= subv.take(j as int).map_values(|sub: Seq<char>| joined(os, joined(os, joined(os, root@, sub), "bin"@), exe@)).push(c@));
            j += 1;
        }
        let b = join(os, root.as_str(), "bin");
        let c = join(os, b.as_str(), exe.as_str());
        let ghost mid = crate::text::views(r@);
        r.push(c);
        assert(crate::text::views(r@) =~= mid.push(c@));
        assert(subv.take(subs.len() as int) == subv);
        assert(crate::text::views(roots@).take(i + 1).drop_last() =~= crate::text::views(roots@).take(i as int));
        assert(crate::text::views(roots@).take(i + 1).last() == root@);
        assert(crate::text::views(r@) =~= bundled_candidates(crate::text::views(roots@).take(i + 1), p, tool@));
        i += 1;
    }
    assert(crate::text::views(roots@).take(roots.len() as int) =~= crate::text::views(roots@));
    r
}

/// The bundled executable for a tool: the first of its candidate paths (in the
/// order `bundled_candidate_paths` gives them) that is present, if any.
pub fn bundled_executable(candidates: &Vec<String>, present: &Vec<bool>) -> (r: Option<String>)
    requires
        candidates.len() == present.len(),
    ensures
        r is None <==> forall|i: int| 0 <= i < present.len() ==> !present@[i],
        r matches Some(c) ==> exists|i: int|
            0 <= i < present.len() && present@[i] && candidates@[i]@ == c@
                && forall|k: int| 0 <= k < i ==> !present@[k],
{
    let mut i: usize = 0;
    while i < present.len()
        invariant
            candidates.len() == present.len(),
            i <= present.len(),
            forall|k: int| 0 <= k < i ==> !present@[k],
        decreases present.len() - i,
    {
        if present[i] {
            return Some(candidates[i].clone());
        }
        i += 1;
    }
    None
}

/// Which executable to run for `tool`: the bundled copy when one was found,
/// else the host's copy when the host answers, else nothing (`Missing`, with
/// the bare tool name). A host tool is never reported as bundled.
pub fn resolve_tool(tool: &str, bundled: Option<String>, host_available: bool) -> (r: ResolvedTool)
    ensures
        bundled matches Some(p) ==> r.executable@ == p@ && r.source == RuntimeSource::Bundled,
        bundled is None && host_available ==> r.executable@ == tool@ && r.source == RuntimeSource::Host,
        bundled is None && !host_available ==> r.executable@ == tool@ && r.source == RuntimeSource::Missing,
{
    match bundled {
        Some(p) => ResolvedTool { executable: p, source: RuntimeSource::Bundled },
        None => if host_available {
            ResolvedTool { executable: owned(tool), source: RuntimeSource::Host }
        } else {
            ResolvedTool { executable: owned(tool), source: RuntimeSource::Missing }
        },
    }
}

/// One line of the Doctor report.
pub struct ToolStatus {
    pub tool: String,
    pub label: String,
    pub ready: bool,
    pub source: RuntimeSource,
    pub source_label: String,
    pub detail: String,
}

/// How a tool's version command went: it ran and exited, or it could not
/// be started (with the reason).
pub enum VersionProbe {
    Exited { success: bool, stdout: String, stderr: String },
    NotStarted(String),
}

/// The Doctor line of a found tool, from how its version command went.
pub open spec fn probed_status(tool: Seq<char>, label: Seq<char>, source: RuntimeSource, probe: VersionProbe, r: ToolStatus) -> bool {
    &&& r.tool@ == tool
    &&& r.label@ == label
    &&& match probe {
        VersionProbe::Exited { success: true, stdout, stderr } => {
            let text = if crate::text::trimmed(stdout@).len() == 0 {
                crate::text::trimmed(stderr@)
            } else {
                crate::text::trimmed(stdout@)
            };
            &&& r.ready
            &&& r.source == source
            &&& r.source_label@ == source_text(source)
            &&& r.detail@ == (if text.len() == 0 { "Ready"@ } else { text })
        },
        VersionProbe::Exited { success: false, stdout, stderr } => {
            let err = crate::text::trimmed(stderr@);
            &&& !r.ready
            &&& r.source == source
            &&& r.source_label@ == source_text(source) + " (not responding)"@
            &&& r.detail@ == (if err.len() == 0 { "The tool did not report a version."@ } else { err })
        },
        VersionProbe::NotStarted(e) => {
            &&& !r.ready
            &&& r.source == RuntimeSource::Missing
            &&& r.source_label@ == source_text(RuntimeSource::Missing)
            &&& r.detail@ == e@
        },
    }
}

/// The Doctor line for one tool: not found when it is missing; else its
/// version command (`<executable> --version`) is run by `probe`, and the
/// line reads how that went.
pub fn tool_status<P>(tool: &str, label: &str, resolved: &ResolvedTool, probe: P) -> (r: ToolStatus)
    where
        P: Fn(String) -> VersionProbe,
    requires
        forall|e: String| #[trigger] probe.requires((e,)),
    ensures
        r.tool@ == tool@,
        r.label@ == label@,
        resolved.source == RuntimeSource::Missing ==> {
            &&& !r.ready
            &&& r.source == RuntimeSource::Missing
            &&& r.source_label@ == source_text(RuntimeSource::Missing)
            &&& r.detail@ == label@ + " was not found in the KDev runtime directory or on the host PATH."@
        },
        resolved.source != RuntimeSource::Missing ==> exists|e: String, p: VersionProbe|
            #![trigger probe.ensures((e,), p)]
            e@ == resolved.executable@ && probe.ensures((e,), p) && probed_status(tool@, label@, resolved.source, p, r),
{
    if resolved.source == RuntimeSource::Missing {
        return ToolStatus {
            tool: owned(tool),
            label: owned(label),
            ready: false,
            source: RuntimeSource::Missing,
            source_label: owned(RuntimeSource::Missing.label()),
            detail: cat(label, " was not found in the KDev runtime directory or on the host PATH."),
        };
    }
    let p = probe(resolved.executable.clone());
    match p {
        VersionProbe::Exited { success, stdout, stderr } => {
            if success {
                let mut text = trim(stdout.as_str());
                if text.as_str().is_empty() {
                    text = trim(stderr.as_str());
                }
                let detail = if text.as_str().is_empty() { owned("Ready") } else { text };
                ToolStatus {
                    tool: owned(tool),
                    label: owned(label),
                    ready: true,
                    source: resolved.source,
                    source_label: owned(resolved.source.label()),
                    detail,
                }
            } else {
                let err = trim(stderr.as_str());
                let detail = if err.as_str().is_empty() { owned("The tool did not report a version.") } else { err };
                ToolStatus {
                    tool: owned(tool),
                    label: owned(label),
                    ready: false,
                    source: resolved.source,
                    source_label: cat(resolved.source.label(), " (not responding)"),
                    detail,
                }
            }
        },
        VersionProbe::NotStarted(e) => ToolStatus {
            tool: owned(tool),
            label: owned(label),
            ready: false,
            source: RuntimeSource::Missing,
            source_label: owned(RuntimeSource::Missing.label()),
            detail: e,
        },
    }
}

/// The tools in the Doctor report, in order, with their labels; each is
/// asked for `--version`.
pub open spec fn doctor_tool_list() -> Seq<(Seq<char>, Seq<char>)> {
    seq![
        ("python"@, "Python"@),
        ("node"@, "Node.js"@),
        ("npm"@, "npm"@),
        ("git"@, "Git"@),
        ("ruff"@, "Ruff"@),
        ("prettier"@, "Prettier"@),
    ]
}

/// The tools in the Doctor report, in order, with their labels.
pub fn doctor_tools() -> (r: Vec<(&'static str, &'static str)>)
    ensures
        r@.map_values(|p: (&str, &str)| (p.0@, p.1@)) == doctor_tool_list(),
{
    let mut r: Vec<(&'static str, &'static str)> = Vec::new();
    r.push(("python", "Python"));
    r.push(("node", "Node.js"));
    r.push(("npm", "npm"));
    r.push(("git", "Git"));
    r.push(("ruff", "Ruff"));
    r.push(("prettier", "Prettier"));
    assert(r@.map_values(|p: (&str, &str)| (p.0@, p.1@)) =~= doctor_tool_list());
    r
}

/// The arguments that ask a tool for its version.
pub fn version_args() -> (r: Vec<&'static str>)
    ensures
        r@.len() == 1,
        r@[0]@ == "--version"@,
{
    let mut r: Vec<&'static str> = Vec::new();
    r.push("--version");
    r
}

/// The runtime roots, searched in order: the resource directory's
/// `runtime` folder when there is one, then the one beside the executable
/// when its directory is known, then the one in the data root, always last;
/// nothing else.
pub proof fn law_runtime_roots_order(os: HostOs, resource_dir: Option<Seq<char>>, exe_dir: Option<Seq<char>>, kdev_root: Seq<char>)
    ensures
        ({
            let l = runtime_root_paths(os, resource_dir, exe_dir, kdev_root);
            let n_res: int = if resource_dir is Some { 1 } else { 0 };
            let n_exe: int = if exe_dir is Some { 1 } else { 0 };
            &&& l.len() == n_res + n_exe + 1
            &&& l[l.len() - 1] == joined(os, kdev_root, "runtime"@)
            &&& resource_dir matches Some(r) ==> l[0] == joined(os, r, "runtime"@)
            &&& exe_dir matches Some(e) ==> l[n_res] == joined(os, e, "runtime"@) && n_res < l.len() - 1
            &&& exe_dir matches Some(e) ==> l.contains(joined(os, e, "runtime"@))
        }),
{
    let l = runtime_root_paths(os, resource_dir, exe_dir, kdev_root);
    let n_res: int = if resource_dir is Some { 1 } else { 0 };
    if let Some(e) = exe_dir {
        assert(l[n_res] == joined(os, e, "runtime"@));
    }
}

} // verus!
