//! Debugger launch support: which debug adapters are available, and the
//! `debugpy` launch command for a Python file.

use vstd::prelude::*;
use crate::text::{owned, cat, cat3, contains_char, contains_str, has_infix};
use crate::runtime::{HostOs, ResolvedTool, RuntimeSource};
use crate::paths::{join, joined, extension, extension_of, dot_dot};
use crate::text::same_text;

verus! {

/// What the debugger panel can offer.
pub struct DebugCapability {
    pub python: bool,
    pub python_source: String,
    pub javascript: bool,
    pub javascript_source: String,
    pub typescript: bool,
    pub note: String,
}

/// The label of a debug runtime's source.
pub open spec fn debug_source_text(s: RuntimeSource) -> Seq<char> {
    match s {
        RuntimeSource::Bundled => "KDev bundled runtime"@,
        RuntimeSource::Host => "Host system"@,
        RuntimeSource::Missing => "Not available"@,
    }
}

/// The label of a debug runtime's source.
pub fn source_label(source: RuntimeSource) -> (s: &'static str)
    ensures
        s@ == debug_source_text(source),
{
    match source {
        RuntimeSource::Bundled => "KDev bundled runtime",
        RuntimeSource::Host => "Host system",
        RuntimeSource::Missing => "Not available",
    }
}

/// The note shown with the capabilities.
pub open spec fn capability_note() -> Seq<char> {
    "Debugger adapters are discovered from the KDev runtime first, then the host machine. KDev does not require internet access for capability detection."@
}

/// What can be debugged: Python when Python was found and imports `debugpy`,
/// JavaScript (and TypeScript) when Node.js was found and answers
/// `--version`. A probe result is ignored for a missing runtime.
pub fn debugger_capability(python: RuntimeSource, debugpy_ok: bool, node: RuntimeSource, node_ok: bool) -> (r: DebugCapability)
    ensures
        r.python == (python != RuntimeSource::Missing && debugpy_ok),
        r.python_source@ == debug_source_text(python),
        r.javascript == (node != RuntimeSource::Missing && node_ok),
        r.javascript_source@ == debug_source_text(node),
        r.typescript == r.javascript,
        r.note@ == capability_note(),
{
    let js = node != RuntimeSource::Missing && node_ok;
    DebugCapability {
        python: python != RuntimeSource::Missing && debugpy_ok,
        python_source: owned(source_label(python)),
        javascript: js,
        javascript_source: owned(source_label(node)),
        typescript: js,
        note: owned(
            "Debugger adapters are discovered from the KDev runtime first, then the host machine. KDev does not require internet access for capability detection.",
        ),
    }
}

/// A debug target is a project name without separators and a file path
/// without `".."`.
pub open spec fn valid_debug_target(project: Seq<char>, file: Seq<char>) -> bool {
    project.len() > 0 && !project.contains('/') && !project.contains('\\') && !has_infix(file, dot_dot())
}

/// Checks a debug target's project and file names.
pub fn check_debug_target(project: &str, file: &str) -> (r: Result<(), String>)
    ensures
        r is Ok <==> valid_debug_target(project@, file@),
        r matches Err(m) ==> m@ == "invalid project or file path"@,
{
    proof {
        reveal_strlit("..");
        assert(".."@ =~= dot_dot());
    }
    if project.is_empty() || contains_char(project, '/') || contains_char(project, '\\') || contains_str(file, "..") {
        Err(owned("invalid project or file path"))
    } else {
        Ok(())
    }
}

/// `<root>/workspace/projects/<project>/<file>`.
pub fn debug_script_path(os: HostOs, root: &str, project: &str, file: &str) -> (r: String)
    ensures
        r@ == joined(os, joined(os, joined(os, root@, "workspace/projects"@), project@), file@),
{
    let a = join(os, root, "workspace/projects");
    let b = join(os, a.as_str(), project);
    join(os, b.as_str(), file)
}

/// The script must be an existing `.py` file.
pub fn check_python_script(os: HostOs, path: &str, is_file: bool) -> (r: Result<(), String>)
    ensures
        r is Ok <==> is_file && extension_of(os, path@) == Some("py"@),
        r matches Err(m) ==> m@ == "Python source file not found"@,
{
    if !is_file {
        return Err(owned("Python source file not found"));
    }
    match extension(os, path) {
        Some(e) => if same_text(e.as_str(), "py") {
            Ok(())
        } else {
            Err(owned("Python source file not found"))
        },
        None => Err(owned("Python source file not found")),
    }
}

/// The message when no Python can be found.
pub open spec fn python_missing_text() -> Seq<char> {
    "Python was not found in the KDev runtime or on the host PATH."@
}

/// The launch command for a Python script:
/// `<python> -m debugpy --listen 127.0.0.1:5678 --wait-for-client "<script>"`.
pub open spec fn debug_command_text(executable: Seq<char>, script: Seq<char>) -> Seq<char> {
    executable + " -m debugpy --listen 127.0.0.1:5678 --wait-for-client \""@ + script + "\""@
}

/// The launch command, refused when Python is missing.
pub fn debug_launch(python: RuntimeSource, executable: &str, script: &str) -> (r: Result<String, String>)
    ensures
        python == RuntimeSource::Missing ==> (r matches Err(m) && m@ == python_missing_text()),
        python != RuntimeSource::Missing ==> (r matches Ok(c) && c@ == debug_command_text(executable@, script@)),
{
    if python == RuntimeSource::Missing {
        return Err(owned("Python was not found in the KDev runtime or on the host PATH."));
    }
    let a = cat3(executable, " -m debugpy --listen 127.0.0.1:5678 --wait-for-client \"", script);
    Ok(cat(a.as_str(), "\""))
}

/// The command that launches a project's Python script under `debugpy`:
/// refused for a project name with a separator (or none) or a file path
/// with `".."`; the data root's error; refused unless
/// `<root>/workspace/projects/<project>/<file>` is a file (as `is_file`
/// finds) with the extension `py`; refused when Python (looked for with
/// `resolve`) is missing; else the launch command for that script.
pub fn debug_python_command<F, R>(os: HostOs, root: &Result<String, String>, project: &str, file: &str, is_file: F, resolve: R) -> (r: Result<String, String>)
    where
        F: Fn(String) -> bool,
        R: Fn(&'static str) -> ResolvedTool,
    requires
        forall|p: String| #[trigger] is_file.requires((p,)),
        forall|t: &'static str| #[trigger] resolve.requires((t,)),
    ensures
        !valid_debug_target(project@, file@) ==> (r matches Err(m) && m@ == "invalid project or file path"@),
        valid_debug_target(project@, file@) ==> (root matches Err(e) ==> r == Err::<String, String>(*e)),
        valid_debug_target(project@, file@) ==> (root matches Ok(b) ==> {
            let path = joined(os, joined(os, joined(os, b@, "workspace/projects"@), project@), file@);
            exists|pa: String, found_file: bool|
                #![trigger is_file.ensures((pa,), found_file)]
                {
                    &&& pa@ == path
                    &&& is_file.ensures((pa,), found_file)
                    &&& !(found_file && extension_of(os, path) == Some("py"@)) ==> (r matches Err(m) && m@
                        == "Python source file not found"@)
                    &&& (found_file && extension_of(os, path) == Some("py"@)) ==> exists|tool: &'static str, found: ResolvedTool|
                        #![trigger resolve.ensures((tool,), found)]
                        {
                            &&& tool@ == "python"@
                            &&& resolve.ensures((tool,), found)
                            &&& found.source == RuntimeSource::Missing ==> (r matches Err(m) && m@ == python_missing_text())
                            &&& found.source != RuntimeSource::Missing ==> (r matches Ok(c) && c@ == debug_command_text(
                                found.executable@,
                                path,
                            ))
                        }
                }
        }),
{
    check_debug_target(project, file)?;
    let base = match root {
        Err(e) => return Err(e.clone()),
        Ok(b) => b,
    };
    let path = debug_script_path(os, base.as_str(), project, file);
    let exists_file = is_file(path.clone());
    check_python_script(os, path.as_str(), exists_file)?;
    let found = resolve("python");
    debug_launch(found.source, found.executable.as_str(), path.as_str())
}
} // verus!
