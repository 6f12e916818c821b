//! Project tooling: what a project holds, installing its dependencies, the
//! static web preview, and running or formatting one of its files with the
//! right tool.

use vstd::prelude::*;
use crate::text::{owned, cat, cat3, views, is_blank, blank, to_lowercase, lowercase_of, same_text, is_ascii_text, ascii_lower};
use crate::runtime::{HostOs, ResolvedTool, RuntimeSource};
use crate::process::{CommandOutput, combined, combined_text, command_text, command_outcome};
use crate::numbers::{decimal, decimal_string};
use crate::paths::{extension, extension_of};
use crate::json::{json_object_member_names, json_object_member_names_of};

verus! {

/// What a project directory holds.
pub struct ProjectInfo {
    pub has_package_json: bool,
    pub has_requirements: bool,
    pub has_pyproject: bool,
    pub has_git: bool,
    pub scripts: Vec<String>,
}

/// The project facts, with the script names read from `package.json`
/// (`None` when there are none to read).
pub fn project_info_from(scripts: Option<Vec<String>>, has_package_json: bool, has_requirements: bool, has_pyproject: bool, has_git: bool) -> (r: ProjectInfo)
    ensures
        r.has_package_json == has_package_json,
        r.has_requirements == has_requirements,
        r.has_pyproject == has_pyproject,
        r.has_git == has_git,
        scripts matches Some(s) ==> r.scripts@ == s@,
        scripts is None ==> r.scripts@.len() == 0,
{
    let scripts = match scripts {
        Some(s) => s,
        None => Vec::new(),
    };
    ProjectInfo { has_package_json, has_requirements, has_pyproject, has_git, scripts }
}

/// The project facts, reading the script names from the text of
/// `package.json` (`None` when it could not be read).
pub fn project_info(package_json: Option<String>, has_package_json: bool, has_requirements: bool, has_pyproject: bool, has_git: bool) -> (r: ProjectInfo)
    ensures
        r.has_package_json == has_package_json,
        r.has_requirements == has_requirements,
        r.has_pyproject == has_pyproject,
        r.has_git == has_git,
        package_json is None ==> r.scripts@.len() == 0,
        package_json matches Some(t) ==> match json_object_member_names_of(t@, "scripts"@) {
            Some(names) => views(r.scripts@) == names,
            None => r.scripts@.len() == 0,
        },
{
    let scripts = match &package_json {
        Some(t) => json_object_member_names(t.as_str(), "scripts"),
        None => None,
    };
    project_info_from(scripts, has_package_json, has_requirements, has_pyproject, has_git)
}

/// The message for a tool found neither bundled nor on the host.
pub open spec fn tool_missing_text(tool: Seq<char>) -> Seq<char> {
    tool + " was not found in the KDev runtime or on the host PATH."@
}

/// The message for a tool found neither bundled nor on the host.
pub fn tool_missing(tool: &str) -> (r: String)
    ensures
        r@ == tool_missing_text(tool@),
{
    cat(tool, " was not found in the KDev runtime or on the host PATH.")
}

/// How to install a project's dependencies: `npm install` when it has a
/// `package.json`, else `python -m pip install -r requirements.txt` when it
/// has a `requirements.txt`, else refused.
pub fn dependency_install_plan(has_package_json: bool, has_requirements: bool) -> (r: Result<(&'static str, Vec<&'static str>), String>)
    ensures
        has_package_json ==> (r matches Ok(p) && p.0@ == "npm"@ && p.1@.map_values(|s: &str| s@) == seq!["install"@]),
        !has_package_json && has_requirements ==> (r matches Ok(p) && p.0@ == "python"@ && p.1@.map_values(
            |s: &str| s@,
        ) == seq!["-m"@, "pip"@, "install"@, "-r"@, "requirements.txt"@]),
        !has_package_json && !has_requirements ==> (r matches Err(m) && m@
            == "No package.json or requirements.txt found in this project."@),
{
    if has_package_json {
        let mut a: Vec<&'static str> = Vec::new();
        a.push("install");
        assert(a@.map_values(|s: &str| s@) =~= seq!["install"@]);
        Ok(("npm", a))
    } else if has_requirements {
        let mut a: Vec<&'static str> = Vec::new();
        a.push("-m");
        a.push("pip");
        a.push("install");
        a.push("-r");
        a.push("requirements.txt");
        assert(a@.map_values(|s: &str| s@) =~= seq!["-m"@, "pip"@, "install"@, "-r"@, "requirements.txt"@]);
        Ok(("python", a))
    } else {
        Err(owned("No package.json or requirements.txt found in this project."))
    }
}

/// The installer's tool: `npm` for a `package.json`, else `python`.
pub open spec fn install_tool(has_package_json: bool) -> Seq<char> {
    if has_package_json {
        "npm"@
    } else {
        "python"@
    }
}

/// The installer's arguments.
pub open spec fn install_args(has_package_json: bool) -> Seq<Seq<char>> {
    if has_package_json {
        seq!["install"@]
    } else {
        seq!["-m"@, "pip"@, "install"@, "-r"@, "requirements.txt"@]
    }
}

/// `r` is what an install gives for the installer's run: the start failure,
/// or the combined output, as an error when the installer failed.
pub open spec fn install_outcome(run: Result<CommandOutput, String>, r: Result<String, String>) -> bool {
    match run {
        Err(e) => r matches Err(m) && m@ == "cannot start dependency manager: "@ + e@,
        Ok(o) => if o.success {
            r matches Ok(t) && t@ == combined_text(o)
        } else {
            r matches Err(t) && t@ == combined_text(o)
        },
    }
}

/// Installs a project's dependencies: refused when it has neither a
/// `package.json` nor a `requirements.txt`; else the tool (`npm`, or
/// `python` for pip) is found with `resolve`, refused when missing, and the
/// found executable is run with the plan's arguments by `run` (in the
/// project directory, input closed); the result is its combined output, as
/// an error when it failed.
pub fn install_project_dependencies<R, X>(has_package_json: bool, has_requirements: bool, resolve: R, run: X) -> (r: Result<String, String>)
    where
        R: Fn(&'static str) -> ResolvedTool,
        X: Fn(String, Vec<String>) -> Result<CommandOutput, String>,
    requires
        forall|t: &'static str| #[trigger] resolve.requires((t,)),
        forall|e: String, a: Vec<String>| #[trigger] run.requires((e, a)),
    ensures
        !has_package_json && !has_requirements ==> (r matches Err(m) && m@
            == "No package.json or requirements.txt found in this project."@),
        has_package_json || has_requirements ==> exists|tool: &'static str, found: ResolvedTool|
            #![trigger resolve.ensures((tool,), found)]
            {
                &&& tool@ == install_tool(has_package_json)
                &&& resolve.ensures((tool,), found)
                &&& found.source == RuntimeSource::Missing ==> (r matches Err(m) && m@ == tool_missing_text(tool@))
                &&& found.source != RuntimeSource::Missing ==> exists|e: String, a: Vec<String>, out: Result<CommandOutput, String>|
                    #![trigger run.ensures((e, a), out)]
                    e@ == found.executable@ && views(a@) == install_args(has_package_json) && run.ensures((e, a), out)
                        && install_outcome(out, r)
            },
{
    let (tool, args) = dependency_install_plan(has_package_json, has_requirements)?;
    let found = resolve(tool);
    let exe = installer_executable(tool, &found)?;
    let mut a: Vec<String> = Vec::new();
    let mut i: usize = 0;
    while i < args.len()
        invariant
            i <= args.len(),
            views(a@) == args@.take(i as int).map_values(|s: &str| s@),
        decreases args.len() - i,
    {
        a.push(owned(args[i]));
        assert(args@.take(i + 1).map_values(|s: &str| s@) =~= args@.take(i as int).map_values(|s: &str| s@).push(
            args@[i as int]@,
        ));
        assert(views(a@) =~= views(a@).take(i as int).push(a@[i as int]@));
        i += 1;
    }
    assert(args@.take(args.len() as int) =~= args@);
    let out = run(exe, a);
    let r = dependency_install_result(out);
    proof {
        assert(install_outcome(out, r));
    }
    r
}

/// The executable that installs the dependencies: the resolved copy of
/// `tool`, or the "not found" refusal when it is missing.
pub fn installer_executable(tool: &str, resolved: &ResolvedTool) -> (r: Result<String, String>)
    ensures
        resolved.source == RuntimeSource::Missing ==> (r matches Err(m) && m@ == tool_missing_text(tool@)),
        resolved.source != RuntimeSource::Missing ==> (r matches Ok(e) && e@ == resolved.executable@),
{
    if resolved.source == RuntimeSource::Missing {
        Err(tool_missing(tool))
    } else {
        Ok(resolved.executable.clone())
    }
}

/// What installing dependencies gives: the start failure, or the combined
/// output, as an error when the installer failed.
pub fn dependency_install_result(run: Result<CommandOutput, String>) -> (r: Result<String, String>)
    ensures
        run matches Err(e) ==> (r matches Err(m) && m@ == "cannot start dependency manager: "@ + e@),
        run matches Ok(o) ==> (o.success ==> (r matches Ok(t) && t@ == combined_text(o))),
        run matches Ok(o) ==> (!o.success ==> (r matches Err(t) && t@ == combined_text(o))),
{
    match run {
        Err(e) => Err(cat("cannot start dependency manager: ", e.as_str())),
        Ok(o) => {
            let text = combined(&o);
            if o.success {
                Ok(text)
            } else {
                Err(text)
            }
        },
    }
}

/// The port the preview server listens on: the requested one, or 4173.
pub open spec fn preview_port_of(port: u16) -> u16 {
    if port == 0 {
        4173
    } else {
        port
    }
}

/// The static preview: refused without an `index.html` or without Python;
/// otherwise the port and the arguments of
/// `python -m http.server <port> --bind 127.0.0.1`.
pub fn preview_plan(has_index: bool, python: RuntimeSource, port: u16) -> (r: Result<(u16, Vec<String>), String>)
    ensures
        !has_index ==> (r matches Err(m) && m@ == "Static preview requires an index.html in the project root."@),
        has_index && python == RuntimeSource::Missing ==> (r matches Err(m) && m@
            == "Python was not found in the KDev runtime or on the host PATH; it is required for the built-in static preview server."@),
        has_index && python != RuntimeSource::Missing ==> (r matches Ok(p) && p.0 == preview_port_of(port)
            && views(p.1@) == seq!["-m"@, "http.server"@, decimal(preview_port_of(port) as nat), "--bind"@, "127.0.0.1"@]),
{
    if !has_index {
        return Err(owned("Static preview requires an index.html in the project root."));
    }
    if python == RuntimeSource::Missing {
        return Err(owned(
            "Python was not found in the KDev runtime or on the host PATH; it is required for the built-in static preview server.",
        ));
    }
    let port: u16 = if port == 0 { 4173 } else { port };
    let mut a: Vec<String> = Vec::new();
    a.push(owned("-m"));
    a.push(owned("http.server"));
    a.push(decimal_string(port as u64));
    a.push(owned("--bind"));
    a.push(owned("127.0.0.1"));
    assert(views(a@) =~= seq!["-m"@, "http.server"@, decimal(port as nat), "--bind"@, "127.0.0.1"@]);
    Ok((port, a))
}

/// The address of the preview server.
pub fn preview_url(port: u16) -> (r: String)
    ensures
        r@ == "http://127.0.0.1:"@ + decimal(port as nat),
{
    let p = decimal_string(port as u64);
    cat("http://127.0.0.1:", p.as_str())
}

/// `r` is what running `tool` with `args` gives once it was looked for:
/// refused when it is missing; else the found executable is run with those
/// arguments by `run`, and `r` is the start failure (`cannot run <tool>:
/// ...`) or the command's text (failing with `<tool> exited with an error`
/// when a failed command said nothing); on success, a formatter's blank
/// output reads `Formatted.`.
pub open spec fn tool_ran<X: Fn(String, Vec<String>) -> Result<CommandOutput, String>>(
    tool: Seq<char>,
    found: ResolvedTool,
    args: Seq<Seq<char>>,
    run: X,
    formatting: bool,
    r: Result<String, String>,
) -> bool {
    &&& found.source == RuntimeSource::Missing ==> (r matches Err(m) && m@ == tool_missing_text(tool))
    &&& found.source != RuntimeSource::Missing ==> exists|e: String, a: Vec<String>, out: Result<CommandOutput, String>|
        #![trigger run.ensures((e, a), out)]
        {
            &&& e@ == found.executable@
            &&& views(a@) == args
            &&& run.ensures((e, a), out)
            &&& match out {
                Err(x) => r matches Err(m) && m@ == "cannot run "@ + tool + ": "@ + x@,
                Ok(o) => if formatting && o.success {
                    r matches Ok(t) && t@ == (if blank(combined_text(o)) {
                        "Formatted."@
                    } else {
                        combined_text(o)
                    })
                } else {
                    command_outcome(o, tool + " exited with an error"@, r)
                },
            }
        }
}

/// Runs `tool` (as found) with `args` through `run` (see `tool_ran`).
fn run_found_tool<X>(tool: &'static str, found: &ResolvedTool, args: Vec<String>, run: X, formatting: bool) -> (r: Result<String, String>)
    where
        X: Fn(String, Vec<String>) -> Result<CommandOutput, String>,
    requires
        forall|e: String, a: Vec<String>| #[trigger] run.requires((e, a)),
    ensures
        tool_ran(tool@, *found, views(args@), run, formatting, r),
{
    if found.source == RuntimeSource::Missing {
        return Err(tool_missing(tool));
    }
    let ghost av = views(args@);
    let exe = found.executable.clone();
    let out = run(exe, args);
    match out {
        Err(x) => {
            let a = cat3("cannot run ", tool, ": ");
            Err(cat(a.as_str(), x.as_str()))
        },
        Ok(o) => {
            let t = command_text(&o, cat(tool, " exited with an error"));
            if formatting && o.success {
                match t {
                    Ok(text) => Ok(formatted_message(text)),
                    Err(e) => Err(e),
                }
            } else {
                t
            }
        },
    }
}

/// The lower-cased extension of a path (`""` when it has none), as the
/// runner and formatter choices read it.
pub open spec fn ext_key(os: HostOs, path: Seq<char>) -> Seq<char> {
    match extension_of(os, path) {
        Some(e) => lowercase_of(e),
        None => lowercase_of(Seq::empty()),
    }
}

/// The lower-cased extension of a path.
pub fn lowercase_extension(os: HostOs, path: &str) -> (r: String)
    ensures
        r@ == ext_key(os, path@),
        extension_of(os, path@) matches Some(e) ==> (is_ascii_text(e) ==> r@ == e.map_values(|c: char| ascii_lower(c))),
        extension_of(os, path@) is None ==> r@.len() == 0,
{
    match extension(os, path) {
        Some(e) => to_lowercase(e.as_str()),
        None => {
            proof {
                reveal_strlit("");
            }
            assert(""@ =~= Seq::<char>::empty());
            to_lowercase("")
        },
    }
}

/// The tool that runs a file with the given lower-cased extension.
pub open spec fn runner_of(ext: Seq<char>) -> Option<Seq<char>> {
    if ext == "py"@ {
        Some("python"@)
    } else if ext == "js"@ || ext == "jsx"@ || ext == "mjs"@ || ext == "cjs"@ {
        Some("node"@)
    } else if ext == "ts"@ || ext == "tsx"@ {
        Some("tsx"@)
    } else {
        None
    }
}

/// How to run a project file: Python for `.py`, Node.js for `.js`, `.jsx`,
/// `.mjs` and `.cjs`, `tsx` for `.ts` and `.tsx` (the extension of `full`,
/// lower-cased), each given `relative_path`; other files are refused.
pub fn runner_plan(os: HostOs, full: &str, relative_path: &str) -> (r: Result<(&'static str, Vec<String>), String>)
    ensures
        runner_of(ext_key(os, full@)) matches Some(t) ==> (r matches Ok(p) && p.0@ == t && views(p.1@) == seq![
            relative_path@,
        ]),
        runner_of(ext_key(os, full@)) is None ==> (r matches Err(m) && m@ == "No direct runner is configured for ."@
            + ext_key(os, full@) + " files. Use the terminal or a project script."@),
{
    let ext = lowercase_extension(os, full);
    let e = ext.as_str();
    let mut a: Vec<String> = Vec::new();
    a.push(owned(relative_path));
    assert(views(a@) =~= seq![relative_path@]);
    if same_text(e, "py") {
        Ok(("python", a))
    } else if same_text(e, "js") || same_text(e, "jsx") || same_text(e, "mjs") || same_text(e, "cjs") {
        Ok(("node", a))
    } else if same_text(e, "ts") || same_text(e, "tsx") {
        Ok(("tsx", a))
    } else {
        let m = cat3("No direct runner is configured for .", e, " files. Use the terminal or a project script.");
        Err(m)
    }
}

/// Files with this lower-cased extension are formatted by Ruff.
pub open spec fn ruff_formats(ext: Seq<char>) -> bool {
    ext == "py"@
}

/// Files with this lower-cased extension are formatted by Prettier.
pub open spec fn prettier_formats(ext: Seq<char>) -> bool {
    !ruff_formats(ext) && (ext == "js"@ || ext == "jsx"@ || ext == "ts"@ || ext == "tsx"@ || ext == "html"@
        || ext == "css"@ || ext == "json"@ || ext == "md"@)
}

/// How to format a project file: `ruff format <file>` for Python,
/// `prettier --write <file>` for web sources, JSON and Markdown; other files
/// are refused.
pub fn formatter_plan(os: HostOs, full: &str, relative_path: &str) -> (r: Result<(&'static str, Vec<String>), String>)
    ensures
        ruff_formats(ext_key(os, full@)) ==> (r matches Ok(p) && p.0@ == "ruff"@ && views(p.1@) == seq![
            "format"@,
            relative_path@,
        ]),
        prettier_formats(ext_key(os, full@)) ==> (r matches Ok(p) && p.0@ == "prettier"@ && views(p.1@)
            == seq!["--write"@, relative_path@]),
        !ruff_formats(ext_key(os, full@)) && !prettier_formats(ext_key(os, full@)) ==> (r matches Err(m) && m@ == "No formatter is configured for ."@
            + ext_key(os, full@) + " files."@),
{
    let ext = lowercase_extension(os, full);
    let e = ext.as_str();
    if same_text(e, "py") {
        let mut a: Vec<String> = Vec::new();
        a.push(owned("format"));
        a.push(owned(relative_path));
        assert(views(a@) =~= seq!["format"@, relative_path@]);
        Ok(("ruff", a))
    } else if same_text(e, "js") || same_text(e, "jsx") || same_text(e, "ts") || same_text(e, "tsx")
        || same_text(e, "html") || same_text(e, "css") || same_text(e, "json") || same_text(e, "md") {
        let mut a: Vec<String> = Vec::new();
        a.push(owned("--write"));
        a.push(owned(relative_path));
        assert(views(a@) =~= seq!["--write"@, relative_path@]);
        Ok(("prettier", a))
    } else {
        Err(cat3("No formatter is configured for .", e, " files."))
    }
}

/// What the formatter reported, or `Formatted.` when it said nothing.
pub fn formatted_message(output: String) -> (r: String)
    ensures
        blank(output@) ==> r@ == "Formatted."@,
        !blank(output@) ==> r@ == output@,
{
    if is_blank(output.as_str()) {
        owned("Formatted.")
    } else {
        output
    }
}

/// The message of a preview server that could not start.
pub open spec fn preview_start_failure(e: Seq<char>) -> Seq<char> {
    "cannot start preview server: "@ + e
}

/// Starts the static preview: refused without an `index.html`; else Python
/// is looked for with `resolve` (whose error, such as an unknown data root,
/// is returned), refused when missing; else the server
/// `python -m http.server <port> --bind 127.0.0.1` is started by `spawn`
/// (port 0 meaning 4173), and its address `http://127.0.0.1:<port>` is
/// returned, or the start failure.
pub fn start_web_preview<R, S>(has_index: bool, port: u16, resolve: R, spawn: S) -> (r: Result<String, String>)
    where
        R: Fn(&'static str) -> Result<ResolvedTool, String>,
        S: Fn(String, Vec<String>) -> Result<(), String>,
    requires
        forall|t: &'static str| #[trigger] resolve.requires((t,)),
        forall|e: String, a: Vec<String>| #[trigger] spawn.requires((e, a)),
    ensures
        !has_index ==> (r matches Err(m) && m@ == "Static preview requires an index.html in the project root."@),
        has_index ==> exists|tool: &'static str, found: Result<ResolvedTool, String>|
            #![trigger resolve.ensures((tool,), found)]
            {
                &&& tool@ == "python"@
                &&& resolve.ensures((tool,), found)
                &&& found matches Err(e) ==> r == Err::<String, String>(e)
                &&& found matches Ok(f) ==> (f.source == RuntimeSource::Missing ==> (r matches Err(m) && m@
                    == "Python was not found in the KDev runtime or on the host PATH; it is required for the built-in static preview server."@))
                &&& found matches Ok(f) ==> (f.source != RuntimeSource::Missing ==> exists|e: String, a: Vec<String>, out: Result<(), String>|
                    #![trigger spawn.ensures((e, a), out)]
                    {
                        &&& e@ == f.executable@
                        &&& views(a@) == seq!["-m"@, "http.server"@, decimal(preview_port_of(port) as nat), "--bind"@, "127.0.0.1"@]
                        &&& spawn.ensures((e, a), out)
                        &&& out matches Err(x) ==> (r matches Err(m) && m@ == preview_start_failure(x@))
                        &&& out is Ok ==> (r matches Ok(u) && u@ == "http://127.0.0.1:"@ + decimal(preview_port_of(port) as nat))
                    })
            },
{
    if !has_index {
        return Err(owned("Static preview requires an index.html in the project root."));
    }
    let found = resolve("python");
    let f = match found {
        Err(e) => return Err(e),
        Ok(f) => f,
    };
    let (p, args) = preview_plan(true, f.source, port)?;
    let exe = f.executable.clone();
    let out = spawn(exe, args);
    match out {
        Err(x) => Err(cat("cannot start preview server: ", x.as_str())),
        Ok(_) => Ok(preview_url(p)),
    }
}

/// Runs a project file (`full` is its path, `is_file` whether it is a
/// file): refused when it is not a file or has no runner; else the runner
/// (`python`, `node` or `tsx`) is looked for with `resolve` (whose error is
/// returned) and run on the relative path (see `tool_ran`).
pub fn run_project_file<R, X>(os: HostOs, full: &str, relative_path: &str, is_file: bool, resolve: R, run: X) -> (r: Result<String, String>)
    where
        R: Fn(&'static str) -> Result<ResolvedTool, String>,
        X: Fn(String, Vec<String>) -> Result<CommandOutput, String>,
    requires
        forall|t: &'static str| #[trigger] resolve.requires((t,)),
        forall|e: String, a: Vec<String>| #[trigger] run.requires((e, a)),
    ensures
        !is_file ==> (r matches Err(m) && m@ == "file not found"@),
        is_file && runner_of(ext_key(os, full@)) is None ==> (r matches Err(m) && m@
            == "No direct runner is configured for ."@ + ext_key(os, full@) + " files. Use the terminal or a project script."@),
        is_file ==> (runner_of(ext_key(os, full@)) matches Some(t) ==> exists|tool: &'static str, found: Result<ResolvedTool, String>|
            #![trigger resolve.ensures((tool,), found)]
            {
                &&& tool@ == t
                &&& resolve.ensures((tool,), found)
                &&& found matches Err(e) ==> r == Err::<String, String>(e)
                &&& found matches Ok(f) ==> tool_ran(t, f, seq![relative_path@], run, false, r)
            }),
{
    if !is_file {
        return Err(owned("file not found"));
    }
    let (tool, args) = runner_plan(os, full, relative_path)?;
    let found = resolve(tool);
    match found {
        Err(e) => Err(e),
        Ok(f) => run_found_tool(tool, &f, args, run, false),
    }
}

/// Formats a project file: refused when it is not a file or has no
/// formatter; else `ruff format` (Python) or `prettier --write` is looked
/// for with `resolve` (whose error is returned) and run on the relative
/// path (see `tool_ran`); blank output reads `Formatted.`.
pub fn format_project_file<R, X>(os: HostOs, full: &str, relative_path: &str, is_file: bool, resolve: R, run: X) -> (r: Result<String, String>)
    where
        R: Fn(&'static str) -> Result<ResolvedTool, String>,
        X: Fn(String, Vec<String>) -> Result<CommandOutput, String>,
    requires
        forall|t: &'static str| #[trigger] resolve.requires((t,)),
        forall|e: String, a: Vec<String>| #[trigger] run.requires((e, a)),
    ensures
        !is_file ==> (r matches Err(m) && m@ == "file not found"@),
        is_file && !ruff_formats(ext_key(os, full@)) && !prettier_formats(ext_key(os, full@)) ==> (r matches Err(m)
            && m@ == "No formatter is configured for ."@ + ext_key(os, full@) + " files."@),
        is_file && ruff_formats(ext_key(os, full@)) ==> exists|tool: &'static str, found: Result<ResolvedTool, String>|
            #![trigger resolve.ensures((tool,), found)]
            {
                &&& tool@ == "ruff"@
                &&& resolve.ensures((tool,), found)
                &&& found matches Err(e) ==> r == Err::<String, String>(e)
                &&& found matches Ok(f) ==> tool_ran(tool@, f, seq!["format"@, relative_path@], run, true, r)
            },
        is_file && prettier_formats(ext_key(os, full@)) ==> exists|tool: &'static str, found: Result<ResolvedTool, String>|
            #![trigger resolve.ensures((tool,), found)]
            {
                &&& tool@ == "prettier"@
                &&& resolve.ensures((tool,), found)
                &&& found matches Err(e) ==> r == Err::<String, String>(e)
                &&& found matches Ok(f) ==> tool_ran(tool@, f, seq!["--write"@, relative_path@], run, true, r)
            },
{
    if !is_file {
        return Err(owned("file not found"));
    }
    let (tool, args) = formatter_plan(os, full, relative_path)?;
    let found = resolve(tool);
    match found {
        Err(e) => Err(e),
        Ok(f) => run_found_tool(tool, &f, args, run, true),
    }
}

/// The runner table: `.py` files run with `python`; `.js`, `.jsx`, `.mjs`
/// and `.cjs` files with `node`; `.ts` and `.tsx` files with `tsx`; no other
/// extension has a runner. So `runner_plan` hands every TypeScript file to
/// `tsx`.
pub proof fn law_runner_table(ext: Seq<char>)
    ensures
        ext == "py"@ ==> runner_of(ext) == Some("python"@),
        ext == "js"@ ==> runner_of(ext) == Some("node"@),
        ext == "jsx"@ ==> runner_of(ext) == Some("node"@),
        ext == "mjs"@ ==> runner_of(ext) == Some("node"@),
        ext == "cjs"@ ==> runner_of(ext) == Some("node"@),
        ext == "ts"@ ==> runner_of(ext) == Some("tsx"@),
        ext == "tsx"@ ==> runner_of(ext) == Some("tsx"@),
        ext != "py"@ && ext != "js"@ && ext != "jsx"@ && ext != "mjs"@ && ext != "cjs"@ && ext != "ts"@ && ext
            != "tsx"@ ==> runner_of(ext) is None,
{
    reveal_strlit("py");
    reveal_strlit("js");
    reveal_strlit("jsx");
    reveal_strlit("mjs");
    reveal_strlit("cjs");
    reveal_strlit("ts");
    reveal_strlit("tsx");
    assert("py"@.len() == 2 && "py"@[0] == 'p');
    assert("js"@.len() == 2 && "js"@[0] == 'j');
    assert("jsx"@.len() == 3 && "jsx"@[0] == 'j');
    assert("mjs"@.len() == 3 && "mjs"@[0] == 'm');
    assert("cjs"@.len() == 3 && "cjs"@[0] == 'c');
    assert("ts"@.len() == 2 && "ts"@[0] == 't');
    assert("tsx"@.len() == 3 && "tsx"@[0] == 't');
    reveal_strlit("python");
    reveal_strlit("node");
}

/// The formatter table: `.py` files are formatted by Ruff; `.js`, `.jsx`,
/// `.ts`, `.tsx`, `.html`, `.css`, `.json` and `.md` files by Prettier; no
/// other extension has a formatter, and no extension has two.
pub proof fn law_formatter_table(ext: Seq<char>)
    ensures
        ext == "py"@ ==> ruff_formats(ext) && !prettier_formats(ext),
        (ext == "js"@ || ext == "jsx"@ || ext == "ts"@ || ext == "tsx"@ || ext == "html"@ || ext == "css"@
            || ext == "json"@ || ext == "md"@) ==> prettier_formats(ext) && !ruff_formats(ext),
        (ext != "py"@ && ext != "js"@ && ext != "jsx"@ && ext != "ts"@ && ext != "tsx"@ && ext != "html"@ && ext
            != "css"@ && ext != "json"@ && ext != "md"@) ==> !ruff_formats(ext) && !prettier_formats(ext),
{
    reveal_strlit("py");
    reveal_strlit("js");
    reveal_strlit("jsx");
    reveal_strlit("ts");
    reveal_strlit("tsx");
    reveal_strlit("html");
    reveal_strlit("css");
    reveal_strlit("json");
    reveal_strlit("md");
    assert("py"@.len() == 2 && "py"@[0] == 'p');
    assert("js"@.len() == 2 && "js"@[0] == 'j');
    assert("jsx"@.len() == 3 && "jsx"@[0] == 'j');
    assert("ts"@.len() == 2 && "ts"@[0] == 't');
    assert("tsx"@.len() == 3 && "tsx"@[0] == 't');
    assert("html"@.len() == 4 && "html"@[0] == 'h');
    assert("css"@.len() == 3 && "css"@[0] == 'c');
    assert("json"@.len() == 4 && "json"@[0] == 'j');
    assert("md"@.len() == 2 && "md"@[0] == 'm');
}

} // verus!
