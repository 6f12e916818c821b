use kdev::debugger::{
    check_debug_target, check_python_script, debug_launch, debug_python_command, debug_script_path, debugger_capability, source_label,
};
use kdev::git::{commit_plan, git_commit, git_push, git_result, git_stage_args, git_status};
use kdev::process::{command_text, CommandOutput};
use kdev::project_tools::{
    install_project_dependencies, dependency_install_plan, dependency_install_result, formatted_message, format_project_file,
    formatter_plan, lowercase_extension, preview_plan, preview_url, project_info, run_project_file, runner_plan, tool_missing,
    start_web_preview, installer_executable,
};
use kdev::runtime::{
    bundled_candidate_paths, doctor_tools, bundled_executable, platform_subdirs, resolve_tool, runtime_roots, tool_status,
    version_args, HostOs, Platform, ResolvedTool, RuntimeSource, VersionProbe,
};

fn s(x: &str) -> String {
    x.to_string()
}

fn strs(v: &[&str]) -> Vec<String> {
    v.iter().map(|x| x.to_string()).collect()
}

fn out(success: bool, stdout: &str, stderr: &str) -> CommandOutput {
    CommandOutput { success, stdout: s(stdout), stderr: s(stderr) }
}

#[test]
fn runtime_sources_and_resolution() {
    assert_eq!(RuntimeSource::Bundled.label(), "KDev bundled runtime");
    assert_eq!(RuntimeSource::Host.label(), "Host system");
    assert_eq!(RuntimeSource::Missing.label(), "KDev runtime not installed");
    let r = resolve_tool("git", Some(s("/r/linux-x64/bin/git")), true);
    assert_eq!((r.executable.as_str(), r.source), ("/r/linux-x64/bin/git", RuntimeSource::Bundled));
    let r = resolve_tool("git", None, true);
    assert_eq!((r.executable.as_str(), r.source), ("git", RuntimeSource::Host));
    let r = resolve_tool("git", None, false);
    assert_eq!((r.executable.as_str(), r.source), ("git", RuntimeSource::Missing));
}

#[test]
fn bundled_search_order() {
    let win = Platform { os: HostOs::Windows, aarch64: false };
    assert_eq!(platform_subdirs(win), vec!["windows-x64", "windows-arm64"]);
    assert_eq!(platform_subdirs(Platform { os: HostOs::MacOs, aarch64: true }), vec!["macos-arm64", "macos-x64"]);
    assert_eq!(platform_subdirs(Platform { os: HostOs::MacOs, aarch64: false }), vec!["macos-x64"]);
    assert_eq!(platform_subdirs(Platform { os: HostOs::Other, aarch64: true }), vec!["linux-arm64"]);
    let roots = runtime_roots(HostOs::Other, Some(s("/res")), None, "/k");
    assert_eq!(roots, strs(&["/res/runtime", "/k/runtime"]));
    let wroots = runtime_roots(HostOs::Windows, Some(s("C:\\res")), None, "D:\\k");
    assert_eq!(wroots, strs(&["C:\\res\\runtime", "D:\\k\\runtime"]));
    let c = bundled_candidate_paths(&wroots, win, "node");
    assert_eq!(
        c,
        strs(&[
            "C:\\res\\runtime\\windows-x64\\bin\\node.exe",
            "C:\\res\\runtime\\windows-arm64\\bin\\node.exe",
            "C:\\res\\runtime\\bin\\node.exe",
            "D:\\k\\runtime\\windows-x64\\bin\\node.exe",
            "D:\\k\\runtime\\windows-arm64\\bin\\node.exe",
            "D:\\k\\runtime\\bin\\node.exe",
        ])
    );
    let linux = bundled_candidate_paths(&strs(&["/k/runtime"]), Platform { os: HostOs::Other, aarch64: false }, "git");
    assert_eq!(linux, strs(&["/k/runtime/linux-x64/bin/git", "/k/runtime/bin/git"]));
    assert_eq!(bundled_executable(&c, &vec![false, false, true, true, false, false]), Some(s("C:\\res\\runtime\\bin\\node.exe")));
    assert_eq!(bundled_executable(&c, &vec![false; 6]), None);
}

#[test]
fn doctor_lines() {
    let tools = doctor_tools();
    assert_eq!(tools.iter().map(|t| t.0).collect::<Vec<_>>(), vec!["python", "node", "npm", "git", "ruff", "prettier"]);
    assert_eq!(tools[1].1, "Node.js");
    assert_eq!(version_args(), vec!["--version"]);
    let missing = resolve_tool("ruff", None, false);
    let t = tool_status("ruff", "Ruff", &missing, |_: String| -> VersionProbe { panic!("a missing tool is not probed") });
    assert!(!t.ready);
    assert_eq!(t.detail, "Ruff was not found in the KDev runtime directory or on the host PATH.");
    assert_eq!(t.source_label, "KDev runtime not installed");
    let host = resolve_tool("node", None, true);
    let t = tool_status("node", "Node.js", &host, |_: String| VersionProbe::Exited { success: true, stdout: s("v22.1.0\n"), stderr: s("") });
    assert!(t.ready);
    assert_eq!((t.detail.as_str(), t.source_label.as_str()), ("v22.1.0", "Host system"));
    let t = tool_status("python", "Python", &host, |_: String| VersionProbe::Exited { success: true, stdout: s(" "), stderr: s("Python 2.7\n") });
    assert_eq!(t.detail, "Python 2.7");
    let t = tool_status("python", "Python", &host, |_: String| VersionProbe::Exited { success: true, stdout: s(""), stderr: s("") });
    assert_eq!(t.detail, "Ready");
    let t = tool_status("npm", "npm", &host, |_: String| VersionProbe::Exited { success: false, stdout: s(""), stderr: s("") });
    assert!(!t.ready);
    assert_eq!(t.source_label, "Host system (not responding)");
    assert_eq!(t.detail, "The tool did not report a version.");
    let t = tool_status("npm", "npm", &host, |_: String| VersionProbe::NotStarted(s("No such file")));
    assert_eq!((t.source, t.detail.as_str()), (RuntimeSource::Missing, "No such file"));
}

#[test]
fn git_status_reports() {
    let g = git_status(RuntimeSource::Missing, None, None);
    assert!(!g.available);
    assert_eq!(g.message, "Git was not found in the KDev runtime or on the host PATH.");
    let g = git_status(RuntimeSource::Host, Some(out(true, "main\n", "")), Some(out(true, " M a.py\n?? b.txt\n\n", "")));
    assert!(g.available);
    assert_eq!(g.branch, "main");
    assert_eq!(g.changed, strs(&[" M a.py", "?? b.txt"]));
    assert_eq!(g.source, "Host system");
    let g = git_status(RuntimeSource::Bundled, Some(out(true, "\n", "")), Some(out(true, "", "")));
    assert_eq!(g.branch, "(detached/no branch)");
    let g = git_status(RuntimeSource::Host, Some(out(false, "", "fatal")), Some(out(true, "", "")));
    assert!(!g.available);
    assert_eq!(g.message, "Git is available, but this workspace is not a Git repository.");
}

#[test]
fn git_commands() {
    assert_eq!(commit_plan("  fix: tests \n"), Ok((strs(&["add", "-A"]), strs(&["commit", "-m", "fix: tests"]))));
    assert_eq!(commit_plan(" \n "), Err(s("A commit message is required.")));
    let ran = std::cell::RefCell::new(Vec::new());
    let git = |d: String, a: Vec<String>| -> Result<String, String> {
        ran.borrow_mut().push((d, a.clone()));
        if a[0] == "add" { Ok(s("")) } else { Ok(s("[main 1a2b3c] fix: tests")) }
    };
    let cwd: Result<String, String> = Ok(s("/k/workspace/projects/web"));
    assert_eq!(git_commit("  fix: tests \n", &cwd, git), Ok(s("[main 1a2b3c] fix: tests")));
    assert_eq!(
        ran.borrow().clone(),
        vec![(s("/k/workspace/projects/web"), strs(&["add", "-A"])), (s("/k/workspace/projects/web"), strs(&["commit", "-m", "fix: tests"]))]
    );
    ran.borrow_mut().clear();
    assert_eq!(git_commit(" \n ", &cwd, git), Err(s("A commit message is required.")));
    assert_eq!(git_commit("msg", &Err(s("no root")), git), Err(s("no root")));
    assert!(ran.borrow().is_empty());
    let add_fails = |d: String, a: Vec<String>| -> Result<String, String> {
        ran.borrow_mut().push((d, a));
        Err(s("fatal: not a git repository"))
    };
    assert_eq!(git_commit("msg", &cwd, add_fails), Err(s("fatal: not a git repository")));
    assert_eq!(ran.borrow().len(), 1);
    assert_eq!(git_push(), strs(&["push"]));
    let args = git_stage_args();
    let missing = resolve_tool("git", None, false);
    let host = resolve_tool("git", None, true);
    let never = |_: String, _: Vec<String>| -> Result<CommandOutput, String> { panic!("git is missing") };
    assert_eq!(git_result(&missing, &args, never), Err(s("Git was not found in the KDev runtime or on the host PATH.")));
    assert_eq!(git_result(&host, &args, |_: String, _: Vec<String>| Err(s("denied"))), Err(s("failed to run git: denied")));
    assert_eq!(git_result(&host, &args, |_: String, _: Vec<String>| Ok(out(false, "", ""))), Err(s("git add -A failed")));
    assert_eq!(git_result(&host, &args, |_: String, _: Vec<String>| Ok(out(false, "", "error: x\n"))), Err(s("error: x\n")));
    let seen = std::cell::RefCell::new(Vec::new());
    let r = git_result(&host, &args, |e: String, a: Vec<String>| {
        seen.borrow_mut().push((e, a));
        Ok(out(true, "done\n", ""))
    });
    assert_eq!(r, Ok(s("done\n")));
    assert_eq!(seen.into_inner(), vec![(s("git"), strs(&["add", "-A"]))]);
    assert_eq!(command_text(&out(true, "a", "b"), s("z")), Ok(s("ab")));
}

#[test]
fn project_tooling() {
    let i = project_info(Some(s("{\"scripts\": {\"dev\": \"vite\", \"build\": \"vite build\"}}")), true, false, false, true);
    assert_eq!(i.scripts, strs(&["build", "dev"]));
    assert!(i.has_package_json && i.has_git && !i.has_requirements);
    assert!(project_info(Some(s("{broken")), true, false, false, false).scripts.is_empty());
    assert!(project_info(None, false, false, false, false).scripts.is_empty());
    assert_eq!(dependency_install_plan(true, true).unwrap(), ("npm", vec!["install"]));
    assert_eq!(dependency_install_plan(false, true).unwrap(), ("python", vec!["-m", "pip", "install", "-r", "requirements.txt"]));
    assert_eq!(dependency_install_plan(false, false).unwrap_err(), "No package.json or requirements.txt found in this project.");
    let found = |t: &'static str| resolve_tool(t, Some(format!("/k/runtime/bin/{t}")), false);
    let ran = std::cell::RefCell::new(Vec::new());
    let r = install_project_dependencies(false, true, found, |e: String, a: Vec<String>| {
        ran.borrow_mut().push((e, a));
        Ok(out(true, "installed", ""))
    });
    assert_eq!(r, Ok(s("installed")));
    assert_eq!(ran.into_inner(), vec![(s("/k/runtime/bin/python"), strs(&["-m", "pip", "install", "-r", "requirements.txt"]))]);
    let r = install_project_dependencies(true, false, found, |_: String, _: Vec<String>| Ok(out(false, "npm ERR", "!")));
    assert_eq!(r, Err(s("npm ERR!")));
    let missing = |t: &'static str| resolve_tool(t, None, false);
    let never = |_: String, _: Vec<String>| -> Result<CommandOutput, String> { panic!("nothing runs") };
    assert_eq!(install_project_dependencies(true, false, missing, never), Err(s("npm was not found in the KDev runtime or on the host PATH.")));
    assert_eq!(
        install_project_dependencies(false, false, missing, never),
        Err(s("No package.json or requirements.txt found in this project."))
    );
    assert_eq!(
        install_project_dependencies(true, false, found, |_: String, _: Vec<String>| Err(s("denied"))),
        Err(s("cannot start dependency manager: denied"))
    );
    assert_eq!(dependency_install_result(Err(s("x"))), Err(s("cannot start dependency manager: x")));
    assert_eq!(dependency_install_result(Ok(out(false, "", ""))), Err(s("")));
    assert_eq!(dependency_install_result(Ok(out(true, "added 3", " warn"))), Ok(s("added 3 warn")));
    assert_eq!(tool_missing("tsx"), "tsx was not found in the KDev runtime or on the host PATH.");
}

#[test]
fn web_preview() {
    let host = |t: &'static str| -> Result<ResolvedTool, String> { Ok(resolve_tool(t, None, true)) };
    let spawned = std::cell::RefCell::new(Vec::new());
    let spawn = |e: String, a: Vec<String>| -> Result<(), String> {
        spawned.borrow_mut().push((e, a));
        Ok(())
    };
    assert_eq!(start_web_preview(false, 0, host, spawn).unwrap_err(), "Static preview requires an index.html in the project root.");
    assert_eq!(start_web_preview(true, 0, host, spawn), Ok(s("http://127.0.0.1:4173")));
    assert_eq!(start_web_preview(true, 8080, host, spawn), Ok(s("http://127.0.0.1:8080")));
    assert_eq!(spawned.borrow()[0], (s("python"), strs(&["-m", "http.server", "4173", "--bind", "127.0.0.1"])));
    assert_eq!(spawned.borrow().len(), 2);
    let missing = |t: &'static str| -> Result<ResolvedTool, String> { Ok(resolve_tool(t, None, false)) };
    assert!(start_web_preview(true, 0, missing, spawn).unwrap_err().starts_with("Python was not found"));
    let no_root = |_: &'static str| -> Result<ResolvedTool, String> { Err(s("no root")) };
    assert_eq!(start_web_preview(true, 0, no_root, spawn), Err(s("no root")));
    let fails = |_: String, _: Vec<String>| -> Result<(), String> { Err(s("busy")) };
    assert_eq!(start_web_preview(true, 0, host, fails), Err(s("cannot start preview server: busy")));
    let (port, args) = preview_plan(true, RuntimeSource::Bundled, 0).unwrap();
    assert_eq!(port, 4173);
    assert_eq!(args, strs(&["-m", "http.server", "4173", "--bind", "127.0.0.1"]));
    assert_eq!(preview_url(4173), "http://127.0.0.1:4173");
}

#[test]
fn running_and_formatting_files() {
    let u = HostOs::Other;
    assert_eq!(lowercase_extension(u, "/p/src/App.TSX"), "tsx");
    assert_eq!(lowercase_extension(u, "/p/Makefile"), "");
    assert_eq!(lowercase_extension(u, "/p/Ünï.ÄBC"), "äbc");
    assert_eq!(lowercase_extension(HostOs::Windows, "C:\\p\\a.PY"), "py");
    assert_eq!(runner_plan(u, "/p/main.PY", "main.PY").unwrap(), ("python", strs(&["main.PY"])));
    assert_eq!(runner_plan(u, "/p/a.mjs", "a.mjs").unwrap().0, "node");
    assert_eq!(runner_plan(u, "/p/a.ts", "a.ts").unwrap().0, "tsx");
    assert_eq!(formatter_plan(u, "/p/a.py", "a.py").unwrap(), ("ruff", strs(&["format", "a.py"])));
    assert_eq!(formatter_plan(u, "/p/README.md", "README.md").unwrap(), ("prettier", strs(&["--write", "README.md"])));
    assert_eq!(formatted_message(s("")), "Formatted.");
    assert_eq!(formatted_message(s("a.py reformatted")), "a.py reformatted");
    let host = |t: &'static str| -> Result<ResolvedTool, String> { Ok(resolve_tool(t, None, true)) };
    let missing = |t: &'static str| -> Result<ResolvedTool, String> { Ok(resolve_tool(t, None, false)) };
    let never = |_: String, _: Vec<String>| -> Result<CommandOutput, String> { panic!("nothing runs") };
    let ran = std::cell::RefCell::new(Vec::new());
    let r = run_project_file(u, "/p/main.PY", "main.PY", true, host, |e: String, a: Vec<String>| {
        ran.borrow_mut().push((e, a));
        Ok(out(true, "hi\n", ""))
    });
    assert_eq!(r, Ok(s("hi\n")));
    assert_eq!(ran.into_inner(), vec![(s("python"), strs(&["main.PY"]))]);
    assert_eq!(run_project_file(u, "/p/a.py", "a.py", false, host, never), Err(s("file not found")));
    assert_eq!(
        run_project_file(u, "/p/a.rb", "a.rb", true, host, never),
        Err(s("No direct runner is configured for .rb files. Use the terminal or a project script."))
    );
    assert_eq!(run_project_file(u, "/p/a.ts", "a.ts", true, missing, never), Err(s("tsx was not found in the KDev runtime or on the host PATH.")));
    assert_eq!(
        run_project_file(u, "/p/a.js", "a.js", true, host, |_: String, _: Vec<String>| Err(s("denied"))),
        Err(s("cannot run node: denied"))
    );
    assert_eq!(
        run_project_file(u, "/p/a.js", "a.js", true, host, |_: String, _: Vec<String>| Ok(out(false, " ", ""))),
        Err(s("node exited with an error"))
    );
    assert_eq!(
        format_project_file(u, "/p/a.py", "a.py", true, host, |_: String, _: Vec<String>| Ok(out(true, " \n", ""))),
        Ok(s("Formatted."))
    );
    assert_eq!(
        format_project_file(u, "/p/README.md", "README.md", true, host, |_: String, _: Vec<String>| Ok(out(true, "README.md 5ms", ""))),
        Ok(s("README.md 5ms"))
    );
    assert_eq!(format_project_file(u, "/p/x", "x", true, host, never), Err(s("No formatter is configured for . files.")));
    assert_eq!(format_project_file(u, "/p/a.py", "a.py", false, host, never), Err(s("file not found")));
}

#[test]
fn debugger_support() {
    assert_eq!(source_label(RuntimeSource::Missing), "Not available");
    let c = debugger_capability(RuntimeSource::Host, true, RuntimeSource::Missing, true);
    assert!(c.python && !c.javascript && !c.typescript);
    assert_eq!(c.python_source, "Host system");
    assert_eq!(c.javascript_source, "Not available");
    assert_eq!(check_debug_target("web", "src/app.py"), Ok(()));
    for (p, f) in [("", "a.py"), ("a/b", "a.py"), ("a\\b", "a.py"), ("web", "../x.py")] {
        assert_eq!(check_debug_target(p, f), Err(s("invalid project or file path")));
    }
    let u = HostOs::Other;
    assert_eq!(debug_script_path(u, "/k", "web", "main.py"), "/k/workspace/projects/web/main.py");
    assert_eq!(check_python_script(u, "/k/a.py", true), Ok(()));
    assert_eq!(check_python_script(u, "/k/a.py", false), Err(s("Python source file not found")));
    assert_eq!(check_python_script(u, "/k/a.js", true), Err(s("Python source file not found")));
    assert_eq!(
        debug_launch(RuntimeSource::Host, "python", "/k/a.py"),
        Ok(s("python -m debugpy --listen 127.0.0.1:5678 --wait-for-client \"/k/a.py\""))
    );
    let root: Result<String, String> = Ok(s("/k"));
    let host = |t: &'static str| resolve_tool(t, None, true);
    let missing = |t: &'static str| resolve_tool(t, None, false);
    let exists = |p: String| p == "/k/workspace/projects/web/main.py";
    assert_eq!(
        debug_python_command(u, &root, "web", "main.py", exists, host),
        Ok(s("python -m debugpy --listen 127.0.0.1:5678 --wait-for-client \"/k/workspace/projects/web/main.py\""))
    );
    assert_eq!(debug_python_command(u, &root, "web", "other.py", exists, host), Err(s("Python source file not found")));
    assert_eq!(debug_python_command(u, &root, "a/b", "main.py", exists, host), Err(s("invalid project or file path")));
    assert_eq!(debug_python_command(u, &root, "web", "../main.py", exists, host), Err(s("invalid project or file path")));
    assert_eq!(debug_python_command(u, &Err(s("no root")), "web", "main.py", exists, host), Err(s("no root")));
    assert_eq!(
        debug_python_command(u, &root, "web", "main.py", exists, missing),
        Err(s("Python was not found in the KDev runtime or on the host PATH."))
    );
}

#[test]
fn the_installer_must_be_found() {
    let missing = resolve_tool("npm", None, false);
    assert_eq!(
        installer_executable("npm", &missing),
        Err("npm was not found in the KDev runtime or on the host PATH.".to_string())
    );
    let host = resolve_tool("npm", None, true);
    assert_eq!(installer_executable("npm", &host), Ok("npm".to_string()));
    let bundled = resolve_tool("python", Some("/k/runtime/bin/python".to_string()), false);
    assert_eq!(installer_executable("python", &bundled), Ok("/k/runtime/bin/python".to_string()));
    assert_eq!(lowercase_extension(HostOs::Other, "src/Main.PY"), "py");
}
