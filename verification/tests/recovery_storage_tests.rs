use kdev::extensions::{extension_dirs, list_extensions, set_extension_enabled, state_path, ExtensionState};
use kdev::recovery::{
    check_snapshot_path, project_name_of_dir, save_recovery_snapshot, recovery_content, safe_suffix, shown_path, snapshot_entry, snapshot_envelope,
    snapshot_file_name, snapshot_file_suffix, snapshot_scope, snapshots_to_prune, list_recovery_snapshots, sort_newest_first, RecoverySnapshot,
    SnapshotFile, SNAPSHOTS_KEPT,
};
use kdev::runtime::HostOs;
use kdev::security::WorkspaceLock;

const UNIX: HostOs = HostOs::Other;
const WIN: HostOs = HostOs::Windows;
const LOCKED: &str = "KDev is locked. Unlock with your master password first.";
use kdev::storage::{df_failure, filesystem_used, parse_df_output, storage_snapshot, workspace_usage};

fn s(x: &str) -> String {
    x.to_string()
}

fn strs(v: &[&str]) -> Vec<String> {
    v.iter().map(|x| x.to_string()).collect()
}

#[test]
fn snapshot_names() {
    assert_eq!(safe_suffix("src/app main.py"), "src_app_main.py");
    assert_eq!(safe_suffix(&safe_suffix("a/b\\c d")), safe_suffix("a/b\\c d"));
    assert_eq!(snapshot_file_name(1700000000, "src/main.py"), "1700000000-src_main.py.json");
    assert!(snapshot_file_name(5, "x/y").ends_with(&snapshot_file_suffix("x/y")));
    let unlocked = WorkspaceLock::new();
    let plan = save_recovery_snapshot(UNIX, &Ok(false), &unlocked, &Ok(s("/k")), "p", 9, s("a b"), s("body")).unwrap();
    assert_eq!(plan.dir, "/k/workspace/projects/p/.kdev/recovery");
    assert_eq!(plan.path, "/k/workspace/projects/p/.kdev/recovery/9-a_b.json");
    assert_eq!(plan.shown, plan.path);
    assert_eq!((plan.envelope.relative_path.as_str(), plan.envelope.content.as_str(), plan.envelope.saved_at), ("a b", "body", 9));
    let locked = save_recovery_snapshot(UNIX, &Ok(true), &unlocked, &Ok(s("/k")), "p", 9, s("a"), s("b"));
    assert_eq!(locked.err(), Some(s(LOCKED)));
    let bad = save_recovery_snapshot(UNIX, &Ok(false), &unlocked, &Ok(s("/k")), "a/b", 9, s("a"), s("b"));
    assert_eq!(bad.err(), Some(s("invalid project name")));
    let wplan = save_recovery_snapshot(WIN, &Ok(false), &unlocked, &Ok(s("C:\\k")), "p", 9, s("a"), s("b")).unwrap();
    assert_eq!(wplan.path, "C:\\k\\workspace/projects\\p\\.kdev\\recovery\\9-a.json");
    assert_eq!(wplan.shown, "C:/k/workspace/projects/p/.kdev/recovery/9-a.json");
    assert_eq!(safe_suffix("é:ü"), "é_ü");
    assert_eq!(shown_path("C:\\k\\r\\1-a.json"), "C:/k/r/1-a.json");
}

#[test]
fn pruning_keeps_the_newest_five() {
    let names = strs(&[
        "105-a.py.json", "101-a.py.json", "103-a.py.json", "100-b.py.json", "102-a.py.json", "106-a.py.json",
        "104-a.py.json", "notes.txt",
    ]);
    assert_eq!(SNAPSHOTS_KEPT, 5);
    assert_eq!(snapshots_to_prune(names.clone(), "a.py", SNAPSHOTS_KEPT), strs(&["101-a.py.json"]));
    assert_eq!(snapshots_to_prune(names.clone(), "a.py", 2), strs(&["101-a.py.json", "102-a.py.json", "103-a.py.json", "104-a.py.json"]));
    assert!(snapshots_to_prune(names, "b.py", SNAPSHOTS_KEPT).is_empty());
}

#[test]
fn pruning_keeps_each_source_file_apart() {
    let names = strs(&[
        "100-b.py.json", "101-b.py.json", "102-b.py.json",
        "100-x-b.py.json", "101-x-b.py.json", "102-x-b.py.json",
    ]);
    assert!(snapshots_to_prune(names.clone(), "b.py", SNAPSHOTS_KEPT).is_empty());
    assert!(snapshots_to_prune(names.clone(), "x-b.py", SNAPSHOTS_KEPT).is_empty());
    assert_eq!(snapshots_to_prune(names.clone(), "b.py", 2), strs(&["100-b.py.json"]));
    assert_eq!(snapshots_to_prune(names, "x-b.py", 1), strs(&["100-x-b.py.json", "101-x-b.py.json"]));
    assert!(snapshots_to_prune(strs(&["-b.py.json", "1a-b.py.json"]), "b.py", 0).is_empty());
}

#[test]
fn a_saved_snapshot_reads_back() {
    let unlocked = WorkspaceLock::new();
    let plan = save_recovery_snapshot(UNIX, &Ok(false), &unlocked, &Ok(s("/k")), "web", 1700000000, s("src/a b/main.py"), s("print(1)")).unwrap();
    let saved = plan.path.clone();
    assert_eq!(saved, "/k/workspace/projects/web/.kdev/recovery/1700000000-src_a_b_main.py.json");
    assert_eq!(check_snapshot_path(UNIX, "/k", &saved), Ok(()));
    let c = recovery_content(UNIX, &saved, plan.envelope);
    assert_eq!(c.project, "web");
    assert_eq!(c.relative_path, "src/a b/main.py");
    assert_eq!(c.content, "print(1)");
    assert_eq!(c.saved_at, 1700000000);
    assert_eq!(safe_suffix("a\\b/c"), "a_b_c");
    // on Windows: saved under a drive root, read back in the canonical (verbatim) form
    let wplan = save_recovery_snapshot(WIN, &Ok(false), &unlocked, &Ok(s("C:\\k")), "web", 7, s("a.py"), s("x")).unwrap();
    assert_eq!(check_snapshot_path(WIN, "C:\\k", &wplan.path), Ok(()));
    let canonical = "\\\\?\\C:\\k\\workspace\\projects\\web\\.kdev\\recovery\\7-a.py.json";
    assert_eq!(check_snapshot_path(WIN, "\\\\?\\C:\\k", canonical), Ok(()));
    assert_eq!(recovery_content(WIN, canonical, wplan.envelope).project, "web");
}

fn snap(project: &str, path: &str, t: u64) -> RecoverySnapshot {
    RecoverySnapshot { project: s(project), relative_path: s(path), snapshot_path: s(""), size: 1, saved_at: t }
}

#[test]
fn listing_is_newest_first_and_stable() {
    let v = vec![snap("a", "1", 10), snap("a", "2", 30), snap("b", "3", 10), snap("b", "4", 20), snap("c", "5", 30)];
    let r = sort_newest_first(v);
    let order: Vec<&str> = r.iter().map(|x| x.relative_path.as_str()).collect();
    assert_eq!(order, vec!["2", "5", "4", "1", "3"]);
}

#[test]
fn listing_scope_and_entries() {
    assert_eq!(snapshot_scope(None), Ok(None));
    assert_eq!(snapshot_scope(Some(s(""))), Ok(None));
    assert_eq!(snapshot_scope(Some(s("web"))), Ok(Some(s("web"))));
    assert_eq!(snapshot_scope(Some(s(".."))), Err(s("invalid project name")));
    assert_eq!(project_name_of_dir(UNIX, "/k/workspace/projects/web"), "web");
    assert_eq!(project_name_of_dir(UNIX, "/"), "");
    assert_eq!(project_name_of_dir(WIN, "C:\\k\\workspace\\projects\\web"), "web");
    let file = |dir: &str, path: &str, t: Option<u64>, size: u64| SnapshotFile {
        project_dir: s(dir),
        path: s(path),
        envelope: t.map(|t| snapshot_envelope(s("src/a.py"), s("c"), t)),
        size,
    };
    let files = vec![
        file("/k/workspace/projects/web", "/k/workspace/projects/web/.kdev/recovery/1-a.json", Some(1), 10),
        file("/k/workspace/projects/web", "/k/workspace/projects/web/.kdev/recovery/bad.json", None, 3),
        file("/k/workspace/projects/api", "/k/workspace/projects/api/.kdev/recovery/5-a.json", Some(5), 20),
    ];
    let l = list_recovery_snapshots(UNIX, None, files).unwrap();
    let got: Vec<(&str, &str, u64, u64)> = l.iter().map(|e| (e.project.as_str(), e.snapshot_path.as_str(), e.size, e.saved_at)).collect();
    assert_eq!(got, vec![
        ("api", "/k/workspace/projects/api/.kdev/recovery/5-a.json", 20, 5),
        ("web", "/k/workspace/projects/web/.kdev/recovery/1-a.json", 10, 1),
    ]);
    assert_eq!(list_recovery_snapshots(UNIX, Some(s("a\\b")), vec![]).err(), Some(s("invalid project name")));
    assert_eq!(list_recovery_snapshots(UNIX, Some(s("")), vec![]).map(|v| v.len()), Ok(0));
    let e = snapshot_entry(s("web"), snapshot_envelope(s("src/a.py"), s("print(1)"), 42), "C:\\r\\42-a.json", 77);
    assert_eq!((e.project.as_str(), e.relative_path.as_str(), e.snapshot_path.as_str(), e.size, e.saved_at), ("web", "src/a.py", "C:/r/42-a.json", 77, 42));
}

#[test]
fn reading_back_only_inside_the_root() {
    assert_eq!(check_snapshot_path(UNIX, "/k", "/k/workspace/projects/web/.kdev/recovery/1-a.json"), Ok(()));
    let bad = Err(s("invalid recovery snapshot path"));
    assert_eq!(check_snapshot_path(UNIX, "/k", "/etc/1-a.json"), bad);
    assert_eq!(check_snapshot_path(UNIX, "/k", "/kdev/1-a.json"), bad);
    assert_eq!(check_snapshot_path(UNIX, "/k", "/k/secret.txt"), bad);
    assert_eq!(check_snapshot_path(WIN, "C:\\k", "D:\\k\\1-a.json"), bad);
    let c = recovery_content(UNIX, "/k/workspace/projects/web/.kdev/recovery/1-a.json", snapshot_envelope(s("a"), s("body"), 1));
    assert_eq!((c.project.as_str(), c.content.as_str()), ("web", "body"));
    assert_eq!(recovery_content(UNIX, "/k/1-a.json", snapshot_envelope(s("a"), s("b"), 1)).project, "");
}

#[test]
fn extension_state_and_listing() {
    let mut st = ExtensionState::new();
    assert_eq!(set_extension_enabled(&mut st, "a/b", false), Err(s("invalid extension id")));
    assert_eq!(set_extension_enabled(&mut st, "", false), Err(s("invalid extension id")));
    assert_eq!(set_extension_enabled(&mut st, "python", false), Ok(()));
    assert!(st.is_disabled("python"));
    assert_eq!(set_extension_enabled(&mut st, "python", false), Ok(()));
    assert_eq!(st.disabled_ids(), strs(&["python"]));
    let candidates = vec![
        (s("themes"), s("bundled")),
        (s("python"), s("bundled")),
        (s("python"), s("user-installed")),
        (s("mine"), s("user-installed")),
    ];
    let l = list_extensions(&candidates, &st);
    let summary: Vec<(&str, bool, &str)> = l.iter().map(|e| (e.id.as_str(), e.enabled, e.source.as_str())).collect();
    assert_eq!(summary, vec![("mine", true, "user-installed"), ("python", false, "bundled"), ("themes", true, "bundled")]);
    assert!(l.iter().all(|e| e.name == e.id));
    assert_eq!(set_extension_enabled(&mut st, "python", true), Ok(()));
    assert!(!st.is_disabled("python"));
    assert!(list_extensions(&candidates, &st).iter().all(|e| e.enabled));
    let from = ExtensionState::from_disabled(strs(&["a", "b"]));
    assert!(from.is_disabled("b") && !from.is_disabled("c"));
    assert_eq!(state_path(UNIX, &Ok(s("/k"))), Ok(s("/k/extensions/.kdev-extension-state.json")));
    let dirs = extension_dirs(UNIX, None, Some(s("/opt/kdev")), Ok(s("/k")));
    assert_eq!(dirs, vec![(s("/opt/kdev/extensions"), "bundled"), (s("/k/extensions"), "user-installed")]);
}

#[test]
fn storage_reports() {
    let df = "Filesystem     1024-blocks      Used Available Capacity Mounted on\n/dev/sda1        1000000    400000    600000      40% /\n";
    assert_eq!(parse_df_output(df), Ok((1024000000, 614400000, 614400000)));
    assert_eq!(parse_df_output("x y z\n"), Err(s("Unable to determine filesystem capacity")));
    assert_eq!(parse_df_output(""), Err(s("Unable to determine filesystem capacity")));
    assert_eq!(parse_df_output("fs abc 1 2\n"), Err(s("invalid filesystem total: invalid digit found in string")));
    assert_eq!(parse_df_output("fs 1 2 -\n"), Err(s("invalid filesystem free space: invalid digit found in string")));
    assert_eq!(parse_df_output("fs 18446744073709551615 0 1\n").unwrap().0, u64::MAX);
    assert_eq!(df_failure("  df: no such file \n"), "df: no such file");
    assert_eq!(workspace_usage(Ok(vec![10, 20, 30]), Ok((100, 40, 40))), Ok((60, 40)));
    assert_eq!(workspace_usage(Ok(vec![u64::MAX, 5]), Ok((1, 2, 3))), Ok((u64::MAX, 2)));
    assert_eq!(workspace_usage(Err(s("io")), Ok((1, 2, 3))), Err(s("io")));
    assert_eq!(workspace_usage(Ok(vec![]), Err(s("df"))), Err(s("df")));
    assert_eq!(filesystem_used(100, 40), 60);
    assert_eq!(filesystem_used(40, 100), 0);
    assert_eq!(
        storage_snapshot(60, 40, 100, "60.0"),
        "workspace_used_bytes=60\nfree_bytes=40\nfilesystem_total_bytes=100\nfilesystem_usage_percent=60.0"
    );
}
