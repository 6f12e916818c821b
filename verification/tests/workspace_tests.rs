use kdev::host::{
    bash_command_args, exe_root, first_kali, linux_command, linux_command_output, linux_environment_native,
    linux_environment_windows, login_shell, parse_wsl_distros, platform_info, preferred_wsl_distro, temp_extension,
    workspace_file_list, wsl_command_args, wsl_target,
};
use kdev::process::CommandOutput;
use kdev::runtime::HostOs;
use kdev::workspace::{
    kdev_root, portable_data_root, project_cwd, project_dir, recovery_dir, safe_component, safe_relative_file,
    safe_workspace_path, user_data_root, workspace_creation_error, RootProbe, UserHome,
};

fn s(x: &str) -> String {
    x.to_string()
}

fn strs(v: &[&str]) -> Vec<String> {
    v.iter().map(|x| x.to_string()).collect()
}

const UNIX: HostOs = HostOs::Other;
const WIN: HostOs = HostOs::Windows;

#[test]
fn data_root_resolution() {
    assert_eq!(portable_data_root(UNIX, Ok(Some(s("/media/usb/KDev")))), Ok(s("/media/usb/KDev/KDevData")));
    assert_eq!(portable_data_root(WIN, Ok(Some(s("E:\\KDev")))), Ok(s("E:\\KDev\\KDevData")));
    assert_eq!(portable_data_root(UNIX, Ok(None)), Err(s("cannot determine KDev executable directory")));
    assert_eq!(portable_data_root(UNIX, Err(s("gone"))), Err(s("cannot locate KDev executable: gone")));
    assert_eq!(user_data_root(Some(s("/home/u")), UNIX), Ok(s("/home/u/.kdev")));
    assert_eq!(user_data_root(Some(s("C:\\Users\\u")), WIN), Ok(s("C:\\Users\\u\\Documents\\KDev")));
    assert_eq!(user_data_root(None, UNIX), Err(s("HOME is unavailable")));
    assert_eq!(user_data_root(None, WIN), Err(s("USERPROFILE is unavailable")));
    let exe = || Ok(Some(s("/opt/kdev")));
    assert_eq!(kdev_root(UNIX, exe(), RootProbe::PortableWritable), Ok(s("/opt/kdev/KDevData")));
    let found = |created| RootProbe::PortableNotWritable(UserHome::Found { home: s("/home/u"), created });
    assert_eq!(kdev_root(UNIX, exe(), found(Ok(()))), Ok(s("/home/u/.kdev")));
    assert_eq!(kdev_root(UNIX, exe(), found(Err(s("denied")))), Err(s("cannot create KDev workspace: denied")));
    assert_eq!(kdev_root(UNIX, exe(), RootProbe::PortableNotWritable(UserHome::Missing)), Err(s("HOME is unavailable")));
    assert_eq!(kdev_root(UNIX, Err(s("e")), RootProbe::PortableWritable), Err(s("cannot locate KDev executable: e")));
    assert_eq!(kdev_root(UNIX, Ok(None), RootProbe::PortableWritable), Err(s("cannot determine KDev executable directory")));
    assert_eq!(workspace_creation_error("denied"), "cannot create KDev workspace: denied");
    assert_eq!(exe_root(Ok(Some(s("/opt/kdev")))), Ok(s("/opt/kdev")));
    assert_eq!(exe_root(Ok(None)), Err(s("cannot determine KDev root")));
}

#[test]
fn workspace_paths_stay_inside_the_root() {
    let root: Result<String, String> = Ok(s("/k"));
    assert_eq!(safe_workspace_path(UNIX, &root, "workspace/a.txt"), Ok(s("/k/workspace/a.txt")));
    assert_eq!(safe_workspace_path(UNIX, &root, "/etc/passwd"), Err(s("absolute workspace paths are not allowed")));
    assert_eq!(safe_workspace_path(UNIX, &root, "workspace/../../x"), Err(s("parent-directory traversal is not allowed")));
    // ".." only counts as a whole component
    assert_eq!(safe_workspace_path(UNIX, &root, "a..b/c"), Ok(s("/k/a..b/c")));
    assert_eq!(safe_workspace_path(UNIX, &Err(s("no root")), "a"), Err(s("no root")));
    let joined = safe_workspace_path(UNIX, &root, "./w/x").unwrap();
    assert!(std::path::Path::new(&joined).starts_with("/k"));
    let wroot: Result<String, String> = Ok(s("C:\\k"));
    assert_eq!(safe_workspace_path(WIN, &wroot, "w\\a.txt"), Ok(s("C:\\k\\w\\a.txt")));
    assert_eq!(safe_workspace_path(WIN, &wroot, "D:\\x"), Err(s("absolute workspace paths are not allowed")));
    assert_eq!(safe_workspace_path(WIN, &wroot, "\\\\srv\\share\\x"), Err(s("absolute workspace paths are not allowed")));
    assert_eq!(safe_workspace_path(WIN, &wroot, "..\\..\\x"), Err(s("parent-directory traversal is not allowed")));
    // a rooted path without a drive keeps only the drive, as `Path::join` does
    assert_eq!(safe_workspace_path(WIN, &wroot, "\\x"), Ok(s("C:\\x")));
}

#[test]
fn project_and_component_names() {
    for bad in ["", "a/b", "a\\b", ".", ".."] {
        assert_eq!(safe_component(bad), Err(s("invalid project name")), "{:?}", bad);
    }
    assert_eq!(safe_component("my-app"), Ok(()));
    assert_eq!(safe_component("..."), Ok(()));
    let root: Result<String, String> = Ok(s("/k"));
    assert_eq!(project_dir(UNIX, &root, "web"), Ok(s("/k/workspace/projects/web")));
    assert_eq!(project_dir(UNIX, &Err(s("e")), "web"), Err(s("e")));
    assert_eq!(project_dir(UNIX, &Err(s("e")), "a/b"), Err(s("invalid project name")));
    assert_eq!(recovery_dir(UNIX, &root, "web"), Ok(s("/k/workspace/projects/web/.kdev/recovery")));
    assert_eq!(
        recovery_dir(WIN, &Ok(s("C:\\k")), "web"),
        Ok(s("C:\\k\\workspace/projects\\web\\.kdev\\recovery"))
    );
    assert_eq!(project_cwd(UNIX, &root, &Some(s("web"))), Ok(s("/k/workspace/projects/web")));
    assert_eq!(project_cwd(UNIX, &root, &Some(s(""))), Ok(s("/k")));
    assert_eq!(project_cwd(UNIX, &root, &None), Ok(s("/k")));
}

#[test]
fn relative_file_paths() {
    assert_eq!(safe_relative_file(UNIX, "src/main.py"), Ok(()));
    for bad in ["", "../x", "a/..b", "/abs"] {
        assert_eq!(safe_relative_file(UNIX, bad), Err(s("invalid file path")), "{:?}", bad);
    }
    assert_eq!(safe_relative_file(WIN, "C:\\x"), Err(s("invalid file path")));
    assert_eq!(safe_relative_file(WIN, "\\\\?\\C:\\x"), Err(s("invalid file path")));
    // not absolute on Windows: no drive
    assert_eq!(safe_relative_file(WIN, "/x"), Ok(()));
    assert_eq!(safe_relative_file(WIN, "src\\main.py"), Ok(()));
}

#[test]
fn wsl_distributions() {
    let d = parse_wsl_distros("Ubuntu\r\n  kali-linux \r\n\r\nDebian\n");
    assert_eq!(d, strs(&["Ubuntu", "kali-linux", "Debian"]));
    assert_eq!(first_kali(&d), Some(1));
    assert_eq!(preferred_wsl_distro(&d), Some(s("kali-linux")));
    assert_eq!(preferred_wsl_distro(&strs(&["Ubuntu", "Debian"])), Some(s("Ubuntu")));
    assert_eq!(preferred_wsl_distro(&strs(&["Ubuntu", "KALI"])), Some(s("KALI")));
    assert_eq!(preferred_wsl_distro(&vec![]), None);
    assert_eq!(wsl_target(&vec![]), Err(s("No WSL Linux distribution is installed. Open KDev Linux after installing a distribution.")));
    assert_eq!(wsl_target(&d), Ok(s("kali-linux")));
}

#[test]
fn linux_environment_reports() {
    let e = linux_environment_windows(&strs(&["Ubuntu", "kali-linux"]), false);
    assert!(e.available);
    assert_eq!(e.provider, "WSL2 / kali-linux");
    assert_eq!(e.detail, "Kali Linux distribution detected: kali-linux");
    let e = linux_environment_windows(&strs(&["Ubuntu", "Debian"]), false);
    assert!(e.available);
    assert_eq!(e.provider, "WSL2");
    assert_eq!(e.detail, "Linux distribution detected: Ubuntu, Debian. Install Kali separately if you want the Kali environment.");
    let e = linux_environment_windows(&vec![], true);
    assert!(!e.available);
    assert_eq!(e.detail, "WSL is installed, but no Linux distribution is registered.");
    let e = linux_environment_windows(&vec![], false);
    assert_eq!(e.detail, "WSL2 is not available on this host. The Linux workspace UI remains available.");
    assert_eq!(login_shell(None), "/bin/bash");
    assert_eq!(login_shell(Some(s("/bin/zsh"))), "/bin/zsh");
    let e = linux_environment_native("/bin/zsh", true);
    assert_eq!(e.provider, "native shell");
    assert_eq!(e.detail, "Shell detected: /bin/zsh");
    assert_eq!(linux_environment_native("/bin/zsh", false).detail, "No compatible shell was detected.");
}

#[test]
fn linux_commands() {
    assert_eq!(linux_command("   "), Ok(None));
    assert_eq!(linux_command("  ls -la \n"), Ok(Some(s("ls -la"))));
    assert_eq!(linux_command(&"x".repeat(4096)), Ok(Some("x".repeat(4096))));
    assert_eq!(linux_command(&"x".repeat(4097)), Err(s("command is too long")));
    // bytes, not characters, are counted
    assert_eq!(linux_command(&"é".repeat(2049)), Err(s("command is too long")));
    assert_eq!(wsl_command_args("kali", "ls"), strs(&["-d", "kali", "--", "bash", "-lc", "ls"]));
    assert_eq!(bash_command_args("ls"), strs(&["-lc", "ls"]));
    let ok = CommandOutput { success: true, stdout: s("out\n"), stderr: s("warn\n") };
    assert_eq!(linux_command_output(&ok, "exit status: 0"), "out\nwarn\n");
    let quiet = CommandOutput { success: false, stdout: s(""), stderr: s(" \n") };
    assert_eq!(linux_command_output(&quiet, "exit status: 2"), "command exited with status exit status: 2");
}

#[test]
fn workspace_files_and_saves() {
    let l = workspace_file_list(strs(&["workspace\\b.txt", "workspace/a.py", "workspace\\a\\c.md"]));
    assert_eq!(l, strs(&["workspace/a.py", "workspace/a/c.md", "workspace/b.txt"]));
    assert_eq!(temp_extension(4242), "kdev-tmp-4242");
    let p = platform_info("linux", "x86_64", Ok(s("/opt/kdev"))).unwrap();
    assert_eq!((p.os.as_str(), p.arch.as_str(), p.kdev_root.as_str()), ("linux", "x86_64", "/opt/kdev"));
}
