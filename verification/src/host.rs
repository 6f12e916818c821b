//! The desktop shell's own commands: platform facts, the Linux workspace
//! (WSL on Windows, the native shell elsewhere), running a Linux command,
//! and listing or saving workspace files.

use vstd::prelude::*;
use crate::text::{owned, cat, cat3, trim, trimmed, lines, lines_of, views, is_blank, blank, has_infix,
    contains_str, to_lowercase, lowercase_of, join_strings, join_with, replace_char, replaced};
use crate::process::{CommandOutput, combined, combined_text};
use crate::numbers::{decimal, decimal_string};
use crate::order::{sort_strings, sorted_lex};

verus! {

/// The platform facts shown in the status bar.
pub struct PlatformInfo {
    pub os: String,
    pub arch: String,
    pub kdev_root: String,
}

/// The platform facts, or the error locating KDev's root.
pub fn platform_info(os: &str, arch: &str, root: Result<String, String>) -> (r: Result<PlatformInfo, String>)
    ensures
        root matches Ok(p) ==> (r matches Ok(i) && i.os@ == os@ && i.arch@ == arch@ && i.kdev_root@ == p@),
        root matches Err(e) ==> r == Err::<PlatformInfo, String>(e),
{
    let p = root?;
    Ok(PlatformInfo { os: owned(os), arch: owned(arch), kdev_root: p })
}

/// The root the shell's own workspace commands use: the executable's
/// directory.
pub fn exe_root(exe_dir: Result<Option<String>, String>) -> (r: Result<String, String>)
    ensures
        exe_dir matches Err(e) ==> (r matches Err(m) && m@ == "cannot locate KDev executable: "@ + e@),
        exe_dir matches Ok(None) ==> (r matches Err(m) && m@ == "cannot determine KDev root"@),
        exe_dir matches Ok(Some(d)) ==> (r matches Ok(p) && p@ == d@),
{
    match exe_dir {
        Err(e) => Err(cat("cannot locate KDev executable: ", e.as_str())),
        Ok(None) => Err(owned("cannot determine KDev root")),
        Ok(Some(d)) => Ok(d),
    }
}

/// Whether a Linux environment is available, and how.
pub struct LinuxEnvironment {
    pub available: bool,
    pub provider: String,
    pub detail: String,
}

/// The distribution names in `wsl -l -q` output: each line trimmed, empty
/// ones dropped.
pub open spec fn distro_names(stdout: Seq<char>) -> Seq<Seq<char>> {
    lines_of(stdout).map_values(|l: Seq<char>| trimmed(l)).filter(|l: Seq<char>| l.len() > 0)
}

/// The installed WSL distributions listed by `wsl -l -q`.
pub fn parse_wsl_distros(stdout: &str) -> (r: Vec<String>)
    ensures
        views(r@) == distro_names(stdout@),
{
    let all = lines(stdout);
    let ghost t = views(all@).map_values(|l: Seq<char>| trimmed(l));
    let ghost pred = |l: Seq<char>| l.len() > 0;
    let mut r: Vec<String> = Vec::new();
    let mut i: usize = 0;
    assert(t.take(0).filter(pred) =~= Seq::<Seq<char>>::empty()) by {
        reveal(Seq::filter);
    }
    while i < all.len()
        invariant
            i <= all.len(),
            t == views(all@).map_values(|l: Seq<char>| trimmed(l)),
            pred == (|l: Seq<char>| l.len() > 0),
            views(r@) == t.take(i as int).filter(pred),
        decreases all.len() - i,
    {
        let d = trim(all[i].as_str());
        assert(t[i as int] == trimmed(all@[i as int]@));
        assert(t.take(i + 1) =~= t.take(i as int).push(t[i as int]));
        proof {
            t.take(i as int).lemma_filter_push(t[i as int], pred);
        }
        if !d.as_str().is_empty() {
            let ghost before = views(r@);
            r.push(d);
            assert(views(r@) =~= before.push(t[i as int]));
        }
        i += 1;
    }
    assert(t.take(all.len() as int) =~= t);
    r
}

/// A distribution is Kali when its lower-cased name contains `kali`.
pub open spec fn is_kali(name: Seq<char>) -> bool {
    has_infix(lowercase_of(name), "kali"@)
}

/// The index of the first Kali distribution, if any.
pub open spec fn first_kali_at(d: Seq<Seq<char>>, i: int) -> bool {
    0 <= i < d.len() && is_kali(d[i]) && forall|j: int| 0 <= j < i ==> !is_kali(#[trigger] d[j])
}

/// The index of the first Kali distribution, if any.
pub fn first_kali(distros: &Vec<String>) -> (r: Option<usize>)
    ensures
        r matches Some(i) ==> first_kali_at(views(distros@), i as int),
        r is None ==> forall|j: int| 0 <= j < distros.len() ==> !is_kali(#[trigger] views(distros@)[j]),
{
    let mut i: usize = 0;
    while i < distros.len()
        invariant
            i <= distros.len(),
            forall|j: int| 0 <= j < i ==> !is_kali(#[trigger] views(distros@)[j]),
        decreases distros.len() - i,
    {
        let low = to_lowercase(distros[i].as_str());
        assert(views(distros@)[i as int] == distros@[i as int]@);
        if contains_str(low.as_str(), "kali") {
            return Some(i);
        }
        i += 1;
    }
    None
}

/// The distribution KDev's Linux workspace runs in: the first Kali one,
/// else the first one.
pub fn preferred_wsl_distro(distros: &Vec<String>) -> (r: Option<String>)
    ensures
        distros@.len() == 0 ==> r is None,
        (exists|i: int| first_kali_at(views(distros@), i)) ==> (r matches Some(d) && exists|i: int|
            first_kali_at(views(distros@), i) && d@ == views(distros@)[i]),
        distros@.len() > 0 && !(exists|i: int| first_kali_at(views(distros@), i)) ==> (r matches Some(d) && d@
            == distros@[0]@),
{
    match first_kali(distros) {
        Some(i) => {
            assert(first_kali_at(views(distros@), i as int));
            Some(distros[i].clone())
        },
        None => {
            assert(!(exists|i: int| first_kali_at(views(distros@), i)));
            if distros.len() > 0 {
                Some(distros[0].clone())
            } else {
                None
            }
        },
    }
}

/// The Linux environment on Windows, from the WSL distributions and (asked
/// only when there are none) whether `wsl --status` succeeds.
pub fn linux_environment_windows(distros: &Vec<String>, wsl_status_ok: bool) -> (r: LinuxEnvironment)
    ensures
        (exists|i: int| first_kali_at(views(distros@), i)) ==> exists|i: int|
            first_kali_at(views(distros@), i) && r.available && r.provider@ == "WSL2 / "@ + views(distros@)[i]
                && r.detail@ == "Kali Linux distribution detected: "@ + views(distros@)[i],
        !(exists|i: int| first_kali_at(views(distros@), i)) && distros@.len() > 0 ==> r.available && r.provider@
            == "WSL2"@ && r.detail@ == "Linux distribution detected: "@ + join_with(views(distros@), ", "@)
            + ". Install Kali separately if you want the Kali environment."@,
        distros@.len() == 0 && wsl_status_ok ==> !r.available && r.provider@ == "WSL2"@ && r.detail@
            == "WSL is installed, but no Linux distribution is registered."@,
        distros@.len() == 0 && !wsl_status_ok ==> !r.available && r.provider@ == "WSL2"@ && r.detail@
            == "WSL2 is not available on this host. The Linux workspace UI remains available."@,
{
    match first_kali(distros) {
        Some(i) => {
            let k = distros[i].as_str();
            assert(views(distros@)[i as int] == k@);
            return LinuxEnvironment {
                available: true,
                provider: cat("WSL2 / ", k),
                detail: cat("Kali Linux distribution detected: ", k),
            };
        },
        None => {
            assert(!(exists|i: int| first_kali_at(views(distros@), i)));
        },
    }
    if distros.len() > 0 {
        let all = join_strings(distros, ", ");
        return LinuxEnvironment {
            available: true,
            provider: owned("WSL2"),
            detail: cat3("Linux distribution detected: ", all.as_str(), ". Install Kali separately if you want the Kali environment."),
        };
    }
    if wsl_status_ok {
        LinuxEnvironment {
            available: false,
            provider: owned("WSL2"),
            detail: owned("WSL is installed, but no Linux distribution is registered."),
        }
    } else {
        LinuxEnvironment {
            available: false,
            provider: owned("WSL2"),
            detail: owned("WSL2 is not available on this host. The Linux workspace UI remains available."),
        }
    }
}

/// The login shell: `$SHELL`, or `/bin/bash` when it is not set.
pub fn login_shell(shell_var: Option<String>) -> (r: String)
    ensures
        shell_var matches Some(s) ==> r@ == s@,
        shell_var is None ==> r@ == "/bin/bash"@,
{
    match shell_var {
        Some(s) => s,
        None => owned("/bin/bash"),
    }
}

/// The Linux environment elsewhere: the native shell, available when the
/// login shell or `/bin/bash` exists.
pub fn linux_environment_native(shell: &str, available: bool) -> (r: LinuxEnvironment)
    ensures
        r.available == available,
        r.provider@ == "native shell"@,
        available ==> r.detail@ == "Shell detected: "@ + shell@,
        !available ==> r.detail@ == "No compatible shell was detected."@,
{
    LinuxEnvironment {
        available,
        provider: owned("native shell"),
        detail: if available { cat("Shell detected: ", shell) } else { owned("No compatible shell was detected.") },
    }
}

/// The longest command, in bytes, the Linux workspace accepts.
pub const MAX_COMMAND_BYTES: usize = 4096;

/// A Linux command to run: nothing for a blank command, refused when its
/// trimmed text is longer than 4096 bytes, else the trimmed text.
pub fn linux_command(command: &str) -> (r: Result<Option<String>, String>)
    ensures
        trimmed(command@).len() == 0 ==> r matches Ok(None),
        trimmed(command@).len() > 0 && vstd::utf8::encode_utf8(trimmed(command@)).len() > 4096 ==> (r matches Err(m)
            && m@ == "command is too long"@),
        trimmed(command@).len() > 0 && vstd::utf8::encode_utf8(trimmed(command@)).len() <= 4096 ==> (r matches Ok(
            Some(c),
        ) && c@ == trimmed(command@)),
{
    let t = trim(command);
    if t.as_str().is_empty() {
        return Ok(None);
    }
    if t.as_str().as_bytes().len() > MAX_COMMAND_BYTES {
        return Err(owned("command is too long"));
    }
    Ok(Some(t))
}

/// The message when WSL has no distribution to run in.
pub open spec fn no_distro_text() -> Seq<char> {
    "No WSL Linux distribution is installed. Open KDev Linux after installing a distribution."@
}

/// The arguments of `wsl.exe -d <distro> -- bash -lc <command>`.
pub fn wsl_command_args(distro: &str, command: &str) -> (r: Vec<String>)
    ensures
        views(r@) == seq!["-d"@, distro@, "--"@, "bash"@, "-lc"@, command@],
{
    let mut r: Vec<String> = Vec::new();
    r.push(owned("-d"));
    r.push(owned(distro));
    r.push(owned("--"));
    r.push(owned("bash"));
    r.push(owned("-lc"));
    r.push(owned(command));
    assert(views(r@) =~= seq!["-d"@, distro@, "--"@, "bash"@, "-lc"@, command@]);
    r
}

/// The arguments of `bash -lc <command>`.
pub fn bash_command_args(command: &str) -> (r: Vec<String>)
    ensures
        views(r@) == seq!["-lc"@, command@],
{
    let mut r: Vec<String> = Vec::new();
    r.push(owned("-lc"));
    r.push(owned(command));
    assert(views(r@) =~= seq!["-lc"@, command@]);
    r
}

/// The distribution to run a command in, or the message when there is none.
pub fn wsl_target(distros: &Vec<String>) -> (r: Result<String, String>)
    ensures
        distros@.len() == 0 ==> (r matches Err(m) && m@ == no_distro_text()),
        distros@.len() > 0 ==> r is Ok,
        r matches Ok(d) ==> preferred_wsl_distro_is(distros@, d@),
{
    match preferred_wsl_distro(distros) {
        Some(d) => Ok(d),
        None => Err(owned("No WSL Linux distribution is installed. Open KDev Linux after installing a distribution.")),
    }
}

/// `d` is the distribution `preferred_wsl_distro` picks from `distros`.
pub open spec fn preferred_wsl_distro_is(distros: Seq<String>, d: Seq<char>) -> bool {
    if exists|i: int| first_kali_at(views(distros), i) {
        exists|i: int| first_kali_at(views(distros), i) && d == views(distros)[i]
    } else {
        distros.len() > 0 && d == distros[0]@
    }
}

/// What the Linux workspace shows for a finished command: its output and
/// errors, or the exit status when a failed command printed nothing.
pub fn linux_command_output(o: &CommandOutput, status: &str) -> (r: String)
    ensures
        o.success || !blank(combined_text(*o)) ==> r@ == combined_text(*o),
        !o.success && blank(combined_text(*o)) ==> r@ == "command exited with status "@ + status@,
{
    let text = combined(o);
    if !o.success && is_blank(text.as_str()) {
        cat("command exited with status ", status)
    } else {
        text
    }
}

/// The extension given to the temporary file an atomic save writes first:
/// `kdev-tmp-<process id>`.
pub fn temp_extension(pid: u32) -> (r: String)
    ensures
        r@ == "kdev-tmp-"@ + decimal(pid as nat),
{
    let d = decimal_string(pid as u64);
    cat("kdev-tmp-", d.as_str())
}

/// The workspace file list: each path relative to KDev's root with `'\\'`
/// written as `'/'`, sorted.
pub fn workspace_file_list(relative: Vec<String>) -> (r: Vec<String>)
    ensures
        sorted_lex(views(r@)),
        views(r@).to_multiset() == relative@.map_values(|s: String| replaced(s@, '\\', '/')).to_multiset(),
{
    let mut m: Vec<String> = Vec::new();
    let mut i: usize = 0;
    while i < relative.len()
        invariant
            i <= relative.len(),
            views(m@) == relative@.take(i as int).map_values(|s: String| replaced(s@, '\\', '/')),
        decreases relative.len() - i,
    {
        let x = replace_char(relative[i].as_str(), '\\', '/');
        let ghost before = views(m@);
        m.push(x);
        assert(views(m@) =~= before.push(x@));
        assert(relative@.take(i + 1).map_values(|s: String| replaced(s@, '\\', '/')) =~= relative@.take(
            i as int,
        ).map_values(|s: String| replaced(s@, '\\', '/')).push(x@));
        i += 1;
    }
    assert(relative@.take(relative.len() as int) =~= relative@);
    sort_strings(m)
}

} // verus!
