//! Git source control: the status report, and the commands KDev runs for a
//! commit or a push.

use vstd::prelude::*;
use crate::text::{owned, cat, cat3, trim, trimmed, lines, lines_of, views, join_strings, join_with};
use crate::runtime::{ResolvedTool, RuntimeSource, source_text};
use crate::process::{CommandOutput, command_text, combined_text, command_outcome};

verus! {

/// The Git panel's view of a workspace or project.
pub struct GitStatus {
    pub available: bool,
    pub branch: String,
    pub changed: Vec<String>,
    pub message: String,
    pub source: String,
}

/// The lines of `git status --short` that are not empty.
pub open spec fn changed_lines(stdout: Seq<char>) -> Seq<Seq<char>> {
    lines_of(stdout).filter(|l: Seq<char>| l.len() > 0)
}

/// The message when no Git can be found.
pub open spec fn git_missing_text() -> Seq<char> {
    "Git was not found in the KDev runtime or on the host PATH."@
}

/// The Git status report, from where Git was found and how
/// `git branch --show-current` and `git status --short` went (`None` for a
/// command that could not be started; both are ignored when Git is
/// missing).
pub fn git_status(source: RuntimeSource, branch: Option<CommandOutput>, status: Option<CommandOutput>) -> (r: GitStatus)
    ensures
        source == RuntimeSource::Missing ==> {
            &&& !r.available
            &&& r.branch@.len() == 0
            &&& r.changed@.len() == 0
            &&& r.message@ == git_missing_text()
            &&& r.source@ == source_text(RuntimeSource::Missing)
        },
        source != RuntimeSource::Missing ==> r.source@ == source_text(source),
        source != RuntimeSource::Missing ==> (r.available <==> (branch is Some && branch->Some_0.success
            && status is Some && status->Some_0.success)),
        source != RuntimeSource::Missing && r.available ==> {
            &&& r.message@ == "Git repository detected"@
            &&& views(r.changed@) == changed_lines(status->Some_0.stdout@)
            &&& r.branch@ == (if trimmed(branch->Some_0.stdout@).len() == 0 {
                "(detached/no branch)"@
            } else {
                trimmed(branch->Some_0.stdout@)
            })
        },
        source != RuntimeSource::Missing && !r.available ==> {
            &&& r.message@ == "Git is available, but this workspace is not a Git repository."@
            &&& r.branch@.len() == 0
            &&& r.changed@.len() == 0
        },
{
    if source == RuntimeSource::Missing {
        return GitStatus {
            available: false,
            branch: String::new(),
            changed: Vec::new(),
            message: owned("Git was not found in the KDev runtime or on the host PATH."),
            source: owned("KDev runtime not installed"),
        };
    }
    let label = owned(source.label());
    match (branch, status) {
        (Some(b), Some(s)) => {
            if b.success && s.success {
                let name = trim(b.stdout.as_str());
                let all = lines(s.stdout.as_str());
                let mut changed: Vec<String> = Vec::new();
                let mut i: usize = 0;
                let ghost pred = |l: Seq<char>| l.len() > 0;
                assert(views(all@).take(0).filter(pred) =~= Seq::<Seq<char>>::empty()) by {
                    reveal(Seq::filter);
                }
                while i < all.len()
                    invariant
                        i <= all.len(),
                        pred == (|l: Seq<char>| l.len() > 0),
                        views(changed@) == views(all@).take(i as int).filter(pred),
                    decreases all.len() - i,
                {
                    let ghost va = views(all@);
                    assert(va.take(i + 1) =~= va.take(i as int).push(va[i as int]));
                    proof {
                        va.take(i as int).lemma_filter_push(va[i as int], pred);
                    }
                    assert(va[i as int] == all@[i as int]@);
                    if !all[i].as_str().is_empty() {
                        let ghost before = changed@;
                        changed.push(all[i].clone());
                        assert(views(changed@) =~= views(before).push(all@[i as int]@));
                    }
                    i += 1;
                }
                assert(views(all@).take(all.len() as int) =~= views(all@));
                let branch_name = if name.as_str().is_empty() { owned("(detached/no branch)") } else { name };
                return GitStatus {
                    available: true,
                    branch: branch_name,
                    changed,
                    message: owned("Git repository detected"),
                    source: label,
                };
            }
        },
        _ => {},
    }
    GitStatus {
        available: false,
        branch: String::new(),
        changed: Vec::new(),
        message: owned("Git is available, but this workspace is not a Git repository."),
        source: label,
    }
}

/// What a Git command gives once Git was looked for: refused when Git is
/// missing; else the found Git is run with `args` by `run`, and the result
/// is the start failure, or the command's text (failing with
/// `git <args> failed` when a failed command said nothing).
pub fn git_result<X>(git: &ResolvedTool, args: &Vec<String>, run: X) -> (r: Result<String, String>)
    where
        X: Fn(String, Vec<String>) -> Result<CommandOutput, String>,
    requires
        forall|e: String, a: Vec<String>| #[trigger] run.requires((e, a)),
    ensures
        git.source == RuntimeSource::Missing ==> (r matches Err(m) && m@ == git_missing_text()),
        git.source != RuntimeSource::Missing ==> exists|e: String, a: Vec<String>, out: Result<CommandOutput, String>|
            #![trigger run.ensures((e, a), out)]
            {
                &&& e@ == git.executable@
                &&& views(a@) == views(args@)
                &&& run.ensures((e, a), out)
                &&& match out {
                    Err(x) => r matches Err(m) && m@ == "failed to run git: "@ + x@,
                    Ok(o) => command_outcome(o, "git "@ + join_with(views(args@), " "@) + " failed"@, r),
                }
            },
{
    if git.source == RuntimeSource::Missing {
        return Err(owned("Git was not found in the KDev runtime or on the host PATH."));
    }
    let a = copy_strings(args);
    let out = run(git.executable.clone(), a);
    match out {
        Err(e) => Err(cat("failed to run git: ", e.as_str())),
        Ok(o) => {
            let a = join_strings(args, " ");
            let failure = cat3("git ", a.as_str(), " failed");
            command_text(&o, failure)
        },
    }
}

/// A copy of a list of strings.
fn copy_strings(v: &Vec<String>) -> (r: Vec<String>)
    ensures
        views(r@) == views(v@),
{
    let mut r: Vec<String> = Vec::new();
    let mut i: usize = 0;
    while i < v.len()
        invariant
            i <= v.len(),
            views(r@) == views(v@).take(i as int),
        decreases v.len() - i,
    {
        r.push(v[i].clone());
        assert(views(v@).take(i + 1) =~= views(v@).take(i as int).push(v@[i as int]@));
        assert(views(r@) =~= views(v@).take(i + 1));
        i += 1;
    }
    assert(views(v@).take(v.len() as int) =~= views(v@));
    r
}

/// The commit message to use: the given one without surrounding white space,
/// refused when nothing is left.
pub fn commit_message(message: &str) -> (r: Result<String, String>)
    ensures
        trimmed(message@).len() == 0 ==> (r matches Err(m) && m@ == "A commit message is required."@),
        trimmed(message@).len() > 0 ==> (r matches Ok(t) && t@ == trimmed(message@)),
{
    let t = trim(message);
    if t.as_str().is_empty() {
        Err(owned("A commit message is required."))
    } else {
        Ok(t)
    }
}

fn strings(parts: &Vec<&str>) -> (r: Vec<String>)
    ensures
        views(r@) == parts@.map_values(|s: &str| s@),
{
    let mut r: Vec<String> = Vec::new();
    let mut i: usize = 0;
    while i < parts.len()
        invariant
            i <= parts.len(),
            views(r@) == parts@.take(i as int).map_values(|s: &str| s@),
        decreases parts.len() - i,
    {
        let ghost before = r@;
        r.push(owned(parts[i]));
        assert(views(r@) =~= views(before).push(parts@[i as int]@));
        assert(parts@.take(i + 1).map_values(|s: &str| s@) =~= parts@.take(i as int).map_values(|s: &str| s@).push(parts@[i as int]@));
        i += 1;
    }
    assert(parts@.take(parts.len() as int) =~= parts@);
    r
}

/// `git add -A`: stages every change before a commit.
pub fn git_stage_args() -> (r: Vec<String>)
    ensures
        views(r@) == seq!["add"@, "-A"@],
{
    let mut p: Vec<&str> = Vec::new();
    p.push("add");
    p.push("-A");
    let r = strings(&p);
    assert(p@.map_values(|s: &str| s@) =~= seq!["add"@, "-A"@]);
    r
}

/// `git commit -m <message>`.
pub fn git_commit_args(message: &str) -> (r: Vec<String>)
    ensures
        views(r@) == seq!["commit"@, "-m"@, message@],
{
    let mut p: Vec<&str> = Vec::new();
    p.push("commit");
    p.push("-m");
    p.push(message);
    let r = strings(&p);
    assert(p@.map_values(|s: &str| s@) =~= seq!["commit"@, "-m"@, message@]);
    r
}

/// A commit of every change: refused without a message (after trimming);
/// otherwise the arguments of `git add -A` and then of
/// `git commit -m <message>`, run in that order.
pub fn commit_plan(message: &str) -> (r: Result<(Vec<String>, Vec<String>), String>)
    ensures
        trimmed(message@).len() == 0 ==> (r matches Err(m) && m@ == "A commit message is required."@),
        trimmed(message@).len() > 0 ==> (r matches Ok(p) && views(p.0@) == seq!["add"@, "-A"@] && views(p.1@)
            == seq!["commit"@, "-m"@, trimmed(message@)]),
{
    let m = commit_message(message)?;
    Ok((git_stage_args(), git_commit_args(m.as_str())))
}

/// Commits every change in `cwd` (the working directory, or the error
/// locating it), with `run_git` running one Git command there: refused
/// without a message (after trimming), before anything runs; then the
/// directory's error; then `git add -A` runs, and its error is returned
/// with nothing more run; otherwise `git commit -m <message>` runs and its
/// result is returned.
pub fn git_commit<X>(message: &str, cwd: &Result<String, String>, run_git: X) -> (r: Result<String, String>)
    where
        X: Fn(String, Vec<String>) -> Result<String, String>,
    requires
        forall|d: String, a: Vec<String>| #[trigger] run_git.requires((d, a)),
    ensures
        trimmed(message@).len() == 0 ==> (r matches Err(m) && m@ == "A commit message is required."@),
        trimmed(message@).len() > 0 ==> (cwd matches Err(e) ==> r == Err::<String, String>(*e)),
        trimmed(message@).len() > 0 ==> (cwd matches Ok(dir) ==> exists|d1: String, a1: Vec<String>, o1: Result<String, String>|
            #![trigger run_git.ensures((d1, a1), o1)]
            {
                &&& d1@ == dir@
                &&& views(a1@) == seq!["add"@, "-A"@]
                &&& run_git.ensures((d1, a1), o1)
                &&& o1 matches Err(e) ==> r == Err::<String, String>(e)
                &&& o1 is Ok ==> exists|d2: String, a2: Vec<String>, o2: Result<String, String>|
                    #![trigger run_git.ensures((d2, a2), o2)]
                    {
                        &&& d2@ == dir@
                        &&& views(a2@) == seq!["commit"@, "-m"@, trimmed(message@)]
                        &&& run_git.ensures((d2, a2), o2)
                        &&& r == o2
                    }
            }),
{
    let (stage, commit) = commit_plan(message)?;
    let dir = match cwd {
        Err(e) => return Err(e.clone()),
        Ok(d) => d,
    };
    let staged = run_git(dir.clone(), stage);
    match staged {
        Err(e) => Err(e),
        Ok(_) => run_git(dir.clone(), commit),
    }
}

/// `git push`.
pub fn git_push() -> (r: Vec<String>)
    ensures
        views(r@) == seq!["push"@],
{
    let mut p: Vec<&str> = Vec::new();
    p.push("push");
    let r = strings(&p);
    assert(p@.map_values(|s: &str| s@) =~= seq!["push"@]);
    r
}

} // verus!
