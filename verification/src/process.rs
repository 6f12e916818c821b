//! What a finished external command reported, and the text KDev shows for it.

use vstd::prelude::*;
use crate::text::{cat, is_blank, blank};

verus! {

/// The outcome of a command that ran: its exit success and its output,
/// decoded as UTF-8 with invalid sequences replaced.
pub struct CommandOutput {
    pub success: bool,
    pub stdout: String,
    pub stderr: String,
}

/// Standard output followed by standard error.
pub open spec fn combined_text(o: CommandOutput) -> Seq<char> {
    o.stdout@ + o.stderr@
}

/// Standard output followed by standard error.
pub fn combined(o: &CommandOutput) -> (r: String)
    ensures
        r@ == combined_text(*o),
{
    cat(o.stdout.as_str(), o.stderr.as_str())
}

/// `r` is the usual reading of the finished command `o` (see
/// `command_text`).
pub open spec fn command_outcome(o: CommandOutput, blank_failure: Seq<char>, r: Result<String, String>) -> bool {
    &&& o.success ==> (r matches Ok(t) && t@ == combined_text(o))
    &&& !o.success && !blank(combined_text(o)) ==> (r matches Err(t) && t@ == combined_text(o))
    &&& !o.success && blank(combined_text(o)) ==> (r matches Err(t) && t@ == blank_failure)
}

/// The usual reading of a finished command: its combined output when it
/// succeeded; when it failed, the combined output, or `blank_failure` if that
/// output is only white space.
pub fn command_text(o: &CommandOutput, blank_failure: String) -> (r: Result<String, String>)
    ensures
        o.success ==> (r matches Ok(t) && t@ == combined_text(*o)),
        !o.success && !blank(combined_text(*o)) ==> (r matches Err(t) && t@ == combined_text(*o)),
        !o.success && blank(combined_text(*o)) ==> r == Err::<String, String>(blank_failure),
{
    let text = combined(o);
    if o.success {
        Ok(text)
    } else if is_blank(text.as_str()) {
        Err(blank_failure)
    } else {
        Err(text)
    }
}

} // verus!
