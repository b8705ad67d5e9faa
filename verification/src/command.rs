//! What the outcome of running a package manager's tool amounts to: its
//! output, or a message that says how it failed.

use crate::chars::{to_chars, to_string, trim};
use crate::text::trimmed;
use vstd::prelude::*;

verus! {

/// The message for a tool that could not be started.
pub open spec fn launch_failure(bin: Seq<char>, cause: Seq<char>) -> Seq<char> {
    "failed to run `"@ + bin + "`: "@ + cause
}

/// The message for a tool that ran and reported failure. What it wrote to
/// its error stream follows the status, unless that is blank.
pub open spec fn exit_failure(bin: Seq<char>, status: Seq<char>, stderr: Seq<char>) -> Seq<char> {
    let head = "`"@ + bin + "` exited with "@ + status;
    if trimmed(stderr).len() == 0 {
        head
    } else {
        head + ": "@ + trimmed(stderr)
    }
}

/// The message for the tool `bin` that could not be started because of `cause`.
pub fn describe_launch_failure(bin: &str, cause: &str) -> (message: String)
    ensures
        message@ == launch_failure(bin@, cause@),
{
    let mut message = String::new();
    message.append("failed to run `");
    message.append(bin);
    message.append("`: ");
    message.append(cause);
    assert(message@ =~= launch_failure(bin@, cause@));
    message
}

/// The message for the tool `bin` that ended with `status`, having written
/// `stderr` to its error stream.
pub fn describe_exit_failure(bin: &str, status: &str, stderr: &str) -> (message: String)
    ensures
        message@ == exit_failure(bin@, status@, stderr@),
{
    let mut message = String::new();
    message.append("`");
    message.append(bin);
    message.append("` exited with ");
    message.append(status);
    let chars = to_chars(stderr);
    let detail = trim(chars.as_slice());
    if detail.len() > 0 {
        let detail_text = to_string(detail);
        message.append(": ");
        message.append(detail_text.as_str());
    }
    assert(message@ =~= exit_failure(bin@, status@, stderr@));
    message
}

/// The result of a run of the tool `bin`: what it printed if it succeeded,
/// else the message that describes its failure.
pub fn command_output(
    bin: &str,
    succeeded: bool,
    status: &str,
    stdout: String,
    stderr: &str,
) -> (r: Result<String, String>)
    ensures
        succeeded ==> r == Ok::<String, String>(stdout),
        !succeeded ==> r is Err && r->Err_0@ == exit_failure(bin@, status@, stderr@),
{
    if succeeded {
        Ok(stdout)
    } else {
        Err(describe_exit_failure(bin, status, stderr))
    }
}

} // verus!
