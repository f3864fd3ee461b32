//! The supervisor's startup decisions: how the child process is invoked,
//! and the defensive checks on its stream handles.
//!
//! Spawning, thread handoff and process exit are plumbing around these
//! decisions; a spawn failure itself propagates to the caller as a fatal
//! startup error before any traffic is served.

use vstd::prelude::*;

verus! {

/// The verdict on the child's stream handles after a successful spawn.
/// Either handle being unavailable is fatal by design — the system has no
/// meaning without both pipes — so anything but `Ready` is logged and
/// terminates the whole process with a non-zero exit code.
#[derive(Clone, Copy, Debug, PartialEq, Eq, Structural)]
pub enum StartupCheck {
    /// Both handles are present: hand the input stream to the writer and
    /// the output stream to the reader, each on its own thread.
    Ready,
    /// The child's input-stream handle is unavailable: fatal.
    MissingInput,
    /// The child's output-stream handle is unavailable: fatal.
    MissingOutput,
}

/// Decide on the stream handles: ready exactly when both are present.
pub fn check_handles(has_input: bool, has_output: bool) -> (r: StartupCheck)
    ensures
        r == StartupCheck::Ready <==> has_input && has_output,
        r == StartupCheck::MissingOutput <==> !has_output,
        r == StartupCheck::MissingInput <==> has_output && !has_input,
{
    if !has_output {
        StartupCheck::MissingOutput
    } else if !has_input {
        StartupCheck::MissingInput
    } else {
        StartupCheck::Ready
    }
}

/// The argument list the child is spawned with: interactive mode, then the
/// ide class identifier, verbatim.
pub fn child_args(ide_class: &str) -> (r: Vec<String>)
    ensures
        r@.len() == 2,
        r@[0]@ == "-i"@,
        r@[1]@ == ide_class@,
{
    let mut v: Vec<String> = Vec::new();
    v.push("-i".to_owned());
    v.push(ide_class.to_owned());
    v
}

} // verus!
