//! Error vocabulary shared by the parsers, the copier and the callers that
//! run the external commands.

use vstd::prelude::*;

verus! {

/// Failure of one of the external information commands, as seen by the code
/// that launches it and parses its output.
#[derive(Clone, Copy, Debug, PartialEq, Eq, Structural)]
pub enum DiskInfoError {
    /// The external command could not be started at all.
    LaunchFail,
    /// The command ran but its output was not valid UTF-8 text.
    ConvertToUTF,
    /// The output was text but did not match the expected structure.
    Parse,
}

/// Failure of a streaming copy.
#[derive(Clone, Copy, Debug, PartialEq, Eq, Structural)]
pub enum CopyError {
    /// Reading from the source failed with a non-transient error.
    Read,
    /// Writing a chunk to the sink failed.
    Write,
}

} // verus!
