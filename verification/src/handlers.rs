//! Request and response bodies of the command and file endpoints.
use vstd::prelude::*;

verus! {

/// A shell command to run, optionally in a given directory.
pub struct CommandRequest {
    pub command: String,
    pub working_dir: Option<String>,
}

/// What a command printed and how it ended.
pub struct CommandResponse {
    pub stdout: String,
    pub stderr: String,
    pub exit_code: Option<i32>,
    pub success: bool,
}

/// A request to list the files of a directory (the current one if none is
/// given).
pub struct FileListRequest {
    pub path: Option<String>,
}

} // verus!
