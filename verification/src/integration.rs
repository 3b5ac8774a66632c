//! The gateway's own command console and status report.
use vstd::prelude::*;
use vstd::string::StringExecFns;

use crate::text::{contains, contains_text};

verus! {

/// The status report of the gateway.
pub struct SystemInfo {
    pub service: String,
    pub version: String,
    pub status: String,
    pub forgecode_integrated: bool,
    pub timestamp: String,
}

/// A console command.
pub struct CommandRequest {
    pub command: String,
}

/// A request to read a file.
pub struct FileReadRequest {
    pub path: String,
}

/// What the console answers to `command`: the echo of the command, then the
/// answer of the first keyword that the command contains.
pub open spec fn console_output(command: Seq<char>, version: Seq<char>) -> Seq<char> {
    let echo = "Executing command: "@ + command + "\n"@;
    if contains_text(command, "help"@) {
        echo + "Available commands: help, status, version, config"@
    } else if contains_text(command, "status"@) {
        echo + "Forgecode gateway is running. Services: OK"@
    } else if contains_text(command, "version"@) {
        echo + "Forgecode Gateway v"@ + version
    } else if contains_text(command, "config"@) {
        echo + "Gateway configuration loaded successfully"@
    } else {
        echo + "Unknown command: "@ + command
    }
}

/// Runs a console command: the echo of the command, then the answer of the
/// first keyword it contains. The console answers whether or not the
/// code-execution service has been set up.
pub fn run_console_command(command: &str, version: &str) -> (out: String)
    ensures
        out@ == console_output(command@, version@),
{
    let mut out = String::from_str("Executing command: ");
    out.append(command);
    out.append("\n");
    if contains(command, "help") {
        out.append("Available commands: help, status, version, config");
    } else if contains(command, "status") {
        out.append("Forgecode gateway is running. Services: OK");
    } else if contains(command, "version") {
        out.append("Forgecode Gateway v");
        out.append(version);
    } else if contains(command, "config") {
        out.append("Gateway configuration loaded successfully");
    } else {
        out.append("Unknown command: ");
        out.append(command);
    }
    out
}

/// The status report: the gateway is running, in the given version, at the
/// given time, with or without the code-execution service.
pub fn system_info(integrated: bool, version: &str, timestamp: &str) -> (info: SystemInfo)
    ensures
        info.service@ == "forgecode-gateway"@,
        info.version@ == version@,
        info.status@ == "running"@,
        info.forgecode_integrated == integrated,
        info.timestamp@ == timestamp@,
{
    SystemInfo {
        service: String::from_str("forgecode-gateway"),
        version: version.to_string(),
        status: String::from_str("running"),
        forgecode_integrated: integrated,
        timestamp: timestamp.to_string(),
    }
}

} // verus!
