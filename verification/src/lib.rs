pub mod module;
pub mod recognizer;
pub mod watchdog;
pub mod workload;

use vstd::prelude::*;

verus! {

/// The version string reported by the daemon.
pub fn version() -> (v: &'static str)
    ensures
        v@ == "0.1.0"@,
{
    "0.1.0"
}

/// The banner lines the daemon announces itself with at start-up; the
/// process entry point writes them to its log sink.
pub fn log_banner() -> (lines: Vec<String>)
    ensures
        lines@.len() == 2,
        lines@[0]@ == "Starting Azure IoT Edge Security Daemon"@,
        lines@[1]@ == "Version - "@ + "0.1.0"@,
{
    let mut lines: Vec<String> = Vec::new();
    lines.push(String::from_str("Starting Azure IoT Edge Security Daemon"));
    let mut second = String::from_str("Version - ");
    second.append(version());
    lines.push(second);
    lines
}

} // verus!
