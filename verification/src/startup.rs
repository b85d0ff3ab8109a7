//! Process start-up decisions: server or CLI mode, where stdio diagnostics
//! go, and when admission results are echoed to stderr.

use vstd::prelude::*;
use crate::text::{is_blank, is_blank_str, str_eq, strings_view};

verus! {

/// Where diagnostics go when no override is set and stdin is not a terminal.
pub const DEFAULT_STDIO_LOG: &'static str = "/tmp/mcp-probe.log";

/// The process runs the MCP server: with no arguments, with a `server` or
/// `stdio` command, or when any argument is `--stdio`.
pub open spec fn runs_server(args: Seq<Seq<char>>) -> bool {
    args.len() == 0 || args[0] == "server"@ || args[0] == "stdio"@ || args.contains("--stdio"@)
}

/// Whether the process should run the MCP server rather than the CLI.
pub fn should_run_server(args: &[String], stdin_is_tty: bool) -> (r: bool)
    ensures
        r == runs_server(strings_view(args@)),
{
    if args.len() == 0 {
        return true;
    }
    let command = args[0].as_str();
    if str_eq(command, "server") || str_eq(command, "stdio") {
        return true;
    }
    let mut i: usize = 0;
    while i < args.len()
        invariant
            i <= args@.len(),
            forall|j: int| 0 <= j < i ==> args@[j]@ != "--stdio"@,
        decreases args@.len() - i,
    {
        if str_eq(args[i].as_str(), "--stdio") {
            assert(strings_view(args@)[i as int] == "--stdio"@);
            return true;
        }
        i = i + 1;
    }
    proof {
        if strings_view(args@).contains("--stdio"@) {
            let k = choose|k: int|
                0 <= k < strings_view(args@).len() && strings_view(args@)[k] == "--stdio"@;
            assert(args@[k]@ == "--stdio"@);
        }
    }
    false
}

/// The diagnostics log: an explicit path unless blank (which disables it),
/// else the default file when stdin is not a terminal.
pub open spec fn stdio_log_path(env_value: Option<Seq<char>>, stdin_is_tty: bool) -> Option<
    Seq<char>,
> {
    match env_value {
        Some(p) => if is_blank(p) {
            None
        } else {
            Some(p)
        },
        None => if stdin_is_tty {
            None
        } else {
            Some(DEFAULT_STDIO_LOG@)
        },
    }
}

/// Resolve the diagnostics log path from the value of the override
/// variable (if set) and whether stdin is a terminal.
pub fn resolve_stdio_log_path(env_value: Option<&str>, stdin_is_tty: bool) -> (r: Option<String>)
    ensures
        crate::text::opt_view(r) == stdio_log_path(
            match env_value {
                Some(v) => Some(v@),
                None => None,
            },
            stdin_is_tty,
        ),
{
    match env_value {
        Some(p) => {
            if is_blank_str(p) {
                None
            } else {
                Some(String::from_str(p))
            }
        },
        None => {
            if stdin_is_tty {
                None
            } else {
                Some(String::from_str(DEFAULT_STDIO_LOG))
            }
        },
    }
}

/// The start-up trace line goes out unless stdin is a terminal and no
/// trace was asked for.
pub fn should_log_startup(trace_requested: bool, stdin_is_tty: bool) -> (r: bool)
    ensures
        r == (trace_requested || !stdin_is_tty),
{
    trace_requested || !stdin_is_tty
}

/// The admission line is echoed to stderr when stdin is not a terminal, a
/// trace was asked for, or admission did not pass.
pub fn should_echo_admission(stdin_is_tty: bool, trace_requested: bool, passed: bool) -> (r: bool)
    ensures
        r == (!stdin_is_tty || trace_requested || !passed),
{
    !stdin_is_tty || trace_requested || !passed
}

} // verus!
