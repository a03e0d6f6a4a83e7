//! Run a shell command and report its output: stdout and stderr are
//! combined, oversized output is tail-truncated so the most recent
//! lines survive, and an optional timeout in seconds is enforced by the
//! caller killing the process.
use vstd::prelude::*;

use crate::json::{Json, JsonData};
use crate::text::{dec_rep, dec_rep_signed, i64_string, u64_string};
use crate::tools::tool_result::ToolResult;
use crate::tools::truncate::{tail, tail_spec};
use crate::tools::{
    descriptor, missing_arg_msg, prefixed_error, schema_params, schema_prop, str_arg,
    ToolCommand,
};

verus! {

pub fn definition() -> (r: Json)
    ensures
        r@.get_str("type"@) == Some("function"@),
        r@.get_str("name"@) == Some("bash"@),
{
    let mut props: Vec<(String, Json)> = Vec::new();
    props.push(
        (String::from_str("command"), schema_prop("string", "The shell command to execute")),
    );
    props.push(
        (
            String::from_str("timeout"),
            schema_prop("integer", "Timeout in seconds (optional, no default timeout)"),
        ),
    );
    let mut required: Vec<String> = Vec::new();
    required.push(String::from_str("command"));
    descriptor(
        "bash",
        "Execute a shell command and return its output. Output is truncated to the last 2000 lines or 50KB. Optionally provide timeout in seconds.",
        schema_params(props, required),
    )
}

pub open spec fn bad_timeout_msg() -> Seq<char> {
    "Error: 'timeout' must be a positive integer"@
}

/// The timeout the arguments ask for: absent or null means none; a
/// positive integer is taken in seconds; anything else is rejected.
pub open spec fn timeout_of(args: JsonData) -> Result<Option<u64>, ()> {
    match args.get("timeout"@) {
        None => Ok(None),
        Some(JsonData::Null) => Ok(None),
        Some(v) => match v.as_u64() {
            Some(s) => if s > 0 {
                Ok(Some(s))
            } else {
                Err(())
            },
            None => Err(()),
        },
    }
}

/// The command that planning the call yields: the shell command with
/// its optional timeout, or an error for a missing command or an
/// unusable timeout.
pub open spec fn planned(args: JsonData, r: ToolCommand) -> bool {
    match args.get_str("command"@) {
        Some(c) => match timeout_of(args) {
            Ok(t) => r matches ToolCommand::Run { command, timeout_secs } && command@ == c
                && timeout_secs == t,
            Err(_) => r matches ToolCommand::Done { result } && result@.is_error
                && result@.content == bad_timeout_msg(),
        },
        None => r matches ToolCommand::Done { result } && result@.is_error && result@.content
            == missing_arg_msg("command"@),
    }
}

pub fn plan(args: &Json) -> (r: ToolCommand)
    ensures
        planned(args@, r),
{
    let command = match str_arg(args, "command") {
        Ok(c) => c,
        Err(t) => {
            return ToolCommand::Done { result: t };
        },
    };
    let timeout_secs: Option<u64> = match args.get("timeout") {
        None => None,
        Some(v) => {
            if v.is_null() {
                None
            } else {
                match v.u64_value() {
                    Some(s) if s > 0 => Some(s),
                    _ => {
                        return ToolCommand::Done {
                            result: ToolResult::error(
                                String::from_str("Error: 'timeout' must be a positive integer"),
                            ),
                        };
                    },
                }
            }
        },
    };
    ToolCommand::Run { command, timeout_secs }
}

/// What running the command produced, as the caller observed it.
pub struct CommandOutcome {
    pub success: bool,
    pub exit_code: i64,
    pub timed_out: bool,
    pub stdout: String,
    pub stderr: String,
}

/// Standard output followed by standard error: the error stream, when
/// present, comes on its own line under a marker.
pub open spec fn combined_spec(stdout: Seq<char>, stderr: Seq<char>) -> Seq<char> {
    if stderr.len() == 0 {
        stdout
    } else if stdout.len() == 0 {
        "stderr: "@ + stderr
    } else {
        stdout + "\n"@ + "stderr: "@ + stderr
    }
}

/// Combine the two captured output streams.
pub fn combine_streams(stdout: &str, stderr: &str) -> (r: String)
    ensures
        r@ == combined_spec(stdout@, stderr@),
{
    let mut r = String::new();
    if stdout.unicode_len() > 0 {
        r.append(stdout);
    }
    if stderr.unicode_len() > 0 {
        if r.as_str().unicode_len() > 0 {
            r.append("\n");
        }
        r.append("stderr: ");
        r.append(stderr);
    }
    proof {
        assert(r@ =~= combined_spec(stdout@, stderr@));
    }
    r
}

/// The message reporting an enforced timeout, with the combined output
/// tail-truncated under it when there was any.
pub open spec fn timeout_error_spec(timeout_secs: Option<u64>, result: Seq<char>) -> Seq<char> {
    let headline = match timeout_secs {
        Some(s) => "Error: command timed out after "@ + dec_rep(s as nat) + " seconds"@,
        None => "Error: command timed out"@,
    };
    if result.len() == 0 {
        headline
    } else {
        headline + "\n"@ + tail_spec(result)
    }
}

/// Render the timeout report.
pub fn format_timeout_error(timeout_secs: Option<u64>, result: &str) -> (r: String)
    ensures
        r@ == timeout_error_spec(timeout_secs, result@),
{
    let mut r = match timeout_secs {
        Some(s) => {
            let mut h = String::from_str("Error: command timed out after ");
            let num = u64_string(s);
            h.append(num.as_str());
            h.append(" seconds");
            h
        },
        None => String::from_str("Error: command timed out"),
    };
    if result.unicode_len() == 0 {
        proof {
            assert(r@ =~= timeout_error_spec(timeout_secs, result@));
        }
        return r;
    }
    r.append("\n");
    let t = tail(result);
    r.append(t.as_str());
    proof {
        assert(r@ =~= timeout_error_spec(timeout_secs, result@));
    }
    r
}

pub open spec fn exit_code_msg(code: int) -> Seq<char> {
    "Error: command exited with code "@ + dec_rep_signed(code)
}

/// The result of the run. A timeout is an error naming the limit with
/// the output kept under it. A non-zero exit is an error naming the
/// code, with the output tail-truncated under it when there was any.
/// Success carries the tail-truncated output, or names the exit code
/// when there was none. A command that could not be started is an error
/// carrying the underlying message.
pub open spec fn rendered(
    timeout_secs: Option<u64>,
    outcome: Result<CommandOutcome, Seq<char>>,
    result: crate::tools::tool_result::ToolResultData,
) -> bool {
    match outcome {
        Err(e) => result.is_error && result.content == "Error: "@ + e,
        Ok(o) => {
            let combined = combined_spec(o.stdout@, o.stderr@);
            if o.timed_out {
                result.is_error && result.content == timeout_error_spec(timeout_secs, combined)
            } else if !o.success {
                if combined.len() == 0 {
                    result.is_error && result.content == exit_code_msg(o.exit_code as int)
                } else {
                    result.is_error && result.content == exit_code_msg(o.exit_code as int)
                        + "\n"@ + tail_spec(combined)
                }
            } else {
                if combined.len() == 0 {
                    !result.is_error && result.content == "Command exited with code "@
                        + dec_rep_signed(o.exit_code as int)
                } else {
                    !result.is_error && result.content == tail_spec(combined)
                }
            }
        },
    }
}

pub fn render(timeout_secs: Option<u64>, outcome: Result<CommandOutcome, String>) -> (r:
    ToolResult)
    ensures
        ({
            let o = match outcome {
                Ok(o) => Ok::<CommandOutcome, Seq<char>>(o),
                Err(e) => Err(e@),
            };
            rendered(timeout_secs, o, r@)
        }),
{
    let o = match outcome {
        Ok(o) => o,
        Err(e) => {
            return prefixed_error("Error: ", e.as_str());
        },
    };
    let combined = combine_streams(o.stdout.as_str(), o.stderr.as_str());
    if o.timed_out {
        return ToolResult::error(format_timeout_error(timeout_secs, combined.as_str()));
    }
    if !o.success {
        let mut msg = String::from_str("Error: command exited with code ");
        let num = i64_string(o.exit_code);
        msg.append(num.as_str());
        if combined.as_str().unicode_len() == 0 {
            proof {
                assert(msg@ =~= exit_code_msg(o.exit_code as int));
            }
            return ToolResult::error(msg);
        }
        msg.append("\n");
        let t = tail(combined.as_str());
        msg.append(t.as_str());
        proof {
            assert(msg@ =~= exit_code_msg(o.exit_code as int) + "\n"@ + tail_spec(
                combined_spec(o.stdout@, o.stderr@),
            ));
        }
        return ToolResult::error(msg);
    }
    if combined.as_str().unicode_len() == 0 {
        let mut msg = String::from_str("Command exited with code ");
        let num = i64_string(o.exit_code);
        msg.append(num.as_str());
        return ToolResult::success(msg);
    }
    ToolResult::success(tail(combined.as_str()))
}

} // verus!
