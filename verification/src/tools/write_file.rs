//! Create or overwrite a file with the given content.
use vstd::prelude::*;

use crate::json::{Json, JsonData};
use crate::tools::tool_result::ToolResult;
use crate::tools::{
    descriptor, missing_arg_msg, prefixed_error, schema_params, schema_prop, str_arg,
    ToolCommand,
};

verus! {

pub fn definition() -> (r: Json)
    ensures
        r@.get_str("type"@) == Some("function"@),
        r@.get_str("name"@) == Some("write_file"@),
{
    let mut props: Vec<(String, Json)> = Vec::new();
    props.push((String::from_str("path"), schema_prop("string", "The file path to write to")));
    props.push(
        (
            String::from_str("content"),
            schema_prop("string", "The content to write to the file"),
        ),
    );
    let mut required: Vec<String> = Vec::new();
    required.push(String::from_str("path"));
    required.push(String::from_str("content"));
    descriptor(
        "write_file",
        "Write content to a file, creating it if it doesn't exist or overwriting if it does",
        schema_params(props, required),
    )
}

/// The command that planning the call yields: the file and the whole
/// content to write, or an error naming the first missing argument.
pub open spec fn planned(args: JsonData, r: ToolCommand) -> bool {
    match args.get_str("path"@) {
        Some(p) => match args.get_str("content"@) {
            Some(c) => r matches ToolCommand::WriteFile { path, content } && path@ == p
                && content@ == c,
            None => r matches ToolCommand::Done { result } && result@.is_error
                && result@.content == missing_arg_msg("content"@),
        },
        None => r matches ToolCommand::Done { result } && result@.is_error && result@.content
            == missing_arg_msg("path"@),
    }
}

pub fn plan(args: &Json) -> (r: ToolCommand)
    ensures
        planned(args@, r),
{
    let path = match str_arg(args, "path") {
        Ok(p) => p,
        Err(t) => {
            return ToolCommand::Done { result: t };
        },
    };
    let content = match str_arg(args, "content") {
        Ok(c) => c,
        Err(t) => {
            return ToolCommand::Done { result: t };
        },
    };
    ToolCommand::WriteFile { path, content }
}

/// The result of the write: success names the path written; a failure
/// is an error carrying the underlying message.
pub open spec fn rendered(
    path: Seq<char>,
    outcome: Result<(), Seq<char>>,
    result: crate::tools::tool_result::ToolResultData,
) -> bool {
    match outcome {
        Ok(_) => !result.is_error && result.content == "Successfully wrote to "@ + path,
        Err(e) => result.is_error && result.content == "Error: "@ + e,
    }
}

pub fn render(path: &str, outcome: Result<(), String>) -> (r: ToolResult)
    ensures
        ({
            let o = match outcome {
                Ok(_) => Ok::<(), Seq<char>>(()),
                Err(e) => Err(e@),
            };
            rendered(path@, o, r@)
        }),
{
    match outcome {
        Ok(_) => {
            let mut msg = String::from_str("Successfully wrote to ");
            msg.append(path);
            ToolResult::success(msg)
        },
        Err(e) => prefixed_error("Error: ", e.as_str()),
    }
}

} // verus!
