//! Find files by name pattern, recursively: a fast outside finder is
//! tried first, with the standard one as fallback; results come back
//! head-truncated.
use vstd::prelude::*;

use crate::json::{Json, JsonData};
use crate::tools::tool_result::ToolResult;
use crate::tools::truncate::{head, head_spec};
use crate::tools::{
    descriptor, missing_arg_msg, opt_str_arg, prefixed_error, schema_params, schema_prop,
    str_arg, SearchCommand, ToolCommand,
};

verus! {

pub fn definition() -> (r: Json)
    ensures
        r@.get_str("type"@) == Some("function"@),
        r@.get_str("name"@) == Some("find"@),
{
    let mut props: Vec<(String, Json)> = Vec::new();
    props.push(
        (
            String::from_str("pattern"),
            schema_prop(
                "string",
                "The filename pattern to match (e.g. '*.rs', 'main.*')",
            ),
        ),
    );
    props.push(
        (
            String::from_str("path"),
            schema_prop(
                "string",
                "The directory to search in. Defaults to current directory.",
            ),
        ),
    );
    let mut required: Vec<String> = Vec::new();
    required.push(String::from_str("pattern"));
    descriptor(
        "find",
        "Find files by name pattern. Searches recursively in the given directory.",
        schema_params(props, required),
    )
}

/// The candidate programs, in the order they are tried: the fast finder
/// matching globs, then the standard one matching names.
pub open spec fn programs_spec(pattern: Seq<char>, path: Seq<char>, programs: Seq<
    crate::tools::SearchCommandData,
>) -> bool {
    &&& programs.len() == 2
    &&& programs[0].program == "fd"@
    &&& programs[0].args =~= seq!["--glob"@, pattern, path]
    &&& programs[1].program == "find"@
    &&& programs[1].args =~= seq![path, "-name"@, pattern]
}

/// The command that planning the call yields: the candidate programs
/// over the pattern and path, or an error naming a missing pattern.
pub open spec fn planned(args: JsonData, r: ToolCommand) -> bool {
    match args.get_str("pattern"@) {
        Some(pt) => {
            let pa = match args.get_str("path"@) {
                Some(s) => s,
                None => "."@,
            };
            r matches ToolCommand::Find { programs, pattern } && pattern@ == pt && programs_spec(
                pt,
                pa,
                programs.deep_view(),
            )
        },
        None => r matches ToolCommand::Done { result } && result@.is_error && result@.content
            == missing_arg_msg("pattern"@),
    }
}

pub fn plan(args: &Json) -> (r: ToolCommand)
    ensures
        planned(args@, r),
{
    let pattern = match str_arg(args, "pattern") {
        Ok(p) => p,
        Err(t) => {
            return ToolCommand::Done { result: t };
        },
    };
    let path = opt_str_arg(args, "path", ".");
    let mut fd_args: Vec<String> = Vec::new();
    fd_args.push(String::from_str("--glob"));
    fd_args.push(pattern.clone());
    fd_args.push(path.clone());
    let mut find_args: Vec<String> = Vec::new();
    find_args.push(path);
    find_args.push(String::from_str("-name"));
    find_args.push(pattern.clone());
    let mut programs: Vec<SearchCommand> = Vec::new();
    programs.push(SearchCommand { program: String::from_str("fd"), args: fd_args });
    programs.push(SearchCommand { program: String::from_str("find"), args: find_args });
    ToolCommand::Find { programs, pattern }
}

pub open spec fn no_files_msg(pattern: Seq<char>) -> Seq<char> {
    "No files found matching '"@ + pattern + "'"@
}

pub open spec fn find_label() -> Seq<char> {
    "results remaining"@
}

/// The result of the search: empty output is a success naming the
/// pattern, any output is head-truncated; when no candidate program
/// could start, the error carries the underlying message.
pub open spec fn rendered(
    pattern: Seq<char>,
    output: Result<Seq<char>, Seq<char>>,
    result: crate::tools::tool_result::ToolResultData,
) -> bool {
    match output {
        Err(e) => result.is_error && result.content == "Error: "@ + e,
        Ok(out) => {
            if out.len() == 0 {
                !result.is_error && result.content == no_files_msg(pattern)
            } else {
                !result.is_error && result.content == head_spec(out, 1000, find_label())
            }
        },
    }
}

pub fn render(pattern: &str, output: Result<String, String>) -> (r: ToolResult)
    ensures
        ({
            let o = match output {
                Ok(out) => Ok::<Seq<char>, Seq<char>>(out@),
                Err(e) => Err(e@),
            };
            rendered(pattern@, o, r@)
        }),
{
    match output {
        Err(e) => prefixed_error("Error: ", e.as_str()),
        Ok(out) => {
            if out.as_str().unicode_len() == 0 {
                let mut msg = String::from_str("No files found matching '");
                msg.append(pattern);
                msg.append("'");
                proof {
                    assert(msg@ =~= no_files_msg(pattern@));
                }
                ToolResult::success(msg)
            } else {
                ToolResult::success(head(out.as_str(), 1000, "results remaining"))
            }
        },
    }
}

} // verus!
