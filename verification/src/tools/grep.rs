//! Search file contents for a pattern: a fast outside matcher is tried
//! first, with a standard one as fallback; matching lines come back
//! with file and line prefixes, head-truncated.
use vstd::prelude::*;

use crate::json::{Json, JsonData};
use crate::tools::tool_result::ToolResult;
use crate::tools::truncate::{head, head_spec};
use crate::tools::{
    descriptor, missing_arg_msg, opt_str_arg, prefixed_error, schema_params, schema_prop,
    str_arg, SearchCommand, ToolCommand,
};

verus! {

pub fn definition() -> (r: Json)
    ensures
        r@.get_str("type"@) == Some("function"@),
        r@.get_str("name"@) == Some("grep"@),
{
    let mut props: Vec<(String, Json)> = Vec::new();
    props.push(
        (String::from_str("pattern"), schema_prop("string", "The text pattern to search for")),
    );
    props.push(
        (
            String::from_str("path"),
            schema_prop(
                "string",
                "The directory to search in. Defaults to current directory.",
            ),
        ),
    );
    let mut required: Vec<String> = Vec::new();
    required.push(String::from_str("pattern"));
    descriptor(
        "grep",
        "Search for a text pattern in files within a directory. Returns matching lines with file paths and line numbers.",
        schema_params(props, required),
    )
}

/// The candidate programs, in the order they are tried: the fast
/// matcher with line numbers and no heading, then the standard one
/// recursing with line numbers.
pub open spec fn programs_spec(pattern: Seq<char>, path: Seq<char>, programs: Seq<
    crate::tools::SearchCommandData,
>) -> bool {
    &&& programs.len() == 2
    &&& programs[0].program == "rg"@
    &&& programs[0].args =~= seq!["-n"@, "--no-heading"@, pattern, path]
    &&& programs[1].program == "grep"@
    &&& programs[1].args =~= seq!["-rn"@, pattern, path]
}

/// The command that planning the call yields: the candidate programs
/// over the pattern and path, or an error naming a missing pattern.
pub open spec fn planned(args: JsonData, r: ToolCommand) -> bool {
    match args.get_str("pattern"@) {
        Some(pt) => {
            let pa = match args.get_str("path"@) {
                Some(s) => s,
                None => "."@,
            };
            r matches ToolCommand::Grep { programs, pattern } && pattern@ == pt && programs_spec(
                pt,
                pa,
                programs.deep_view(),
            )
        },
        None => r matches ToolCommand::Done { result } && result@.is_error && result@.content
            == missing_arg_msg("pattern"@),
    }
}

pub fn plan(args: &Json) -> (r: ToolCommand)
    ensures
        planned(args@, r),
{
    let pattern = match str_arg(args, "pattern") {
        Ok(p) => p,
        Err(t) => {
            return ToolCommand::Done { result: t };
        },
    };
    let path = opt_str_arg(args, "path", ".");
    let mut rg_args: Vec<String> = Vec::new();
    rg_args.push(String::from_str("-n"));
    rg_args.push(String::from_str("--no-heading"));
    rg_args.push(pattern.clone());
    rg_args.push(path.clone());
    let mut grep_args: Vec<String> = Vec::new();
    grep_args.push(String::from_str("-rn"));
    grep_args.push(pattern.clone());
    grep_args.push(path);
    let mut programs: Vec<SearchCommand> = Vec::new();
    programs.push(SearchCommand { program: String::from_str("rg"), args: rg_args });
    programs.push(SearchCommand { program: String::from_str("grep"), args: grep_args });
    ToolCommand::Grep { programs, pattern }
}

pub open spec fn no_matches_msg(pattern: Seq<char>) -> Seq<char> {
    "No matches found for '"@ + pattern + "'"@
}

pub open spec fn grep_label() -> Seq<char> {
    "matches remaining"@
}

/// The result of the search: empty output is a success naming the
/// pattern, any output is head-truncated; when no candidate program
/// could start, the error carries the underlying message.
pub open spec fn rendered(
    pattern: Seq<char>,
    output: Result<Seq<char>, Seq<char>>,
    result: crate::tools::tool_result::ToolResultData,
) -> bool {
    match output {
        Err(e) => result.is_error && result.content == "Error: "@ + e,
        Ok(out) => {
            if out.len() == 0 {
                !result.is_error && result.content == no_matches_msg(pattern)
            } else {
                !result.is_error && result.content == head_spec(out, 100, grep_label())
            }
        },
    }
}

pub fn render(pattern: &str, output: Result<String, String>) -> (r: ToolResult)
    ensures
        ({
            let o = match output {
                Ok(out) => Ok::<Seq<char>, Seq<char>>(out@),
                Err(e) => Err(e@),
            };
            rendered(pattern@, o, r@)
        }),
{
    match output {
        Err(e) => prefixed_error("Error: ", e.as_str()),
        Ok(out) => {
            if out.as_str().unicode_len() == 0 {
                let mut msg = String::from_str("No matches found for '");
                msg.append(pattern);
                msg.append("'");
                proof {
                    assert(msg@ =~= no_matches_msg(pattern@));
                }
                ToolResult::success(msg)
            } else {
                ToolResult::success(head(out.as_str(), 100, "matches remaining"))
            }
        },
    }
}

} // verus!
