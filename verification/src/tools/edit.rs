//! Edit a file by replacing exactly one occurrence of a given text.
//! The file is changed only when the old text occurs exactly once;
//! zero occurrences or several leave the file untouched and report an
//! error.
use vstd::prelude::*;

use crate::json::{Json, JsonData};
use crate::text::{
    count_matches, count_occurrences, dec_rep, find_first, lemma_find_first_spec, replace_first,
    u128_string, u64_string,
};
use crate::tools::tool_result::ToolResult;
use crate::tools::{
    descriptor, missing_arg_msg, prefixed_error, schema_params, schema_prop, str_arg,
    ToolCommand,
};

verus! {

pub fn definition() -> (r: Json)
    ensures
        r@.get_str("type"@) == Some("function"@),
        r@.get_str("name"@) == Some("edit"@),
{
    let mut props: Vec<(String, Json)> = Vec::new();
    props.push((String::from_str("path"), schema_prop("string", "The file path to edit")));
    props.push(
        (
            String::from_str("old_text"),
            schema_prop(
                "string",
                "The exact text to find (must match exactly, must be unique in the file)",
            ),
        ),
    );
    props.push(
        (String::from_str("new_text"), schema_prop("string", "The text to replace it with")),
    );
    let mut required: Vec<String> = Vec::new();
    required.push(String::from_str("path"));
    required.push(String::from_str("old_text"));
    required.push(String::from_str("new_text"));
    descriptor(
        "edit",
        "Edit a file by replacing exact text. The old_text must match exactly including whitespace. Use read_file first to see the current content.",
        schema_params(props, required),
    )
}

/// The command that planning the call yields: the file to read before
/// deciding, or an error naming the first missing argument.
pub open spec fn planned(args: JsonData, r: ToolCommand) -> bool {
    match args.get_str("path"@) {
        Some(p) => match args.get_str("old_text"@) {
            Some(o) => match args.get_str("new_text"@) {
                Some(n) => r matches ToolCommand::EditRead { path, old_text, new_text } && path@
                    == p && old_text@ == o && new_text@ == n,
                None => r matches ToolCommand::Done { result } && result@.is_error
                    && result@.content == missing_arg_msg("new_text"@),
            },
            None => r matches ToolCommand::Done { result } && result@.is_error
                && result@.content == missing_arg_msg("old_text"@),
        },
        None => r matches ToolCommand::Done { result } && result@.is_error && result@.content
            == missing_arg_msg("path"@),
    }
}

pub fn plan(args: &Json) -> (r: ToolCommand)
    ensures
        planned(args@, r),
{
    let path = match str_arg(args, "path") {
        Ok(p) => p,
        Err(t) => {
            return ToolCommand::Done { result: t };
        },
    };
    let old_text = match str_arg(args, "old_text") {
        Ok(o) => o,
        Err(t) => {
            return ToolCommand::Done { result: t };
        },
    };
    let new_text = match str_arg(args, "new_text") {
        Ok(n) => n,
        Err(t) => {
            return ToolCommand::Done { result: t };
        },
    };
    ToolCommand::EditRead { path, old_text, new_text }
}

/// What applying the edit to the file's content decides: either a
/// finished error result, or the exact new content to write.
pub enum EditStep {
    Done { result: ToolResult },
    Write { path: String, content: String },
}

pub open spec fn not_found_msg() -> Seq<char> {
    "Error: old_text not found in file"@
}

pub open spec fn ambiguous_msg(n: nat) -> Seq<char> {
    "Error: old_text found "@ + dec_rep(n)
        + " times, include more surrounding context to make it unique"@
}

/// The decision on the file's content. When the old text occurs exactly
/// once, the new content is the old with the occurrence replaced and
/// every other character unchanged; zero or several occurrences, and a
/// failed read, decide an error and nothing is written.
pub open spec fn applied(
    path: Seq<char>,
    old_text: Seq<char>,
    new_text: Seq<char>,
    content: Result<Seq<char>, Seq<char>>,
    r: EditStep,
) -> bool {
    match content {
        Err(e) => r matches EditStep::Done { result } && result@.is_error && result@.content
            == "Error reading file: "@ + e,
        Ok(c) => {
            let n = count_matches(c, old_text);
            if n == 0 {
                r matches EditStep::Done { result } && result@.is_error && result@.content
                    == not_found_msg()
            } else if n == 1 {
                &&& find_first(c, old_text) matches Some(i)
                &&& r matches EditStep::Write { path: p, content: w } && p@ == path && w@
                    == c.take(find_first(c, old_text)->Some_0) + new_text + c.skip(
                    find_first(c, old_text)->Some_0 + old_text.len(),
                )
            } else {
                r matches EditStep::Done { result } && result@.is_error && result@.content
                    == ambiguous_msg(n)
            }
        },
    }
}

/// Decide the edit on the file's content as read.
pub fn apply(path: String, old_text: &str, new_text: &str, content: Result<String, String>) -> (r:
    EditStep)
    ensures
        ({
            let c = match content {
                Ok(c) => Ok::<Seq<char>, Seq<char>>(c@),
                Err(e) => Err(e@),
            };
            applied(path@, old_text@, new_text@, c, r)
        }),
{
    let c = match content {
        Ok(c) => c,
        Err(e) => {
            return EditStep::Done { result: prefixed_error("Error reading file: ", e.as_str()) };
        },
    };
    let old_len = old_text.unicode_len();
    let content_len = c.as_str().unicode_len();
    if old_len == 0 {
        if content_len == 0 {
            proof {
                lemma_find_first_spec(c@, old_text@);
                assert(c@.subrange(0, 0) =~= old_text@);
                crate::text::lemma_find_first_unique(c@, old_text@, 0);
            }
            let replaced = match replace_first(c.as_str(), old_text, new_text) {
                Some(w) => w,
                None => {
                    proof {
                        assert(false);
                    }
                    String::new()
                },
            };
            return EditStep::Write { path, content: replaced };
        }
        let mut msg = String::from_str("Error: old_text found ");
        let num = u128_string((content_len as u128) + 1);
        msg.append(num.as_str());
        msg.append(" times, include more surrounding context to make it unique");
        proof {
            assert(msg@ =~= ambiguous_msg(count_matches(c@, old_text@)));
        }
        return EditStep::Done { result: ToolResult::error(msg) };
    }
    let n = count_occurrences(c.as_str(), old_text);
    if n == 0 {
        proof {
            lemma_find_first_spec(c@, old_text@);
        }
        EditStep::Done { result: ToolResult::error(String::from_str(
            "Error: old_text not found in file",
        )) }
    } else if n == 1 {
        proof {
            lemma_find_first_spec(c@, old_text@);
        }
        let replaced = match replace_first(c.as_str(), old_text, new_text) {
            Some(w) => w,
            None => {
                proof {
                    assert(false);
                }
                String::new()
            },
        };
        EditStep::Write { path, content: replaced }
    } else {
        let mut msg = String::from_str("Error: old_text found ");
        let num = u64_string(n as u64);
        msg.append(num.as_str());
        msg.append(" times, include more surrounding context to make it unique");
        proof {
            assert(msg@ =~= ambiguous_msg(count_matches(c@, old_text@)));
        }
        EditStep::Done { result: ToolResult::error(msg) }
    }
}

/// The result of the write that carries the edit out: success names the
/// edited path; a failure is an error carrying the underlying message.
pub open spec fn written(
    path: Seq<char>,
    outcome: Result<(), Seq<char>>,
    result: crate::tools::tool_result::ToolResultData,
) -> bool {
    match outcome {
        Ok(_) => !result.is_error && result.content == "Successfully edited "@ + path,
        Err(e) => result.is_error && result.content == "Error writing file: "@ + e,
    }
}

pub fn after_write(path: &str, outcome: Result<(), String>) -> (r: ToolResult)
    ensures
        ({
            let o = match outcome {
                Ok(_) => Ok::<(), Seq<char>>(()),
                Err(e) => Err(e@),
            };
            written(path@, o, r@)
        }),
{
    match outcome {
        Ok(_) => {
            let mut msg = String::from_str("Successfully edited ");
            msg.append(path);
            ToolResult::success(msg)
        },
        Err(e) => prefixed_error("Error writing file: ", e.as_str()),
    }
}

} // verus!
