//! Read a file and hand back a 1-indexed line window of it, with head
//! truncation.
use vstd::prelude::*;

use crate::json::{Json, JsonData};
use crate::text::{dec_rep, lines_of, seq_join, join_with, lines_vec, u64_string};
use crate::tools::tool_result::ToolResult;
use crate::tools::truncate::{head, head_spec};
use crate::tools::{
    descriptor, get_u64_arg, missing_arg_msg, prefixed_error, schema_params, schema_prop,
    str_arg, u64_arg, ToolCommand,
};

verus! {

pub fn definition() -> (r: Json)
    ensures
        r@.get_str("type"@) == Some("function"@),
        r@.get_str("name"@) == Some("read_file"@),
{
    let mut props: Vec<(String, Json)> = Vec::new();
    props.push((String::from_str("path"), schema_prop("string", "The file path to read")));
    props.push(
        (
            String::from_str("offset"),
            schema_prop("integer", "Line number to start reading from (1-indexed)"),
        ),
    );
    props.push(
        (String::from_str("limit"), schema_prop("integer", "Maximum number of lines to read")),
    );
    let mut required: Vec<String> = Vec::new();
    required.push(String::from_str("path"));
    descriptor(
        "read_file",
        "Read the contents of a file. Output is truncated to 2000 lines or 50KB. Use offset/limit for large files.",
        schema_params(props, required),
    )
}

/// The command that planning the call yields: the file to read along
/// with the raw window arguments, or an error naming a missing path.
pub open spec fn planned(args: JsonData, r: ToolCommand) -> bool {
    match args.get_str("path"@) {
        Some(p) => r matches ToolCommand::ReadFile { path, offset, limit } && path@ == p && offset
            == u64_arg(args, "offset"@) && limit == u64_arg(args, "limit"@),
        None => r matches ToolCommand::Done { result } && result@.is_error && result@.content
            == missing_arg_msg("path"@),
    }
}

pub fn plan(args: &Json) -> (r: ToolCommand)
    ensures
        planned(args@, r),
{
    let path = match str_arg(args, "path") {
        Ok(p) => p,
        Err(t) => {
            return ToolCommand::Done { result: t };
        },
    };
    let offset = get_u64_arg(args, "offset");
    let limit = get_u64_arg(args, "limit");
    ToolCommand::ReadFile { path, offset, limit }
}

/// The 0-indexed first line of the window: a 1-indexed offset moved
/// down by one; an absent offset, a zero offset, or one too large for
/// the machine's indices starts at the beginning.
pub open spec fn window_start(offset: Option<u64>) -> int {
    match offset {
        Some(o) => if o == 0 {
            0
        } else if o - 1 <= usize::MAX {
            o - 1
        } else {
            0
        },
        None => 0,
    }
}

/// The line after the last of the window: the start moved up by the
/// limit, capped at the line count; an absent limit, or one too large
/// for the machine's indices, keeps everything.
pub open spec fn window_end(limit: Option<u64>, start: int, total: int) -> int {
    match limit {
        Some(l) => if l <= usize::MAX {
            if start + l < total {
                start + l
            } else {
                total
            }
        } else {
            total
        },
        None => total,
    }
}

pub open spec fn offset_error_msg(start: int, total: int) -> Seq<char> {
    "Error: offset "@ + dec_rep(start as nat) + " is beyond end of file ("@ + dec_rep(
        total as nat,
    ) + " lines)"@
}

pub open spec fn read_label() -> Seq<char> {
    "lines remaining, use offset to read more"@
}

/// The result of the read: the windowed lines joined by newlines and
/// head-truncated on success; a read failure or an offset past the end
/// of the file is an error naming it.
pub open spec fn rendered(
    offset: Option<u64>,
    limit: Option<u64>,
    content: Result<Seq<char>, Seq<char>>,
    result: crate::tools::tool_result::ToolResultData,
) -> bool {
    match content {
        Err(e) => result.is_error && result.content == "Error: "@ + e,
        Ok(c) => {
            let ls = lines_of(c);
            let start = window_start(offset);
            if start >= ls.len() {
                result.is_error && result.content == offset_error_msg(start, ls.len() as int)
            } else {
                let end = window_end(limit, start, ls.len() as int);
                &&& !result.is_error
                &&& result.content == head_spec(
                    seq_join(ls.subrange(start, end), seq!['\n']),
                    2000,
                    read_label(),
                )
            }
        },
    }
}

pub fn render(offset: Option<u64>, limit: Option<u64>, content: Result<String, String>) -> (r:
    ToolResult)
    ensures
        ({
            let c = match content {
                Ok(c) => Ok::<Seq<char>, Seq<char>>(c@),
                Err(e) => Err(e@),
            };
            rendered(offset, limit, c, r@)
        }),
{
    let c = match content {
        Ok(c) => c,
        Err(e) => {
            return prefixed_error("Error: ", e.as_str());
        },
    };
    let lines = lines_vec(c.as_str());
    let total = lines.len();
    let start: usize = match offset {
        None => 0,
        Some(o) => {
            if o == 0 {
                0
            } else {
                let om1 = o - 1;
                if om1 <= (usize::MAX as u64) {
                    om1 as usize
                } else {
                    0
                }
            }
        },
    };
    if start >= total {
        let mut msg = String::from_str("Error: offset ");
        let snum = u64_string(start as u64);
        msg.append(snum.as_str());
        msg.append(" is beyond end of file (");
        let tnum = u64_string(total as u64);
        msg.append(tnum.as_str());
        msg.append(" lines)");
        proof {
            assert(msg@ =~= offset_error_msg(start as int, lines.deep_view().len() as int));
        }
        return ToolResult::error(msg);
    }
    let end: usize = match limit {
        None => total,
        Some(l) => {
            if l <= (usize::MAX as u64) {
                let lu = l as usize;
                if lu > total - start {
                    total
                } else {
                    start + lu
                }
            } else {
                total
            }
        },
    };
    let mut kept: Vec<String> = Vec::new();
    let mut t: usize = start;
    while t < end
        invariant
            start <= t <= end <= total,
            total == lines.len(),
            kept@.len() == t - start,
            forall|u: int| 0 <= u < t - start ==> kept@[u]@ == lines.deep_view()[start + u],
        decreases end - t,
    {
        kept.push(lines[t].clone());
        t += 1;
    }
    proof {
        assert(kept.deep_view() =~= lines.deep_view().subrange(start as int, end as int));
    }
    let joined = join_with(&kept, "\n");
    proof {
        reveal_strlit("\n");
        assert("\n"@ =~= seq!['\n']);
    }
    let truncated = head(joined.as_str(), 2000, "lines remaining, use offset to read more");
    ToolResult::success(truncated)
}

} // verus!
