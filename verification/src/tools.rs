//! The tool registry and dispatcher: capability descriptors advertised
//! to the model, argument validation, and the pure halves of the seven
//! executors. Filesystem and process work is performed by the caller,
//! which receives a [`ToolCommand`] naming the work and hands each
//! outcome back to the executor's verified rendering function.
pub mod bash;
pub mod edit;
pub mod find;
pub mod grep;
pub mod ls;
pub mod read_file;
pub mod tool_result;
pub mod truncate;
pub mod write_file;

use vstd::prelude::*;

use crate::json::{fields_view, json_of, Json, JsonData};
use crate::text::is_prefix;
use tool_result::ToolResult;

verus! {

/// One outside program a search tool may run, with its arguments.
pub struct SearchCommand {
    pub program: String,
    pub args: Vec<String>,
}

/// Ghost model of a search command: the program and its arguments.
pub struct SearchCommandData {
    pub program: Seq<char>,
    pub args: Seq<Seq<char>>,
}

impl View for SearchCommand {
    type V = SearchCommandData;

    open spec fn view(&self) -> SearchCommandData {
        SearchCommandData { program: self.program@, args: self.args.deep_view() }
    }
}

impl DeepView for SearchCommand {
    type V = SearchCommandData;

    open spec fn deep_view(&self) -> SearchCommandData {
        self.view()
    }
}

/// What executing a tool requires of the caller: either the finished
/// result, or one piece of outside work whose outcome is handed back to
/// the tool's rendering function.
pub enum ToolCommand {
    /// No outside work is needed; the result stands.
    Done { result: ToolResult },
    /// Read the file, then call the reader's rendering function.
    ReadFile { path: String, offset: Option<u64>, limit: Option<u64> },
    /// List the directory, then call the listing's rendering function.
    ListDir { path: String },
    /// Write the file, then call the writer's rendering function.
    WriteFile { path: String, content: String },
    /// Read the file, then call the editor's `apply`.
    EditRead { path: String, old_text: String, new_text: String },
    /// Run the candidate programs in order until one starts, then call
    /// the content search's rendering function.
    Grep { programs: Vec<SearchCommand>, pattern: String },
    /// Run the candidate programs in order until one starts, then call
    /// the file search's rendering function.
    Find { programs: Vec<SearchCommand>, pattern: String },
    /// Run the shell command, then call the runner's rendering function.
    Run { command: String, timeout_secs: Option<u64> },
}

/// The message naming a missing required argument.
pub open spec fn missing_arg_msg(key: Seq<char>) -> Seq<char> {
    "Error: missing '"@ + key + "' argument"@
}

/// A required string argument: anything but a string under the key is
/// an error result naming the argument.
pub fn str_arg(args: &Json, key: &str) -> (r: Result<String, ToolResult>)
    ensures
        match r {
            Ok(s) => args@.get_str(key@) == Some(s@),
            Err(t) => args@.get_str(key@) is None && t@.is_error && t@.content
                == missing_arg_msg(key@),
        },
{
    match args.get_str(key) {
        Some(s) => Ok(s),
        None => {
            let mut msg = String::from_str("Error: missing '");
            msg.append(key);
            msg.append("' argument");
            proof {
                assert(msg@ =~= missing_arg_msg(key@));
            }
            Err(ToolResult::error(msg))
        },
    }
}

/// An optional string argument with a default.
pub fn opt_str_arg(args: &Json, key: &str, default: &str) -> (r: String)
    ensures
        r@ == match args@.get_str(key@) {
            Some(s) => s,
            None => default@,
        },
{
    match args.get_str(key) {
        Some(s) => s,
        None => default.to_owned(),
    }
}

/// An optional unsigned integer argument.
pub open spec fn u64_arg(args: JsonData, key: Seq<char>) -> Option<u64> {
    match args.get(key) {
        Some(v) => v.as_u64(),
        None => None,
    }
}

pub fn get_u64_arg(args: &Json, key: &str) -> (r: Option<u64>)
    ensures
        r == u64_arg(args@, key@),
{
    match args.get(key) {
        Some(v) => v.u64_value(),
        None => None,
    }
}

/// A capability descriptor: its kind tag, name, human-readable
/// description, and parameter schema.
pub fn descriptor(name: &str, description: &str, parameters: Json) -> (r: Json)
    ensures
        r@.get_str("type"@) == Some("function"@),
        r@.get_str("name"@) == Some(name@),
{
    let mut fields: Vec<(String, Json)> = Vec::new();
    fields.push((String::from_str("type"), Json::Str(String::from_str("function"))));
    fields.push((String::from_str("name"), Json::Str(name.to_owned())));
    fields.push((String::from_str("description"), Json::Str(description.to_owned())));
    fields.push((String::from_str("parameters"), parameters));
    let ghost fseq = fields@;
    proof {
        crate::json::lemma_fields_view_index(fseq);
    }
    let r = Json::Obj(fields);
    proof {
        reveal_strlit("type");
        reveal_strlit("name");
        let fv = fields_view(fseq);
        assert(r@ == JsonData::Obj(fv));
        assert(fv[0].0 == "type"@);
        assert("name"@[0] != "type"@[0]);
        assert(crate::json::fields_get(fv, "type"@) == Some(fv[0].1));
        assert(fv.drop_first()[0] == fv[1]);
        assert(fv[1].0 == "name"@);
        assert(crate::json::fields_get(fv, "name"@) == crate::json::fields_get(
            fv.drop_first(),
            "name"@,
        ));
        assert(crate::json::fields_get(fv.drop_first(), "name"@) == Some(fv.drop_first()[0].1));
    }
    r
}

/// An error result whose message is a fixed prefix followed by a text
/// the caller supplies, most often an underlying failure's rendering.
pub fn prefixed_error(prefix: &str, e: &str) -> (r: ToolResult)
    ensures
        r@.is_error,
        r@.content == prefix@ + e@,
        r@.details is None,
{
    let mut msg = prefix.to_owned();
    msg.append(e);
    ToolResult::error(msg)
}

/// One property of a JSON-schema-like parameter spec: its type and its
/// human-readable description. Advertisement data with no contract.
pub fn schema_prop(ty: &str, desc: &str) -> Json {
    let mut fields: Vec<(String, Json)> = Vec::new();
    fields.push((String::from_str("type"), Json::Str(ty.to_owned())));
    fields.push((String::from_str("description"), Json::Str(desc.to_owned())));
    Json::Obj(fields)
}

/// A parameter spec: an object schema over the given properties, with
/// the given required names. Advertisement data with no contract.
pub fn schema_params(props: Vec<(String, Json)>, required: Vec<String>) -> Json {
    let mut fields: Vec<(String, Json)> = Vec::new();
    fields.push((String::from_str("type"), Json::Str(String::from_str("object"))));
    fields.push((String::from_str("properties"), Json::Obj(props)));
    if required.len() > 0 {
        let mut names: Vec<Json> = Vec::new();
        let n = required.len();
        let mut i: usize = 0;
        while i < n
            invariant
                0 <= i <= n,
                n == required.len(),
            decreases n - i,
        {
            names.push(Json::Str(required[i].clone()));
            i += 1;
        }
        fields.push((String::from_str("required"), Json::Arr(names)));
    }
    Json::Obj(fields)
}

/// The descriptors of every capability, in the order they are
/// advertised.
pub fn definitions() -> (r: Vec<Json>)
    ensures
        r@.len() == 7,
        r@[0]@.get_str("name"@) == Some("read_file"@),
        r@[1]@.get_str("name"@) == Some("ls"@),
        r@[2]@.get_str("name"@) == Some("write_file"@),
        r@[3]@.get_str("name"@) == Some("edit"@),
        r@[4]@.get_str("name"@) == Some("grep"@),
        r@[5]@.get_str("name"@) == Some("find"@),
        r@[6]@.get_str("name"@) == Some("bash"@),
        forall|i: int| 0 <= i < 7 ==> #[trigger] r@[i]@.get_str("type"@) == Some("function"@),
{
    let mut r: Vec<Json> = Vec::new();
    r.push(read_file::definition());
    r.push(ls::definition());
    r.push(write_file::definition());
    r.push(edit::definition());
    r.push(grep::definition());
    r.push(find::definition());
    r.push(bash::definition());
    r
}

/// The message naming an unknown tool.
pub open spec fn unknown_tool_msg(name: Seq<char>) -> Seq<char> {
    "Unknown tool: "@ + name
}

/// The prefix of the message reporting unparseable arguments.
pub open spec fn bad_args_prefix() -> Seq<char> {
    "Error parsing arguments: "@
}

/// Map a capability name and its raw argument text to the work the
/// call requires. Arguments that are not one JSON value give an error
/// result; an unknown name gives an error result naming it; each known
/// tool's own planning contract governs its case.
pub fn execute(name: &str, arguments: &str) -> (r: ToolCommand)
    ensures
        json_of(arguments@) is None ==> (r matches ToolCommand::Done { result }
            && result@.is_error && is_prefix(result@.content, bad_args_prefix())),
        json_of(arguments@) matches Some(args) ==> {
            &&& name@ == "read_file"@ ==> read_file::planned(args, r)
            &&& name@ == "ls"@ ==> ls::planned(args, r)
            &&& name@ == "write_file"@ ==> write_file::planned(args, r)
            &&& name@ == "edit"@ ==> edit::planned(args, r)
            &&& name@ == "grep"@ ==> grep::planned(args, r)
            &&& name@ == "find"@ ==> find::planned(args, r)
            &&& name@ == "bash"@ ==> bash::planned(args, r)
            &&& !(name@ == "read_file"@ || name@ == "ls"@ || name@ == "write_file"@ || name@
                == "edit"@ || name@ == "grep"@ || name@ == "find"@ || name@ == "bash"@)
                ==> (r matches ToolCommand::Done { result } && result@.is_error
                && result@.content == unknown_tool_msg(name@))
        },
{
    proof {
        reveal_strlit("read_file");
        reveal_strlit("ls");
        reveal_strlit("write_file");
        reveal_strlit("edit");
        reveal_strlit("grep");
        reveal_strlit("find");
        reveal_strlit("bash");
        assert("read_file"@.len() == 9 && "ls"@.len() == 2 && "write_file"@.len() == 10);
        assert("edit"@.len() == 4 && "grep"@.len() == 4 && "find"@.len() == 4 && "bash"@.len()
            == 4);
        assert("edit"@[0] == 'e' && "grep"@[0] == 'g' && "find"@[0] == 'f' && "bash"@[0] == 'b');
    }
    let args = match crate::json::parse_json(arguments) {
        Some(v) => v,
        None => {
            let mut msg = String::from_str("Error parsing arguments: ");
            msg.append("the text is not one JSON value");
            proof {
                let p = bad_args_prefix();
                assert(msg@.subrange(0, p.len() as int) =~= p);
            }
            return ToolCommand::Done { result: ToolResult::error(msg) };
        },
    };
    if crate::text::str_eq(name, "read_file") {
        read_file::plan(&args)
    } else if crate::text::str_eq(name, "ls") {
        ls::plan(&args)
    } else if crate::text::str_eq(name, "write_file") {
        write_file::plan(&args)
    } else if crate::text::str_eq(name, "edit") {
        edit::plan(&args)
    } else if crate::text::str_eq(name, "grep") {
        grep::plan(&args)
    } else if crate::text::str_eq(name, "find") {
        find::plan(&args)
    } else if crate::text::str_eq(name, "bash") {
        bash::plan(&args)
    } else {
        let mut msg = String::from_str("Unknown tool: ");
        msg.append(name);
        proof {
            assert(msg@ =~= unknown_tool_msg(name@));
        }
        ToolCommand::Done { result: ToolResult::error(msg) }
    }
}

} // verus!
