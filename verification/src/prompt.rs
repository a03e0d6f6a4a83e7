//! The system instructions handed to the model on every request: a
//! fixed briefing, the clock, the working directory, and the
//! project-specific context gathered from instruction files the caller
//! found on the way up from the working directory.
use vstd::prelude::*;

use crate::text::{dec_rep, seq_join, join_with, u64_string};

verus! {

/// One gathered instruction file, rendered as a heading with its path
/// over its content.
pub open spec fn section_text(path: Seq<char>, content: Seq<char>) -> Seq<char> {
    "## "@ + path + "\n\n"@ + content
}

/// The project context block: nothing when no instruction file was
/// found, otherwise the rendered files joined by blank lines under a
/// banner.
pub open spec fn agents_context_spec(sections: Seq<(Seq<char>, Seq<char>)>) -> Seq<char> {
    if sections.len() == 0 {
        Seq::empty()
    } else {
        "\n\nProject-specific instructions and guidelines (AGENTS.md):\n\n"@ + seq_join(
            sections.map_values(|s: (Seq<char>, Seq<char>)| section_text(s.0, s.1)),
            "\n\n"@,
        )
    }
}

/// Render the project context from the instruction files the caller
/// read, each a path with its content, in the order found from the
/// root down.
pub fn build_agents_context(sections: &Vec<(String, String)>) -> (r: String)
    ensures
        r@ == agents_context_spec(sections.deep_view()),
{
    if sections.len() == 0 {
        return String::new();
    }
    let mut rendered: Vec<String> = Vec::new();
    let n = sections.len();
    let mut i: usize = 0;
    while i < n
        invariant
            0 <= i <= n,
            n == sections.len(),
            rendered@.len() == i,
            forall|k: int| 0 <= k < i ==> rendered.deep_view()[k] == section_text(
                #[trigger] sections.deep_view()[k].0,
                sections.deep_view()[k].1,
            ),
        decreases n - i,
    {
        let mut s = String::from_str("## ");
        s.append(sections[i].0.as_str());
        s.append("\n\n");
        s.append(sections[i].1.as_str());
        rendered.push(s);
        i += 1;
    }
    proof {
        assert(rendered.deep_view() =~= sections.deep_view().map_values(
            |s: (Seq<char>, Seq<char>)| section_text(s.0, s.1),
        ));
    }
    let joined = join_with(&rendered, "\n\n");
    let mut r = String::from_str(
        "\n\nProject-specific instructions and guidelines (AGENTS.md):\n\n",
    );
    r.append(joined.as_str());
    r
}

/// The fixed briefing that opens the instructions.
pub open spec fn briefing() -> Seq<char> {
    "You are an expert coding assistant operating inside ox, a terminal-based coding agent. You help users by reading files, executing commands, editing code, and writing new files.\n\nAvailable tools:\n- read_file: Read file contents\n- ls: List directory contents\n- write_file: Create or overwrite files\n- edit: Make surgical edits to files (find exact text and replace)\n- grep: Search file contents for patterns\n- find: Find files by name pattern\n- bash: Execute shell commands\n\nGuidelines:\n- Use read_file to examine files before editing\n- Use edit for precise changes (old_text must match exactly)\n- Use write_file only for new files or complete rewrites\n- Prefer grep and find over bash for file exploration\n- Be concise in your responses\n- Show file paths clearly when working with files\n\nCurrent timestamp (unix seconds, UTC): "@
}

/// The whole instruction text over the clock, the working directory,
/// and the rendered project context.
pub open spec fn prompt_spec(timestamp: u64, cwd: Seq<char>, agents_context: Seq<char>) -> Seq<
    char,
> {
    briefing() + dec_rep(timestamp as nat) + "\nWorking directory: "@ + cwd + agents_context
}

/// Assemble the system instructions.
pub fn build(timestamp: u64, cwd: &str, agents_context: &str) -> (r: String)
    ensures
        r@ == prompt_spec(timestamp, cwd@, agents_context@),
{
    let mut r = String::from_str(
        "You are an expert coding assistant operating inside ox, a terminal-based coding agent. You help users by reading files, executing commands, editing code, and writing new files.\n\nAvailable tools:\n- read_file: Read file contents\n- ls: List directory contents\n- write_file: Create or overwrite files\n- edit: Make surgical edits to files (find exact text and replace)\n- grep: Search file contents for patterns\n- find: Find files by name pattern\n- bash: Execute shell commands\n\nGuidelines:\n- Use read_file to examine files before editing\n- Use edit for precise changes (old_text must match exactly)\n- Use write_file only for new files or complete rewrites\n- Prefer grep and find over bash for file exploration\n- Be concise in your responses\n- Show file paths clearly when working with files\n\nCurrent timestamp (unix seconds, UTC): ",
    );
    let num = u64_string(timestamp);
    r.append(num.as_str());
    r.append("\nWorking directory: ");
    r.append(cwd);
    r.append(agents_context);
    r
}

} // verus!
