use ox::tools::bash::{self, CommandOutcome};
use ox::tools::edit::{self, EditStep};
use ox::tools::ls::{self, DirEntry};
use ox::tools::truncate::{head, tail};
use ox::tools::{self, read_file, write_file, grep, find, ToolCommand};

#[test]
fn edit_with_unique_occurrence_replaces_it_exactly() {
    let content = "fn main() {\n    println!(\"old\");\n}\n".to_string();
    let step = edit::apply(
        "main.rs".to_string(),
        "println!(\"old\");",
        "println!(\"new\");",
        Ok(content),
    );
    match step {
        EditStep::Write { path, content } => {
            assert_eq!(path, "main.rs");
            assert_eq!(content, "fn main() {\n    println!(\"new\");\n}\n");
        }
        EditStep::Done { .. } => panic!("a unique occurrence must be replaced"),
    }
}

#[test]
fn edit_with_no_occurrence_writes_nothing() {
    let step = edit::apply("f".to_string(), "absent", "new", Ok("abc".to_string()));
    match step {
        EditStep::Done { result } => {
            assert!(result.is_error);
            assert_eq!(result.content, "Error: old_text not found in file");
        }
        EditStep::Write { .. } => panic!("nothing may be written"),
    }
}

#[test]
fn edit_with_two_occurrences_writes_nothing() {
    let step = edit::apply("f".to_string(), "aa", "b", Ok("aa aa".to_string()));
    match step {
        EditStep::Done { result } => {
            assert!(result.is_error);
            assert_eq!(
                result.content,
                "Error: old_text found 2 times, include more surrounding context to make it unique"
            );
        }
        EditStep::Write { .. } => panic!("nothing may be written"),
    }
}

#[test]
fn edit_read_failure_is_reported() {
    let step = edit::apply("f".to_string(), "a", "b", Err("denied".to_string()));
    match step {
        EditStep::Done { result } => {
            assert!(result.is_error);
            assert_eq!(result.content, "Error reading file: denied");
        }
        EditStep::Write { .. } => panic!("nothing may be written"),
    }
}

#[test]
fn edit_write_outcomes() {
    let ok = edit::after_write("main.rs", Ok(()));
    assert!(!ok.is_error);
    assert_eq!(ok.content, "Successfully edited main.rs");
    let bad = edit::after_write("main.rs", Err("full".to_string()));
    assert!(bad.is_error);
    assert_eq!(bad.content, "Error writing file: full");
}

#[test]
fn head_keeps_the_line_ceiling_and_the_trailer() {
    let r = head("a\nb\nc", 2, "lines remaining");
    assert_eq!(r, "a\nb\n\n... truncated (1 lines remaining)");
}

#[test]
fn head_within_ceilings_is_unchanged() {
    assert_eq!(head("a\nb\nc", 3, "lines"), "a\nb\nc");
}

#[test]
fn head_never_exceeds_the_byte_ceiling() {
    // 60 lines of 1000 bytes each: over 50KB, under the line ceiling.
    let line = "y".repeat(1000);
    let text = vec![line.clone(); 60].join("\n");
    let r = head(&text, 2000, "lines remaining");
    let marker = r.find("\n... truncated (").expect("the trailer must survive");
    assert!(marker <= 51200);
    assert!(r.ends_with(" lines remaining)"));
}

#[test]
fn tail_keeps_the_last_lines_and_the_leading_marker() {
    let line = "z".repeat(1000);
    let lines: Vec<String> = (0..60).map(|i| format!("{i}-{line}")).collect();
    let text = lines.join("\n");
    let r = tail(&text);
    assert!(r.starts_with("... truncated (10 lines omitted)\n"));
    assert!(r.ends_with(&format!("59-{line}")));
}

#[test]
fn tail_within_ceilings_is_unchanged() {
    assert_eq!(tail("a\nb"), "a\nb");
}

#[test]
fn bash_echo_success_carries_the_output() {
    let outcome = CommandOutcome {
        success: true,
        exit_code: 0,
        timed_out: false,
        stdout: "hi\n".to_string(),
        stderr: String::new(),
    };
    let r = bash::render(None, Ok(outcome));
    assert!(!r.is_error);
    assert_eq!(r.content, "hi\n");
}

#[test]
fn bash_nonzero_exit_names_the_code() {
    let outcome = CommandOutcome {
        success: false,
        exit_code: 3,
        timed_out: false,
        stdout: String::new(),
        stderr: "boom\n".to_string(),
    };
    let r = bash::render(None, Ok(outcome));
    assert!(r.is_error);
    assert_eq!(r.content, "Error: command exited with code 3\nstderr: boom\n");
}

#[test]
fn bash_timeout_names_the_limit() {
    let outcome = CommandOutcome {
        success: false,
        exit_code: -1,
        timed_out: true,
        stdout: "partial".to_string(),
        stderr: String::new(),
    };
    let r = bash::render(Some(5), Ok(outcome));
    assert!(r.is_error);
    assert_eq!(r.content, "Error: command timed out after 5 seconds\npartial");
}

#[test]
fn bash_combines_both_streams() {
    assert_eq!(bash::combine_streams("out", "err"), "out\nstderr: err");
    assert_eq!(bash::combine_streams("out", ""), "out");
    assert_eq!(bash::combine_streams("", "err"), "stderr: err");
}

#[test]
fn bash_rejects_a_zero_timeout() {
    match tools::execute("bash", "{\"command\":\"echo hi\",\"timeout\":0}") {
        ToolCommand::Done { result } => {
            assert!(result.is_error);
            assert_eq!(result.content, "Error: 'timeout' must be a positive integer");
        }
        _ => panic!("a zero timeout must be rejected"),
    }
}

#[test]
fn execute_bash_echo_plans_the_command() {
    match tools::execute("bash", "{\"command\":\"echo hi\"}") {
        ToolCommand::Run { command, timeout_secs } => {
            assert_eq!(command, "echo hi");
            assert_eq!(timeout_secs, None);
        }
        _ => panic!("a bash call must plan a run"),
    }
}

#[test]
fn execute_rejects_unknown_tools() {
    match tools::execute("teleport", "{}") {
        ToolCommand::Done { result } => {
            assert!(result.is_error);
            assert_eq!(result.content, "Unknown tool: teleport");
        }
        _ => panic!("an unknown tool must be an error"),
    }
}

#[test]
fn execute_rejects_unparseable_arguments() {
    match tools::execute("bash", "{oops") {
        ToolCommand::Done { result } => {
            assert!(result.is_error);
            assert!(result.content.starts_with("Error parsing arguments: "));
        }
        _ => panic!("bad arguments must be an error"),
    }
}

#[test]
fn execute_requires_the_path_argument() {
    match tools::execute("read_file", "{}") {
        ToolCommand::Done { result } => {
            assert!(result.is_error);
            assert_eq!(result.content, "Error: missing 'path' argument");
        }
        _ => panic!("a missing path must be an error"),
    }
}

#[test]
fn read_file_missing_file_reports_the_underlying_error() {
    let r = read_file::render(None, None, Err("No such file or directory (os error 2)".to_string()));
    assert!(r.is_error);
    assert_eq!(r.content, "Error: No such file or directory (os error 2)");
}

#[test]
fn read_file_window_is_one_indexed() {
    let content = "one\ntwo\nthree\nfour".to_string();
    let r = read_file::render(Some(2), Some(2), Ok(content));
    assert!(!r.is_error);
    assert_eq!(r.content, "two\nthree");
}

#[test]
fn read_file_offset_past_the_end_is_an_error() {
    let r = read_file::render(Some(5), None, Ok("one\ntwo".to_string()));
    assert!(r.is_error);
    assert_eq!(r.content, "Error: offset 4 is beyond end of file (2 lines)");
}

#[test]
fn write_file_reports_both_outcomes() {
    let ok = write_file::render("notes.txt", Ok(()));
    assert!(!ok.is_error);
    assert_eq!(ok.content, "Successfully wrote to notes.txt");
    let bad = write_file::render("notes.txt", Err("read-only".to_string()));
    assert!(bad.is_error);
    assert_eq!(bad.content, "Error: read-only");
}

#[test]
fn ls_sorts_and_marks_directories() {
    let entries = vec![
        DirEntry { name: "zeta".to_string(), is_dir: false },
        DirEntry { name: "alpha".to_string(), is_dir: true },
        DirEntry { name: "beta".to_string(), is_dir: false },
    ];
    let r = ls::render(Ok(entries));
    assert!(!r.is_error);
    assert_eq!(r.content, "alpha/\nbeta\nzeta");
}

#[test]
fn ls_failure_reports_the_underlying_error() {
    let r = ls::render(Err("not a directory".to_string()));
    assert!(r.is_error);
    assert_eq!(r.content, "Error: not a directory");
}

#[test]
fn grep_empty_output_is_a_success_message() {
    let r = grep::render("needle", Ok(String::new()));
    assert!(!r.is_error);
    assert_eq!(r.content, "No matches found for 'needle'");
    let hit = grep::render("needle", Ok("a.rs:1:needle\n".to_string()));
    assert!(!hit.is_error);
    assert_eq!(hit.content, "a.rs:1:needle\n");
}

#[test]
fn find_empty_output_is_a_success_message() {
    let r = find::render("*.zig", Ok(String::new()));
    assert!(!r.is_error);
    assert_eq!(r.content, "No files found matching '*.zig'");
}

#[test]
fn search_plans_carry_the_fallback_programs() {
    match tools::execute("grep", "{\"pattern\":\"x\"}") {
        ToolCommand::Grep { programs, pattern } => {
            assert_eq!(pattern, "x");
            assert_eq!(programs[0].program, "rg");
            assert_eq!(programs[0].args, vec!["-n", "--no-heading", "x", "."]);
            assert_eq!(programs[1].program, "grep");
            assert_eq!(programs[1].args, vec!["-rn", "x", "."]);
        }
        _ => panic!("a grep call must plan a search"),
    }
    match tools::execute("find", "{\"pattern\":\"*.rs\",\"path\":\"src\"}") {
        ToolCommand::Find { programs, pattern } => {
            assert_eq!(pattern, "*.rs");
            assert_eq!(programs[0].program, "fd");
            assert_eq!(programs[0].args, vec!["--glob", "*.rs", "src"]);
            assert_eq!(programs[1].program, "find");
            assert_eq!(programs[1].args, vec!["src", "-name", "*.rs"]);
        }
        _ => panic!("a find call must plan a search"),
    }
}

#[test]
fn definitions_advertise_all_seven_tools() {
    let defs = tools::definitions();
    let names: Vec<String> = defs
        .iter()
        .map(|d| match d.get_str("name") {
            Some(n) => n,
            None => panic!("every descriptor names its tool"),
        })
        .collect();
    assert_eq!(
        names,
        vec!["read_file", "ls", "write_file", "edit", "grep", "find", "bash"]
    );
}

#[test]
fn tool_result_renders_to_history_output() {
    let r = ox::tools::tool_result::ToolResult::success("done".to_string());
    let out = r.to_history_output();
    assert_eq!(out.get_str("content"), Some("done".to_string()));
    match out.get("is_error") {
        Some(ox::json::Json::Bool(false)) => {}
        _ => panic!("the error flag must be rendered"),
    }
}
