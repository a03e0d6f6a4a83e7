//! The session store's pure half: where a session's file lives under
//! the store directory, which file names are session files, and how a
//! persisted history replays. The caller reads and writes the files.
use vstd::prelude::*;

use crate::json::{json_of, json_view, Json, JsonData};
use crate::text::{lex_leq, lines_of, lines_vec, match_at, match_at_exec, prefix_to};
use crate::session::naming::{
    empty_name_msg, invalid_name_msg, valid_session_name, validate_session_name,
};
use crate::tools::ls::{sort_strings, sorted_lex};

verus! {

broadcast use vstd::seq_lib::group_to_multiset_ensures;

/// The relative path of a session's file: its name with the store's
/// directory before it and the store's extension after it.
pub open spec fn session_path_of(name: Seq<char>) -> Seq<char> {
    ".sessions/"@ + name + ".jsonl"@
}

/// The relative path of a valid session name's file; an invalid name is
/// refused with the validation's message.
pub fn session_path(session_name: &str) -> (r: Result<String, String>)
    ensures
        r matches Ok(p) <==> valid_session_name(session_name@),
        r matches Ok(p) ==> p@ == session_path_of(session_name@),
        session_name@.len() == 0 ==> (r matches Err(e) && e@ == empty_name_msg()),
        session_name@.len() > 0 && !valid_session_name(session_name@) ==> (r matches Err(e)
            && e@ == invalid_name_msg(session_name@)),
{
    match validate_session_name(session_name) {
        Ok(_) => {
            let mut p = String::from_str(".sessions/");
            p.append(session_name);
            p.append(".jsonl");
            proof {
                assert(p@ =~= session_path_of(session_name@));
            }
            Ok(p)
        },
        Err(e) => Err(e),
    }
}

/// A file name the store recognizes: something before the store's
/// extension.
pub open spec fn is_session_file(name: Seq<char>) -> bool {
    name.len() > 6 && match_at(name, ".jsonl"@, name.len() - 6)
}

/// The session name a store file carries.
pub open spec fn stem_of(name: Seq<char>) -> Seq<char> {
    name.take(name.len() - 6)
}

/// The session names among a directory's file names, in the given
/// order.
pub open spec fn session_stems(files: Seq<Seq<char>>) -> Seq<Seq<char>>
    decreases files.len(),
{
    if files.len() == 0 {
        seq![]
    } else {
        let rest = session_stems(files.drop_first());
        if is_session_file(files[0]) {
            seq![stem_of(files[0])] + rest
        } else {
            rest
        }
    }
}

proof fn lemma_session_stems_push(files: Seq<Seq<char>>, f: Seq<char>)
    ensures
        session_stems(files.push(f)) == if is_session_file(f) {
            session_stems(files).push(stem_of(f))
        } else {
            session_stems(files)
        },
    decreases files.len(),
{
    if files.len() == 0 {
        assert(files.push(f).drop_first() =~= files);
        assert(files.push(f)[0] == f);
        if is_session_file(f) {
            assert(seq![stem_of(f)] + session_stems(files) =~= session_stems(files).push(
                stem_of(f),
            ));
        }
    } else {
        lemma_session_stems_push(files.drop_first(), f);
        assert(files.push(f).drop_first() =~= files.drop_first().push(f));
        assert(files.push(f)[0] == files[0]);
        if is_session_file(files[0]) && is_session_file(f) {
            assert(seq![stem_of(files[0])] + session_stems(files.drop_first()).push(stem_of(f))
                =~= (seq![stem_of(files[0])] + session_stems(files.drop_first())).push(
                stem_of(f),
            ));
        }
    }
}

/// Sorted in descending lexicographic order.
pub open spec fn sorted_desc(s: Seq<Seq<char>>) -> bool {
    forall|i: int, j: int| 0 <= i < j < s.len() ==> lex_leq(#[trigger] s[j], #[trigger] s[i])
}

/// The session names among a directory's file names, newest-named
/// first: exactly the stems of the store's files, in descending
/// lexicographic order.
pub fn session_names_from_files(files: Vec<String>) -> (r: Vec<String>)
    ensures
        sorted_desc(r.deep_view()),
        r.deep_view().to_multiset() == session_stems(files.deep_view()).to_multiset(),
{
    let mut stems: Vec<String> = Vec::new();
    let n = files.len();
    let mut i: usize = 0;
    proof {
        assert(files.deep_view().take(0) =~= Seq::<Seq<char>>::empty());
    }
    while i < n
        invariant
            0 <= i <= n,
            n == files.len(),
            stems.deep_view() == session_stems(files.deep_view().take(i as int)),
        decreases n - i,
    {
        proof {
            lemma_session_stems_push(
                files.deep_view().take(i as int),
                files.deep_view()[i as int],
            );
            assert(files.deep_view().take(i + 1) =~= files.deep_view().take(i as int).push(
                files.deep_view()[i as int],
            ));
        }
        let name = &files[i];
        let len = name.as_str().unicode_len();
        if len > 6 && match_at_exec(name.as_str(), ".jsonl", len - 6) {
            proof {
                reveal_strlit(".jsonl");
            }
            let stem = prefix_to(name.as_str(), len - 6);
            let ghost old_stems = stems.deep_view();
            stems.push(stem);
            proof {
                assert(stems.deep_view() =~= old_stems.push(stem_of(files.deep_view()[i as int])));
            }
        } else {
            proof {
                reveal_strlit(".jsonl");
                assert(!is_session_file(files.deep_view()[i as int]));
            }
        }
        i += 1;
    }
    proof {
        assert(files.deep_view().take(n as int) =~= files.deep_view());
    }
    let sorted = sort_strings(stems);
    let m = sorted.len();
    let mut out: Vec<String> = Vec::new();
    let mut t: usize = 0;
    while t < m
        invariant
            0 <= t <= m,
            m == sorted.len(),
            sorted_lex(sorted.deep_view()),
            out@.len() == t,
            forall|u: int| 0 <= u < t ==> out.deep_view()[u] == sorted.deep_view()[m - 1 - u],
        decreases m - t,
    {
        let ghost old_out = out.deep_view();
        out.push(sorted[m - 1 - t].clone());
        proof {
            assert(out.deep_view() =~= old_out.push(sorted.deep_view()[m - 1 - t]));
        }
        t += 1;
    }
    proof {
        assert(out.deep_view() =~= sorted.deep_view().reverse());
        sorted.deep_view().lemma_reverse_to_multiset();
        let sv = sorted.deep_view();
        assert forall|x: int, y: int| 0 <= x < y < out.deep_view().len() implies lex_leq(
            #[trigger] out.deep_view()[y],
            #[trigger] out.deep_view()[x],
        ) by {
            assert(out.deep_view()[x] == sv[m - 1 - x]);
            assert(out.deep_view()[y] == sv[m - 1 - y]);
        }
    }
    out
}

/// A line of nothing but blanks, which the replay skips.
pub open spec fn is_blank_line(l: Seq<char>) -> bool {
    forall|i: int| 0 <= i < l.len() ==> (#[trigger] l[i] == ' ' || l[i] == '\t' || l[i] == '\r'
        || l[i] == '\n')
}

fn is_blank(s: &str) -> (r: bool)
    ensures
        r == is_blank_line(s@),
{
    let n = s.unicode_len();
    let mut i: usize = 0;
    while i < n
        invariant
            0 <= i <= n,
            n == s@.len(),
            forall|t: int| 0 <= t < i ==> (#[trigger] s@[t] == ' ' || s@[t] == '\t' || s@[t]
                == '\r' || s@[t] == '\n'),
        decreases n - i,
    {
        let c = s.get_char(i);
        if !(c == ' ' || c == '\t' || c == '\r' || c == '\n') {
            return false;
        }
        i += 1;
    }
    true
}

/// The history a persisted file replays to: each line that is not blank
/// and parses as one JSON value, in order; blank and malformed lines
/// are skipped.
pub open spec fn history_of_lines(lines: Seq<Seq<char>>) -> Seq<JsonData>
    decreases lines.len(),
{
    if lines.len() == 0 {
        seq![]
    } else {
        let rest = history_of_lines(lines.drop_first());
        if is_blank_line(lines[0]) {
            rest
        } else {
            match json_of(lines[0]) {
                Some(v) => seq![v] + rest,
                None => rest,
            }
        }
    }
}

proof fn lemma_history_push(lines: Seq<Seq<char>>, l: Seq<char>)
    ensures
        history_of_lines(lines.push(l)) == if is_blank_line(l) {
            history_of_lines(lines)
        } else {
            match json_of(l) {
                Some(v) => history_of_lines(lines).push(v),
                None => history_of_lines(lines),
            }
        },
    decreases lines.len(),
{
    if lines.len() == 0 {
        assert(lines.push(l).drop_first() =~= lines);
        assert(lines.push(l)[0] == l);
        if !is_blank_line(l) {
            match json_of(l) {
                Some(v) => {
                    assert(seq![v] + history_of_lines(lines) =~= history_of_lines(lines).push(v));
                },
                None => {},
            }
        }
    } else {
        lemma_history_push(lines.drop_first(), l);
        assert(lines.push(l).drop_first() =~= lines.drop_first().push(l));
        assert(lines.push(l)[0] == lines[0]);
        let h0 = if is_blank_line(lines[0]) {
            Seq::<JsonData>::empty()
        } else {
            match json_of(lines[0]) {
                Some(v) => seq![v],
                None => Seq::<JsonData>::empty(),
            }
        };
        if !is_blank_line(l) {
            match json_of(l) {
                Some(v) => {
                    assert(h0 + history_of_lines(lines.drop_first()).push(v) =~= (h0
                        + history_of_lines(lines.drop_first())).push(v));
                },
                None => {},
            }
        }
    }
}

/// Replay a persisted session file's content: blank lines and lines
/// that do not parse are skipped; everything else is kept in order.
pub fn parse_history(content: &str) -> (r: Vec<Json>)
    ensures
        r.deep_view() == history_of_lines(lines_of(content@)),
{
    let lines = lines_vec(content);
    let mut out: Vec<Json> = Vec::new();
    let n = lines.len();
    let mut i: usize = 0;
    proof {
        assert(lines.deep_view().take(0) =~= Seq::<Seq<char>>::empty());
    }
    while i < n
        invariant
            0 <= i <= n,
            n == lines.len(),
            lines.deep_view() == lines_of(content@),
            out.deep_view() == history_of_lines(lines.deep_view().take(i as int)),
        decreases n - i,
    {
        proof {
            lemma_history_push(lines.deep_view().take(i as int), lines.deep_view()[i as int]);
            assert(lines.deep_view().take(i + 1) =~= lines.deep_view().take(i as int).push(
                lines.deep_view()[i as int],
            ));
        }
        let line = &lines[i];
        if !is_blank(line.as_str()) {
            match crate::json::parse_json(line.as_str()) {
                Some(v) => {
                    let ghost old_out = out.deep_view();
                    let ghost vm = json_view(v);
                    out.push(v);
                    proof {
                        assert(out.deep_view() =~= old_out.push(vm));
                    }
                },
                None => {},
            }
        }
        i += 1;
    }
    proof {
        assert(lines.deep_view().take(n as int) =~= lines.deep_view());
    }
    out
}

} // verus!
