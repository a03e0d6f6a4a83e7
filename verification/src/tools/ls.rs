//! List a directory: entries sorted lexicographically, directories
//! suffixed with a slash, head-truncated.
use vstd::prelude::*;

use crate::json::{Json, JsonData};
use crate::text::{
    lemma_lex_leq_refl, lemma_lex_leq_total, lemma_lex_leq_trans, lex_leq, seq_join, join_with,
    str_leq,
};
use crate::tools::tool_result::ToolResult;
use crate::tools::truncate::{head, head_spec};
use crate::tools::{descriptor, opt_str_arg, prefixed_error, schema_params, schema_prop, ToolCommand};

verus! {

broadcast use vstd::seq_lib::group_to_multiset_ensures;

pub fn definition() -> (r: Json)
    ensures
        r@.get_str("type"@) == Some("function"@),
        r@.get_str("name"@) == Some("ls"@),
{
    let mut props: Vec<(String, Json)> = Vec::new();
    props.push(
        (
            String::from_str("path"),
            schema_prop(
                "string",
                "The directory path to list. Defaults to current directory if not provided.",
            ),
        ),
    );
    let required: Vec<String> = Vec::new();
    descriptor(
        "ls",
        "List files and directories at the given path",
        schema_params(props, required),
    )
}

/// The command that planning the call yields: list the named directory,
/// or the current one when no path is given.
pub open spec fn planned(args: JsonData, r: ToolCommand) -> bool {
    r matches ToolCommand::ListDir { path } && path@ == (match args.get_str("path"@) {
        Some(s) => s,
        None => "."@,
    })
}

pub fn plan(args: &Json) -> (r: ToolCommand)
    ensures
        planned(args@, r),
{
    let path = opt_str_arg(args, "path", ".");
    ToolCommand::ListDir { path }
}

/// One directory entry as the caller reports it.
pub struct DirEntry {
    pub name: String,
    pub is_dir: bool,
}

impl View for DirEntry {
    type V = (Seq<char>, bool);

    open spec fn view(&self) -> (Seq<char>, bool) {
        (self.name@, self.is_dir)
    }
}

impl DeepView for DirEntry {
    type V = (Seq<char>, bool);

    open spec fn deep_view(&self) -> (Seq<char>, bool) {
        self.view()
    }
}

/// How one entry is displayed: directories get a trailing slash.
pub open spec fn decorated(e: (Seq<char>, bool)) -> Seq<char> {
    if e.1 {
        e.0 + "/"@
    } else {
        e.0
    }
}

/// Sorted in lexicographic order.
pub open spec fn sorted_lex(s: Seq<Seq<char>>) -> bool {
    forall|i: int, j: int| 0 <= i < j < s.len() ==> lex_leq(#[trigger] s[i], #[trigger] s[j])
}

/// Sort strings lexicographically by repeatedly extracting a least
/// element.
pub fn sort_strings(v: Vec<String>) -> (r: Vec<String>)
    ensures
        sorted_lex(r.deep_view()),
        r.deep_view().to_multiset() == v.deep_view().to_multiset(),
{
    let ghost orig = v.deep_view();
    let mut src = v;
    let mut out: Vec<String> = Vec::new();
    proof {
        assert(out.deep_view().to_multiset().add(src.deep_view().to_multiset())
            =~= orig.to_multiset());
    }
    loop
        invariant
            out.deep_view().to_multiset().add(src.deep_view().to_multiset())
                == orig.to_multiset(),
            sorted_lex(out.deep_view()),
            forall|x: int, y: int| 0 <= x < out.len() && 0 <= y < src.len() ==> lex_leq(
                #[trigger] out.deep_view()[x],
                #[trigger] src.deep_view()[y],
            ),
        ensures
            src.len() == 0,
            sorted_lex(out.deep_view()),
            out.deep_view().to_multiset() == orig.to_multiset(),
        decreases src.len(),
    {
        if src.len() == 0 {
            proof {
                assert(src.deep_view() =~= Seq::<Seq<char>>::empty());
                assert(out.deep_view().to_multiset().add(src.deep_view().to_multiset())
                    =~= out.deep_view().to_multiset());
            }
            break;
        }
        let n = src.len();
        let ghost dv = src.deep_view();
        let mut m: usize = 0;
        let mut i: usize = 1;
        proof {
            lemma_lex_leq_refl(dv[0]);
        }
        while i < n
            invariant
                0 <= m < i <= n,
                n == src.len(),
                dv == src.deep_view(),
                forall|k: int| 0 <= k < i ==> lex_leq(dv[m as int], #[trigger] dv[k]),
            decreases n - i,
        {
            proof {
                lemma_lex_leq_total(dv[m as int], dv[i as int]);
            }
            let strictly_less = str_leq(src[i].as_str(), src[m].as_str()) && !str_leq(
                src[m].as_str(),
                src[i].as_str(),
            );
            if strictly_less {
                proof {
                    assert forall|k: int| 0 <= k < i + 1 implies lex_leq(
                        dv[i as int],
                        #[trigger] dv[k],
                    ) by {
                        if k < i {
                            lemma_lex_leq_trans(dv[i as int], dv[m as int], dv[k]);
                        } else {
                            lemma_lex_leq_refl(dv[i as int]);
                        }
                    }
                }
                m = i;
            } else {
                proof {
                    assert(lex_leq(dv[m as int], dv[i as int]));
                }
            }
            i += 1;
        }
        let ghost old_src = src.deep_view();
        let ghost old_out = out.deep_view();
        let picked = src.remove(m);
        out.push(picked);
        proof {
            assert(src.deep_view() =~= old_src.remove(m as int));
            assert(out.deep_view() =~= old_out.push(old_src[m as int]));
            assert(old_out.push(old_src[m as int]).to_multiset() =~= old_out.to_multiset().insert(
                old_src[m as int],
            ));
            assert(old_src.remove(m as int).to_multiset() =~= old_src.to_multiset().remove(
                old_src[m as int],
            ));
            assert(old_src.to_multiset().contains(old_src[m as int]));
            assert(out.deep_view().to_multiset().add(src.deep_view().to_multiset())
                =~= old_out.to_multiset().add(old_src.to_multiset()));
            assert forall|x: int, y: int|
                0 <= x < out.deep_view().len() && 0 <= y < src.deep_view().len() implies lex_leq(
                #[trigger] out.deep_view()[x],
                #[trigger] src.deep_view()[y],
            ) by {
                let e = src.deep_view()[y];
                if y < m {
                    assert(e == old_src[y]);
                } else {
                    assert(e == old_src[y + 1]);
                }
                if x < old_out.len() {
                    assert(out.deep_view()[x] == old_out[x]);
                } else {
                    assert(out.deep_view()[x] == old_src[m as int]);
                }
            }
            assert forall|x: int, y: int| 0 <= x < y < out.deep_view().len() implies lex_leq(
                #[trigger] out.deep_view()[x],
                #[trigger] out.deep_view()[y],
            ) by {
                if y < old_out.len() {
                } else {
                    assert(out.deep_view()[y] == old_src[m as int]);
                }
            }
        }
    }
    out
}

pub open spec fn ls_label() -> Seq<char> {
    "entries remaining"@
}

/// The result of the listing: the decorated entry names in some
/// lexicographically sorted arrangement of exactly the entries given,
/// joined by newlines and head-truncated; a failure to read the
/// directory is an error carrying the underlying message.
pub open spec fn rendered(
    entries: Result<Seq<(Seq<char>, bool)>, Seq<char>>,
    result: crate::tools::tool_result::ToolResultData,
) -> bool {
    match entries {
        Err(e) => result.is_error && result.content == "Error: "@ + e,
        Ok(es) => exists|s: Seq<Seq<char>>|
            {
                &&& sorted_lex(s)
                &&& s.to_multiset() == es.map_values(|e: (Seq<char>, bool)| decorated(e)).to_multiset()
                &&& !result.is_error
                &&& result.content == head_spec(seq_join(s, seq!['\n']), 500, ls_label())
            },
    }
}

pub fn render(entries: Result<Vec<DirEntry>, String>) -> (r: ToolResult)
    ensures
        ({
            let e = match entries {
                Ok(es) => Ok::<Seq<(Seq<char>, bool)>, Seq<char>>(es.deep_view()),
                Err(e) => Err(e@),
            };
            rendered(e, r@)
        }),
{
    let es = match entries {
        Ok(es) => es,
        Err(e) => {
            return prefixed_error("Error: ", e.as_str());
        },
    };
    let mut items: Vec<String> = Vec::new();
    let n = es.len();
    let mut i: usize = 0;
    while i < n
        invariant
            0 <= i <= n,
            n == es.len(),
            items@.len() == i,
            forall|k: int| 0 <= k < i ==> items.deep_view()[k] == decorated(
                #[trigger] es.deep_view()[k],
            ),
        decreases n - i,
    {
        let mut name = es[i].name.clone();
        if es[i].is_dir {
            name.append("/");
        }
        items.push(name);
        i += 1;
    }
    let ghost item_views = items.deep_view();
    proof {
        assert(item_views =~= es.deep_view().map_values(|e: (Seq<char>, bool)| decorated(e)));
    }
    let sorted = sort_strings(items);
    let joined = join_with(&sorted, "\n");
    proof {
        reveal_strlit("\n");
        assert("\n"@ =~= seq!['\n']);
    }
    let truncated = head(joined.as_str(), 500, "entries remaining");
    let r = ToolResult::success(truncated);
    proof {
        let w = sorted.deep_view();
        assert(sorted_lex(w) && w.to_multiset() == es.deep_view().map_values(
            |e: (Seq<char>, bool)| decorated(e),
        ).to_multiset() && !r@.is_error && r@.content == head_spec(
            seq_join(w, seq!['\n']),
            500,
            ls_label(),
        ));
    }
    r
}

} // verus!
