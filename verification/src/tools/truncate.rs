//! Uniform output bounding. Head truncation keeps leading lines up to a
//! line-count or byte-size ceiling, whichever is hit first, and appends
//! a trailer naming how much was omitted; tail truncation keeps trailing
//! lines the same way and puts the trailer first.
use vstd::prelude::*;

use vstd::utf8::encode_utf8;

use crate::text::{dec_rep, lines_of, lines_vec, seq_join, join_with, u64_string};

verus! {

/// Ceiling on kept lines.
pub const MAX_LINES: usize = 2000;

/// Ceiling on kept bytes.
pub const MAX_BYTES: usize = 51200;

/// The length of the UTF-8 encoding of `s`.
pub open spec fn byte_len(s: Seq<char>) -> int {
    encode_utf8(s).len() as int
}

/// The bytes that a run of newline-closed lines occupies: each line's
/// encoding plus one newline byte.
pub open spec fn lines_bytes(ls: Seq<Seq<char>>) -> int
    decreases ls.len(),
{
    if ls.len() == 0 {
        0
    } else {
        byte_len(ls[0]) + 1 + lines_bytes(ls.drop_first())
    }
}

/// How many leading lines fit: one more line is kept while the line
/// ceiling is not reached and its bytes (with the closing newline) fit
/// in the remaining byte budget.
pub open spec fn head_count(ls: Seq<Seq<char>>, max_lines: int, budget: int) -> int
    decreases ls.len(),
{
    if ls.len() == 0 || max_lines <= 0 || byte_len(ls[0]) + 1 > budget {
        0
    } else {
        1 + head_count(ls.drop_first(), max_lines - 1, budget - byte_len(ls[0]) - 1)
    }
}

/// How many trailing lines fit, counted from the end.
pub open spec fn tail_count(ls: Seq<Seq<char>>, max_lines: int, budget: int) -> int
    decreases ls.len(),
{
    if ls.len() == 0 || max_lines <= 0 || byte_len(ls.last()) + 1 > budget {
        0
    } else {
        1 + tail_count(ls.drop_last(), max_lines - 1, budget - byte_len(ls.last()) - 1)
    }
}

/// The kept leading text: the first `k` lines, each closed by a newline.
pub open spec fn head_kept_text(ls: Seq<Seq<char>>, k: int) -> Seq<char> {
    if k == 0 {
        Seq::empty()
    } else {
        seq_join(ls.take(k), seq!['\n']) + seq!['\n']
    }
}

/// The trailer appended after head truncation.
pub open spec fn head_trailer(remaining: int, label: Seq<char>) -> Seq<char> {
    "\n... truncated ("@ + dec_rep(remaining as nat) + " "@ + label + ")"@
}

/// The trailer prepended before tail truncation.
pub open spec fn tail_trailer(omitted: int) -> Seq<char> {
    "... truncated ("@ + dec_rep(omitted as nat) + " lines omitted)\n"@
}

/// Head truncation: text within both ceilings passes unchanged;
/// otherwise the leading lines that fit are kept and the trailer names
/// how many lines were left out.
pub open spec fn head_spec(text: Seq<char>, max_lines: int, label: Seq<char>) -> Seq<char> {
    let ls = lines_of(text);
    if ls.len() <= max_lines && byte_len(text) <= MAX_BYTES as int {
        text
    } else {
        let k = head_count(ls, max_lines, MAX_BYTES as int);
        head_kept_text(ls, k) + head_trailer(ls.len() - k, label)
    }
}

/// Tail truncation: text within both ceilings passes unchanged;
/// otherwise the trailing lines that fit are kept after a trailer naming
/// how many leading lines were left out.
pub open spec fn tail_spec(text: Seq<char>) -> Seq<char> {
    let ls = lines_of(text);
    if ls.len() <= MAX_LINES as int && byte_len(text) <= MAX_BYTES as int {
        text
    } else {
        let k = tail_count(ls, MAX_LINES as int, MAX_BYTES as int);
        tail_trailer(ls.len() - k) + seq_join(ls.skip(ls.len() - k), seq!['\n'])
    }
}

/// Keep the first lines of `text` up to `max_lines` lines or the byte
/// ceiling, whichever is hit first, appending a trailer that names how
/// many `label` were omitted.
pub fn head(text: &str, max_lines: usize, label: &str) -> (r: String)
    ensures
        r@ == head_spec(text@, max_lines as int, label@),
{
    let lines = lines_vec(text);
    let total_bytes = text.as_bytes().len();
    let n = lines.len();
    if n <= max_lines && total_bytes <= MAX_BYTES {
        return text.to_owned();
    }
    let ghost ls = lines.deep_view();
    let mut kept: Vec<String> = Vec::new();
    let mut budget: usize = MAX_BYTES;
    let mut i: usize = 0;
    proof {
        assert(ls.skip(0) =~= ls);
    }
    loop
        invariant
            0 <= i <= n,
            n == lines.len(),
            ls == lines.deep_view(),
            ls == lines_of(text@),
            max_lines < n || MAX_BYTES < byte_len(text@),
            budget <= MAX_BYTES,
            i <= max_lines,
            kept@.len() == i,
            forall|t: int| 0 <= t < i ==> kept@[t]@ == ls[t],
            head_count(ls, max_lines as int, MAX_BYTES as int) == i + head_count(
                ls.skip(i as int),
                max_lines as int - i,
                budget as int,
            ),
        ensures
            head_count(ls, max_lines as int, MAX_BYTES as int) == i as int,
            0 <= i <= n,
            i <= max_lines,
            kept@.len() == i,
            forall|t: int| 0 <= t < i ==> kept@[t]@ == ls[t],
        decreases n - i,
    {
        proof {
            if i < n {
                assert(ls.skip(i as int)[0] == ls[i as int]);
                assert(ls.skip(i as int).drop_first() =~= ls.skip(i + 1));
            } else {
                assert(ls.skip(i as int).len() == 0);
            }
        }
        if i >= n || i >= max_lines {
            break;
        }
        let lb = lines[i].as_str().as_bytes().len();
        if lb >= budget {
            break;
        }
        kept.push(lines[i].clone());
        budget = budget - lb - 1;
        i += 1;
    }
    let ghost k = head_count(ls, max_lines as int, MAX_BYTES as int);
    let mut r: String = if i == 0 {
        String::new()
    } else {
        let mut j = join_with(&kept, "\n");
        j.append("\n");
        proof {
            assert(kept.deep_view() =~= ls.take(k));
            reveal_strlit("\n");
            assert("\n"@ =~= seq!['\n']);
            assert(j@ == head_kept_text(ls, k));
        }
        j
    };
    r.append("\n... truncated (");
    let num = u64_string((n - i) as u64);
    r.append(num.as_str());
    r.append(" ");
    r.append(label);
    r.append(")");
    proof {
        assert(r@ =~= head_kept_text(ls, k) + head_trailer(ls.len() - k, label@));
    }
    r
}

/// Keep the last lines of `text` up to the line and byte ceilings,
/// prepending a trailer that names how many leading lines were omitted.
pub fn tail(text: &str) -> (r: String)
    ensures
        r@ == tail_spec(text@),
{
    let lines = lines_vec(text);
    let total_bytes = text.as_bytes().len();
    let n = lines.len();
    if n <= MAX_LINES && total_bytes <= MAX_BYTES {
        return text.to_owned();
    }
    let ghost ls = lines.deep_view();
    let mut budget: usize = MAX_BYTES;
    let mut i: usize = 0;
    proof {
        assert(ls.take(n as int) =~= ls);
    }
    loop
        invariant
            0 <= i <= n,
            n == lines.len(),
            ls == lines.deep_view(),
            ls == lines_of(text@),
            budget <= MAX_BYTES,
            i <= MAX_LINES,
            tail_count(ls, MAX_LINES as int, MAX_BYTES as int) == i + tail_count(
                ls.take(n - i),
                MAX_LINES as int - i,
                budget as int,
            ),
        ensures
            tail_count(ls, MAX_LINES as int, MAX_BYTES as int) == i as int,
            0 <= i <= n,
            i <= MAX_LINES,
        decreases n - i,
    {
        proof {
            if i < n {
                assert(ls.take(n - i).last() == ls[n - i - 1]);
                assert(ls.take(n - i).drop_last() =~= ls.take(n - (i + 1)));
            } else {
                assert(ls.take(n - i).len() == 0);
            }
        }
        if i >= n || i >= MAX_LINES {
            break;
        }
        let lb = lines[n - i - 1].as_str().as_bytes().len();
        if lb >= budget {
            break;
        }
        budget = budget - lb - 1;
        i += 1;
    }
    let ghost k = tail_count(ls, MAX_LINES as int, MAX_BYTES as int);
    let omitted = n - i;
    let mut kept: Vec<String> = Vec::new();
    let mut t: usize = omitted;
    while t < n
        invariant
            omitted <= t <= n,
            n == lines.len(),
            ls == lines.deep_view(),
            kept@.len() == t - omitted,
            forall|u: int| 0 <= u < t - omitted ==> kept@[u]@ == ls[omitted + u],
        decreases n - t,
    {
        kept.push(lines[t].clone());
        t += 1;
    }
    let mut r = String::from_str("... truncated (");
    let num = u64_string(omitted as u64);
    r.append(num.as_str());
    r.append(" lines omitted)\n");
    let joined = join_with(&kept, "\n");
    r.append(joined.as_str());
    proof {
        reveal_strlit("\n");
        assert("\n"@ =~= seq!['\n']);
        assert(kept.deep_view() =~= ls.skip(omitted as int));
        assert(r@ =~= tail_trailer(ls.len() - k) + seq_join(ls.skip(ls.len() - k), seq!['\n']));
    }
    r
}

/// Head truncation never drops the trailer and never keeps more than the
/// ceilings allow: whenever the text is over either ceiling, the result
/// is the kept lines followed by the trailer, the kept lines stay within
/// the line ceiling, and their bytes stay within the byte ceiling.
pub proof fn lemma_head_ceilings(text: Seq<char>, max_lines: int, label: Seq<char>)
    requires
        max_lines >= 0,
        !(lines_of(text).len() <= max_lines && byte_len(text) <= MAX_BYTES as int),
    ensures
        ({
            let ls = lines_of(text);
            let k = head_count(ls, max_lines, MAX_BYTES as int);
            &&& head_spec(text, max_lines, label) == head_kept_text(ls, k) + head_trailer(
                ls.len() - k,
                label,
            )
            &&& 0 <= k <= max_lines
            &&& k <= ls.len()
            &&& lines_bytes(ls.take(k)) <= MAX_BYTES as int
        }),
{
    let ls = lines_of(text);
    lemma_head_count_bounded(ls, max_lines, MAX_BYTES as int);
}

proof fn lemma_head_count_bounded(ls: Seq<Seq<char>>, max_lines: int, budget: int)
    requires
        max_lines >= 0,
        budget >= 0,
    ensures
        0 <= head_count(ls, max_lines, budget) <= max_lines,
        head_count(ls, max_lines, budget) <= ls.len(),
        lines_bytes(ls.take(head_count(ls, max_lines, budget))) <= budget,
    decreases ls.len(),
{
    let k = head_count(ls, max_lines, budget);
    if ls.len() == 0 || max_lines <= 0 || byte_len(ls[0]) + 1 > budget {
        assert(ls.take(0) =~= Seq::<Seq<char>>::empty());
    } else {
        lemma_head_count_bounded(ls.drop_first(), max_lines - 1, budget - byte_len(ls[0]) - 1);
        let k2 = head_count(ls.drop_first(), max_lines - 1, budget - byte_len(ls[0]) - 1);
        assert(ls.take(k)[0] == ls[0]);
        assert(ls.take(k).drop_first() =~= ls.drop_first().take(k2));
        assert(lines_bytes(ls.take(k)) == byte_len(ls[0]) + 1 + lines_bytes(
            ls.drop_first().take(k2),
        ));
    }
}

/// Tail truncation never drops the leading trailer and never keeps more
/// than the ceilings allow.
pub proof fn lemma_tail_ceilings(text: Seq<char>)
    requires
        !(lines_of(text).len() <= MAX_LINES as int && byte_len(text) <= MAX_BYTES as int),
    ensures
        ({
            let ls = lines_of(text);
            let k = tail_count(ls, MAX_LINES as int, MAX_BYTES as int);
            &&& tail_spec(text) == tail_trailer(ls.len() - k) + seq_join(
                ls.skip(ls.len() - k),
                seq!['\n'],
            )
            &&& 0 <= k <= MAX_LINES as int
            &&& k <= ls.len()
            &&& lines_bytes(ls.skip(ls.len() - k)) <= MAX_BYTES as int
        }),
{
    let ls = lines_of(text);
    lemma_tail_count_bounded(ls, MAX_LINES as int, MAX_BYTES as int);
}

proof fn lemma_tail_count_bounded(ls: Seq<Seq<char>>, max_lines: int, budget: int)
    requires
        max_lines >= 0,
        budget >= 0,
    ensures
        0 <= tail_count(ls, max_lines, budget) <= max_lines,
        tail_count(ls, max_lines, budget) <= ls.len(),
        lines_bytes(ls.skip(ls.len() - tail_count(ls, max_lines, budget))) <= budget,
    decreases ls.len(),
{
    let k = tail_count(ls, max_lines, budget);
    if ls.len() == 0 || max_lines <= 0 || byte_len(ls.last()) + 1 > budget {
        assert(ls.skip(ls.len() - 0) =~= Seq::<Seq<char>>::empty());
    } else {
        let nb = budget - byte_len(ls.last()) - 1;
        lemma_tail_count_bounded(ls.drop_last(), max_lines - 1, nb);
        let k2 = tail_count(ls.drop_last(), max_lines - 1, nb);
        let kept = ls.skip(ls.len() - k);
        let kept2 = ls.drop_last().skip(ls.drop_last().len() - k2);
        lemma_lines_bytes_push(kept2, ls.last());
        assert(kept =~= kept2.push(ls.last()));
    }
}

proof fn lemma_lines_bytes_push(ls: Seq<Seq<char>>, l: Seq<char>)
    ensures
        lines_bytes(ls.push(l)) == lines_bytes(ls) + byte_len(l) + 1,
    decreases ls.len(),
{
    if ls.len() == 0 {
        assert(ls.push(l)[0] == l);
        assert(ls.push(l).drop_first() =~= ls);
    } else {
        assert(ls.push(l)[0] == ls[0]);
        assert(ls.push(l).drop_first() =~= ls.drop_first().push(l));
        lemma_lines_bytes_push(ls.drop_first(), l);
    }
}

} // verus!
