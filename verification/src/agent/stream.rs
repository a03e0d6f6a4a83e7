//! Incremental decoder for the blank-line-delimited streaming protocol.
//!
//! The buffer grows as chunks arrive; `get_event` removes the next
//! complete frame and returns its payload: the frame's marker lines
//! (those beginning `data:`, with one optional leading space stripped)
//! joined with newlines. Frames without any marker line are skipped.
use vstd::prelude::*;

use crate::text::{
    find_ch, find_first, find_str, is_prefix, lemma_find_first_spec, lines_of, lines_vec,
    match_at, no_match_before, prefix_to, seq_join, starts_with, suffix_from, join_with,
};

verus! {

/// The two-newline frame terminator.
pub open spec fn frame_delim() -> Seq<char> {
    seq!['\n', '\n']
}

/// The marker that introduces a payload line.
pub open spec fn data_marker() -> Seq<char> {
    seq!['d', 'a', 't', 'a', ':']
}

/// The payload carried by one frame line: the text after the `data:`
/// marker, with a single leading space stripped if present. Lines
/// without the marker carry no payload.
pub open spec fn payload_of_line(l: Seq<char>) -> Option<Seq<char>> {
    if is_prefix(l, data_marker()) {
        let rest = l.skip(5);
        if rest.len() > 0 && rest[0] == ' ' {
            Some(rest.drop_first())
        } else {
            Some(rest)
        }
    } else {
        None
    }
}

/// The payloads of the lines that carry one, in order.
pub open spec fn data_lines(ls: Seq<Seq<char>>) -> Seq<Seq<char>>
    decreases ls.len(),
{
    if ls.len() == 0 {
        seq![]
    } else {
        let rest = data_lines(ls.drop_first());
        match payload_of_line(ls[0]) {
            Some(p) => seq![p] + rest,
            None => rest,
        }
    }
}

pub proof fn lemma_data_lines_push(ls: Seq<Seq<char>>, l: Seq<char>)
    ensures
        data_lines(ls.push(l)) == match payload_of_line(l) {
            Some(p) => data_lines(ls).push(p),
            None => data_lines(ls),
        },
    decreases ls.len(),
{
    if ls.len() == 0 {
        assert(ls.push(l).drop_first() =~= ls);
        assert(ls.push(l)[0] == l);
        match payload_of_line(l) {
            Some(p) => {
                assert(seq![p] + data_lines(ls) =~= data_lines(ls).push(p));
            },
            None => {},
        }
    } else {
        lemma_data_lines_push(ls.drop_first(), l);
        assert(ls.push(l).drop_first() =~= ls.drop_first().push(l));
        assert(ls.push(l)[0] == ls[0]);
        match payload_of_line(ls[0]) {
            Some(p0) => {
                match payload_of_line(l) {
                    Some(p) => {
                        assert(seq![p0] + data_lines(ls.drop_first()).push(p) =~= (seq![p0]
                            + data_lines(ls.drop_first())).push(p));
                    },
                    None => {},
                }
            },
            None => {},
        }
    }
}

/// The payload of one complete frame, if it has any payload lines.
pub open spec fn frame_payload(f: Seq<char>) -> Option<Seq<char>> {
    let ds = data_lines(lines_of(f));
    if ds.len() == 0 {
        None
    } else {
        Some(seq_join(ds, seq!['\n']))
    }
}

/// One step of the decoder on buffer contents `b`: the payload of the
/// first frame carrying one (earlier payload-less frames are consumed),
/// and what remains of the buffer afterwards.
pub open spec fn decode_step(b: Seq<char>) -> (Option<Seq<char>>, Seq<char>)
    decreases b.len(),
    via decode_step_decreases
{
    match find_first(b, frame_delim()) {
        None => (None, b),
        Some(i) => {
            let f = b.take(i);
            let rest = b.skip(i + 2);
            match frame_payload(f) {
                Some(p) => (Some(p), rest),
                None => decode_step(rest),
            }
        },
    }
}

#[via_fn]
proof fn decode_step_decreases(b: Seq<char>) {
    lemma_find_first_spec(b, frame_delim());
}

/// Remove the next complete frame from the buffer and return its
/// payload; frames without payload lines are consumed and skipped. When
/// no complete frame with a payload remains, returns nothing, leaving
/// whatever is after the last complete frame in the buffer.
#[verifier::rlimit(60)]
pub fn get_event(buffer: &mut String) -> (r: Option<String>)
    ensures
        final(buffer)@ == decode_step(old(buffer)@).1,
        decode_step(old(buffer)@).0 is None ==> r is None,
        decode_step(old(buffer)@).0 matches Some(ps) ==> r matches Some(s) && s@ == ps,
{
    let ghost orig = buffer@;
    loop
        invariant
            orig == old(buffer)@,
            decode_step(orig) == decode_step(buffer@),
        decreases buffer@.len(),
    {
        proof {
            lemma_find_first_spec(buffer@, frame_delim());
            reveal_strlit("\n\n");
            assert("\n\n"@ =~= frame_delim());
        }
        match find_str(buffer.as_str(), "\n\n") {
            None => {
                return None;
            },
            Some(pos) => {
                let ghost prev = buffer@;
                let len = buffer.as_str().unicode_len();
                assert(pos + 2 <= len);
                let event_text = prefix_to(buffer.as_str(), pos);
                *buffer = suffix_from(buffer.as_str(), pos + 2);
                assert(decode_step(prev) == (match frame_payload(event_text@) {
                    Some(p) => (Some(p), buffer@),
                    None => decode_step(buffer@),
                }));
                let payload = extract_payload(event_text.as_str());
                match payload {
                    Some(p) => {
                        return Some(p);
                    },
                    None => {
                    },
                }
            },
        }
    }
}

/// What parsing one payload yields: nothing for text the JSON parser
/// rejects or whose shape fits no event, the decoded event otherwise.
pub open spec fn parse_event_spec(s: Seq<char>) -> Option<
    crate::agent::events::StreamEventData,
> {
    match crate::json::json_of(s) {
        None => None,
        Some(j) => crate::agent::events::event_of_json(j),
    }
}

/// Decode one payload into a typed protocol event. Malformed payloads
/// yield nothing, which the caller skips; a single corrupt event never
/// aborts the stream.
pub fn parse_event(data: &str) -> (r: Option<crate::agent::events::StreamEvent>)
    ensures
        match r {
            Some(ev) => parse_event_spec(data@) == Some(ev@),
            None => parse_event_spec(data@) is None,
        },
{
    match crate::json::parse_json(data) {
        None => None,
        Some(j) => crate::agent::events::event_from_json(&j),
    }
}

/// A bounded-length preview of an offending payload, for diagnostics.
pub fn payload_preview(data: &str) -> (r: String)
    ensures
        r@ == data@.take(if data@.len() < 200 { data@.len() as int } else { 200 }),
{
    let n = data.unicode_len();
    let cut = if n < 200 {
        n
    } else {
        200
    };
    prefix_to(data, cut)
}

/// The events decoded from a sequence of payloads, in order; payloads
/// that decode to nothing are skipped.
pub open spec fn events_of_payloads(ps: Seq<Seq<char>>) -> Seq<
    crate::agent::events::StreamEventData,
>
    decreases ps.len(),
{
    if ps.len() == 0 {
        seq![]
    } else {
        let rest = events_of_payloads(ps.drop_first());
        match parse_event_spec(ps[0]) {
            Some(e) => seq![e] + rest,
            None => rest,
        }
    }
}

/// Extract every complete frame now in the buffer and decode its
/// payload; a payload that fails to decode is skipped and the following
/// frames are still decoded.
#[verifier::rlimit(100)]
#[verifier::spinoff_prover]
pub fn drain_events(buffer: &mut String) -> (r: Vec<crate::agent::events::StreamEvent>)
    ensures
        final(buffer)@ == drain_rest(old(buffer)@),
        r.deep_view() == events_of_payloads(drain(old(buffer)@)),
{
    let mut out: Vec<crate::agent::events::StreamEvent> = Vec::new();
    loop
        invariant
            drain_rest(old(buffer)@) == drain_rest(buffer@),
            events_of_payloads(drain(old(buffer)@)) == out.deep_view() + events_of_payloads(
                drain(buffer@),
            ),
        decreases buffer@.len(),
    {
        proof {
            lemma_decode_step_consumes(buffer@);
        }
        let ghost prev = buffer@;
        match get_event(buffer) {
            None => {
                proof {
                    assert(drain(prev) =~= Seq::<Seq<char>>::empty());
                    assert(out.deep_view() + events_of_payloads(drain(prev)) =~= out.deep_view());
                }
                return out;
            },
            Some(data) => {
                let ghost p = decode_step(prev).0->0;
                proof {
                    assert(drain(prev) == seq![p] + drain(buffer@));
                    assert(drain(prev)[0] == p);
                    assert(drain(prev).drop_first() =~= drain(buffer@));
                }
                match parse_event(data.as_str()) {
                    Some(ev) => {
                        let ghost old_out = out.deep_view();
                        out.push(ev);
                        proof {
                            assert(out.deep_view() =~= old_out.push(ev@));
                            assert(old_out.push(ev@) + events_of_payloads(drain(buffer@))
                                =~= old_out + (seq![ev@] + events_of_payloads(drain(buffer@))));
                        }
                    },
                    None => {
                    },
                }
            },
        }
    }
}

/// Append a newly arrived chunk to the decoder's buffer.
pub fn feed(buffer: &mut String, chunk: &str)
    ensures
        final(buffer)@ == old(buffer)@ + chunk@,
{
    buffer.append(chunk);
}

/// One decoding step shortens the buffer whenever it yields a payload,
/// and never lengthens it.
pub proof fn lemma_decode_step_consumes(b: Seq<char>)
    ensures
        decode_step(b).1.len() <= b.len(),
        decode_step(b).0 is Some ==> decode_step(b).1.len() < b.len(),
    decreases b.len(),
{
    lemma_find_first_spec(b, frame_delim());
    match find_first(b, frame_delim()) {
        None => {},
        Some(i) => {
            match frame_payload(b.take(i)) {
                Some(_) => {},
                None => {
                    lemma_decode_step_consumes(b.skip(i + 2));
                },
            }
        },
    }
}

/// Every payload the decoder can extract from buffer contents `b`, in
/// order of extraction.
pub open spec fn drain(b: Seq<char>) -> Seq<Seq<char>>
    decreases b.len(),
    via drain_decreases
{
    match decode_step(b).0 {
        Some(p) => seq![p] + drain(decode_step(b).1),
        None => seq![],
    }
}

#[via_fn]
proof fn drain_decreases(b: Seq<char>) {
    lemma_decode_step_consumes(b);
}

/// What remains in the buffer after the decoder has extracted everything
/// it can from contents `b`.
pub open spec fn drain_rest(b: Seq<char>) -> Seq<char>
    decreases b.len(),
    via drain_rest_decreases
{
    match decode_step(b).0 {
        Some(_) => drain_rest(decode_step(b).1),
        None => decode_step(b).1,
    }
}

#[via_fn]
proof fn drain_rest_decreases(b: Seq<char>) {
    lemma_decode_step_consumes(b);
}

/// Appending further bytes to the buffer never changes a decoding step
/// that was already possible: an extracted payload stays the same and
/// the appended bytes land after the remaining buffer.
pub proof fn lemma_decode_step_extend(b: Seq<char>, ext: Seq<char>)
    ensures
        decode_step(b).0 matches Some(p) ==> decode_step(b + ext) == (
            Some(p),
            decode_step(b).1 + ext,
        ),
        decode_step(b).0 is None ==> decode_step(b + ext) == decode_step(decode_step(b).1 + ext),
    decreases b.len(),
{
    lemma_find_first_spec(b, frame_delim());
    lemma_find_first_spec(b + ext, frame_delim());
    match find_first(b, frame_delim()) {
        None => {
            assert(decode_step(b).1 + ext =~= b + ext);
        },
        Some(i) => {
            assert(match_at(b + ext, frame_delim(), i)) by {
                assert((b + ext).subrange(i, i + 2) =~= b.subrange(i, i + 2));
            }
            assert(no_match_before(b + ext, frame_delim(), i)) by {
                assert forall|j: int| 0 <= j < i implies !match_at(b + ext, frame_delim(), j) by {
                    if match_at(b + ext, frame_delim(), j) {
                        assert((b + ext).subrange(j, j + 2) =~= b.subrange(j, j + 2));
                        assert(match_at(b, frame_delim(), j));
                    }
                }
            }
            crate::text::lemma_find_first_unique(b + ext, frame_delim(), i);
            assert((b + ext).take(i) =~= b.take(i));
            assert((b + ext).skip(i + 2) =~= b.skip(i + 2) + ext);
            match frame_payload(b.take(i)) {
                Some(_) => {},
                None => {
                    lemma_decode_step_extend(b.skip(i + 2), ext);
                },
            }
        },
    }
}

/// Chunk-boundary independence: however a byte stream is split into
/// chunks, the decoder extracts the same sequence of payloads. Extracting
/// everything from `a`, then feeding `ext` onto what remained and
/// extracting again, yields exactly what one extraction from the whole
/// of `a + ext` yields.
#[verifier::rlimit(100)]
#[verifier::spinoff_prover]
pub proof fn lemma_chunk_boundary_independence(a: Seq<char>, ext: Seq<char>)
    ensures
        drain(a + ext) == drain(a) + drain(drain_rest(a) + ext),
    decreases a.len(),
{
    lemma_decode_step_extend(a, ext);
    lemma_decode_step_consumes(a);
    match decode_step(a).0 {
        Some(p) => {
            lemma_chunk_boundary_independence(decode_step(a).1, ext);
            assert(drain(a + ext) == seq![p] + drain(decode_step(a).1 + ext));
            assert(seq![p] + (drain(decode_step(a).1) + drain(drain_rest(a) + ext)) =~= (seq![p]
                + drain(decode_step(a).1)) + drain(drain_rest(a) + ext));
        },
        None => {
            assert(decode_step(a + ext) == decode_step(drain_rest(a) + ext));
            assert(drain(a + ext) =~= drain(drain_rest(a) + ext));
            assert(drain(a) + drain(drain_rest(a) + ext) =~= drain(drain_rest(a) + ext));
        },
    }
}

/// A frame with no payload lines never produces an output frame: the
/// decoder consumes it and decoding continues on the rest of the buffer.
pub proof fn lemma_empty_frame_skipped(f: Seq<char>, rest: Seq<char>)
    requires
        no_match_before(f + frame_delim() + rest, frame_delim(), f.len() as int),
        frame_payload(f) is None,
    ensures
        decode_step(f + frame_delim() + rest) == decode_step(rest),
{
    let buf = f + frame_delim() + rest;
    assert(match_at(buf, frame_delim(), f.len() as int)) by {
        assert(buf.subrange(f.len() as int, f.len() as int + 2) =~= frame_delim());
    }
    crate::text::lemma_find_first_unique(buf, frame_delim(), f.len() as int);
    assert(buf.take(f.len() as int) =~= f);
    assert(buf.skip(f.len() as int + 2) =~= rest);
}

/// The text of a frame line that carries the payload piece `d`.
pub open spec fn data_line_text(d: Seq<char>) -> Seq<char> {
    data_marker() + seq![' '] + d
}

/// The text of a whole frame whose payload is split across the pieces
/// `ds`, one marker line per piece.
pub open spec fn frame_of_data_lines(ds: Seq<Seq<char>>) -> Seq<char> {
    seq_join(ds.map_values(|d: Seq<char>| data_line_text(d)), seq!['\n'])
}

/// Splitting the newline-join of newline-free, non-empty lines gives the
/// lines back.
proof fn lemma_lines_of_join(xs: Seq<Seq<char>>)
    requires
        forall|i: int| #![auto] 0 <= i < xs.len() ==> xs[i].len() > 0,
        forall|i: int, j: int| #![auto] 0 <= i < xs.len() && 0 <= j < xs[i].len() ==> xs[i][j]
            != '\n',
        forall|i: int| #![auto] 0 <= i < xs.len() ==> xs[i][xs[i].len() - 1] != '\r',
    ensures
        lines_of(seq_join(xs, seq!['\n'])) == xs,
    decreases xs.len(),
{
    let nl = seq!['\n'];
    if xs.len() == 0 {
        assert(lines_of(seq_join(xs, nl)) =~= xs);
    } else if xs.len() == 1 {
        let s = seq_join(xs, nl);
        assert(s == xs[0]);
        crate::text::lemma_find_ch_spec(s, '\n');
        match find_ch(s, '\n') {
            Some(i) => {
                assert(false);
            },
            None => {},
        }
        assert(lines_of(s) =~= xs);
    } else {
        let s = seq_join(xs, nl);
        let k = xs[0].len() as int;
        assert(s == xs[0] + nl + seq_join(xs.drop_first(), nl));
        assert(s[k] == '\n');
        assert(forall|j: int| 0 <= j < k ==> s[j] == xs[0][j] && s[j] != '\n');
        crate::text::lemma_find_ch_first(s, '\n', k);
        assert(s.take(k) =~= xs[0]);
        assert(crate::text::strip_cr(xs[0]) == xs[0]);
        assert(s.skip(k + 1) =~= seq_join(xs.drop_first(), nl));
        lemma_lines_of_join(xs.drop_first());
        assert(lines_of(s) =~= seq![xs[0]] + xs.drop_first());
        assert(seq![xs[0]] + xs.drop_first() =~= xs);
    }
}

/// The marker lines of payload pieces carry exactly those pieces.
proof fn lemma_data_lines_of_markers(ds: Seq<Seq<char>>)
    ensures
        data_lines(ds.map_values(|d: Seq<char>| data_line_text(d))) == ds,
    decreases ds.len(),
{
    let ls = ds.map_values(|d: Seq<char>| data_line_text(d));
    if ds.len() == 0 {
        assert(data_lines(ls) =~= ds);
    } else {
        let l = ls[0];
        assert(l == data_line_text(ds[0]));
        assert(is_prefix(l, data_marker())) by {
            assert(l.subrange(0, 5) =~= data_marker());
        }
        assert(l.skip(5) =~= seq![' '] + ds[0]);
        assert(l.skip(5)[0] == ' ');
        assert(payload_of_line(l) == Some(l.skip(5).drop_first()));
        assert(l.skip(5).drop_first() =~= ds[0]);
        lemma_data_lines_of_markers(ds.drop_first());
        assert(ls.drop_first() =~= ds.drop_first().map_values(
            |d: Seq<char>| data_line_text(d),
        ));
        assert(data_lines(ls) == seq![ds[0]] + ds.drop_first());
        assert(seq![ds[0]] + ds.drop_first() =~= ds);
    }
}

/// A payload split across several marker lines of one frame reassembles
/// to the same text as a payload sent on one line: the pieces joined by
/// newlines.
pub proof fn lemma_multi_line_payload(ds: Seq<Seq<char>>)
    requires
        ds.len() > 0,
        forall|i: int, j: int| #![auto] 0 <= i < ds.len() && 0 <= j < ds[i].len() ==> ds[i][j]
            != '\n',
        forall|i: int| #![auto] 0 <= i < ds.len() && ds[i].len() > 0 ==> ds[i][ds[i].len() - 1]
            != '\r',
    ensures
        frame_payload(frame_of_data_lines(ds)) == Some(seq_join(ds, seq!['\n'])),
{
    let ls = ds.map_values(|d: Seq<char>| data_line_text(d));
    assert forall|i: int| #![auto] 0 <= i < ls.len() implies ls[i].len() > 0
        && ls[i][ls[i].len() - 1] != '\r' by {
        assert(ls[i] == data_line_text(ds[i]));
        if ds[i].len() > 0 {
            assert(ls[i][ls[i].len() - 1] == ds[i][ds[i].len() - 1]);
        } else {
            assert(ls[i][ls[i].len() - 1] == ' ');
        }
    }
    assert forall|i: int, j: int| #![auto] 0 <= i < ls.len() && 0 <= j < ls[i].len() implies
        ls[i][j] != '\n' by {
        assert(ls[i] == data_line_text(ds[i]));
        if j < 6 {
            assert(ls[i][j] == (data_marker() + seq![' '])[j]);
        } else {
            assert(ls[i][j] == ds[i][j - 6]);
        }
    }
    lemma_lines_of_join(ls);
    lemma_data_lines_of_markers(ds);
}

/// The payload of one frame's text, as `frame_payload` describes it.
fn extract_payload(f: &str) -> (r: Option<String>)
    ensures
        match (r, frame_payload(f@)) {
            (Some(s), Some(ps)) => s@ == ps,
            (None, None) => true,
            _ => false,
        },
{
    let lines = lines_vec(f);
    let mut found: Vec<String> = Vec::new();
    let n = lines.len();
    let mut i: usize = 0;
    while i < n
        invariant
            0 <= i <= n,
            n == lines.len(),
            lines.deep_view() == lines_of(f@),
            found.deep_view() == data_lines(lines.deep_view().take(i as int)),
        decreases n - i,
    {
        let line = &lines[i];
        proof {
            lemma_data_lines_push(lines.deep_view().take(i as int), lines.deep_view()[i as int]);
            assert(lines.deep_view().take(i + 1) =~= lines.deep_view().take(i as int).push(
                lines.deep_view()[i as int],
            ));
        }
        proof {
            reveal_strlit("data:");
            assert("data:"@ =~= data_marker());
        }
        if starts_with(line.as_str(), "data:") {
            let line_len = line.as_str().unicode_len();
            let rest = suffix_from(line.as_str(), 5);
            let ghost restv = line@.skip(5);
            let picked: String = if rest.as_str().unicode_len() > 0 && rest.as_str().get_char(0)
                == ' ' {
                let p = suffix_from(rest.as_str(), 1);
                assert(p@ =~= restv.drop_first());
                p
            } else {
                rest
            };
            let ghost old_found = found.deep_view();
            found.push(picked);
            assert(found.deep_view() =~= old_found.push(picked@));
        }
        i += 1;
    }
    proof {
        assert(lines.deep_view().take(n as int) =~= lines.deep_view());
    }
    if found.len() == 0 {
        assert(frame_payload(f@) is None);
        None
    } else {
        let joined = join_with(&found, "\n");
        proof {
            reveal_strlit("\n");
            assert("\n"@ =~= seq!['\n']);
        }
        Some(joined)
    }
}

} // verus!
