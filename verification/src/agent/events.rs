//! Typed protocol events and their decoding from a parsed payload.
//!
//! Decoding is tolerant: unknown top-level tags become [`StreamEvent::Ignored`],
//! and optional item fields default to absent. A payload whose shape does
//! not fit any variant decodes to nothing, which callers skip.
use vstd::prelude::*;

use crate::json::{Json, JsonData};

verus! {

/// One content block of an output item; only its text is read.
pub struct OutputContentPart {
    pub text: Option<String>,
}

/// A partially populated projection of a server output item: different
/// item types fill different subsets of the fields.
pub struct OutputItem {
    pub item_type: String,
    pub name: Option<String>,
    pub call_id: Option<String>,
    pub arguments: Option<String>,
    pub content: Vec<OutputContentPart>,
}

/// A typed protocol event.
pub enum StreamEvent {
    OutputItemAdded { item: OutputItem },
    TextDelta { delta: String },
    OutputItemDone { item: OutputItem },
    Ignored,
}

/// Ghost model of an output item.
pub struct OutputItemData {
    pub item_type: Seq<char>,
    pub name: Option<Seq<char>>,
    pub call_id: Option<Seq<char>>,
    pub arguments: Option<Seq<char>>,
    pub content: Seq<Option<Seq<char>>>,
}

/// Ghost model of a protocol event.
pub enum StreamEventData {
    OutputItemAdded(OutputItemData),
    TextDelta(Seq<char>),
    OutputItemDone(OutputItemData),
    Ignored,
}

pub open spec fn opt_view(s: Option<String>) -> Option<Seq<char>> {
    match s {
        Some(x) => Some(x@),
        None => None,
    }
}

impl View for OutputItem {
    type V = OutputItemData;

    open spec fn view(&self) -> OutputItemData {
        OutputItemData {
            item_type: self.item_type@,
            name: opt_view(self.name),
            call_id: opt_view(self.call_id),
            arguments: opt_view(self.arguments),
            content: Seq::new(self.content@.len(), |i: int| opt_view(self.content@[i].text)),
        }
    }
}

impl View for StreamEvent {
    type V = StreamEventData;

    open spec fn view(&self) -> StreamEventData {
        match self {
            StreamEvent::OutputItemAdded { item } => StreamEventData::OutputItemAdded(item@),
            StreamEvent::TextDelta { delta } => StreamEventData::TextDelta(delta@),
            StreamEvent::OutputItemDone { item } => StreamEventData::OutputItemDone(item@),
            StreamEvent::Ignored => StreamEventData::Ignored,
        }
    }
}

impl DeepView for StreamEvent {
    type V = StreamEventData;

    open spec fn deep_view(&self) -> StreamEventData {
        self.view()
    }
}

/// An optional string field: absent or null defaults to none; any other
/// non-string value makes the whole decode fail.
pub open spec fn opt_str_field_data(j: JsonData, key: Seq<char>) -> Option<Option<Seq<char>>> {
    match j.get(key) {
        None => Some(None),
        Some(JsonData::Null) => Some(None),
        Some(JsonData::Str(s)) => Some(Some(s)),
        Some(_) => None,
    }
}

/// One content block: an object whose optional text is read.
pub open spec fn part_of_json(j: JsonData) -> Option<Option<Seq<char>>> {
    match j {
        JsonData::Obj(_) => opt_str_field_data(j, "text"@),
        _ => None,
    }
}

/// All content blocks, failing if any one fails.
pub open spec fn parts_of_json(items: Seq<JsonData>) -> Option<Seq<Option<Seq<char>>>>
    decreases items.len(),
{
    if items.len() == 0 {
        Some(Seq::empty())
    } else {
        match (part_of_json(items[0]), parts_of_json(items.drop_first())) {
            (Some(p), Some(rest)) => Some(seq![p] + rest),
            _ => None,
        }
    }
}

/// An output item decoded from a JSON value: the item type is required
/// to be a string; the other fields are optional and default to absent
/// or empty.
pub open spec fn item_of_json(j: JsonData) -> Option<OutputItemData> {
    match j.get("type"@) {
        Some(JsonData::Str(ty)) => {
            match (
                opt_str_field_data(j, "name"@),
                opt_str_field_data(j, "call_id"@),
                opt_str_field_data(j, "arguments"@),
            ) {
                (Some(name), Some(call_id), Some(arguments)) => {
                    let content = match j.get("content"@) {
                        None => Some(Seq::<Option<Seq<char>>>::empty()),
                        Some(JsonData::Arr(items)) => parts_of_json(items),
                        Some(_) => None,
                    };
                    match content {
                        Some(c) => Some(
                            OutputItemData { item_type: ty, name, call_id, arguments, content: c },
                        ),
                        None => None,
                    }
                },
                _ => None,
            }
        },
        _ => None,
    }
}

pub open spec fn added_tag() -> Seq<char> {
    "response.output_item.added"@
}

pub open spec fn delta_tag() -> Seq<char> {
    "response.output_text.delta"@
}

pub open spec fn done_tag() -> Seq<char> {
    "response.output_item.done"@
}

/// A protocol event decoded from a JSON value: dispatch on the `type`
/// tag, with a catch-all for every unknown tag.
pub open spec fn event_of_json(j: JsonData) -> Option<StreamEventData> {
    match j.get("type"@) {
        Some(JsonData::Str(tag)) => {
            if tag == added_tag() {
                match j.get("item"@) {
                    Some(ij) => match item_of_json(ij) {
                        Some(item) => Some(StreamEventData::OutputItemAdded(item)),
                        None => None,
                    },
                    None => None,
                }
            } else if tag == delta_tag() {
                match j.get("delta"@) {
                    Some(JsonData::Str(d)) => Some(StreamEventData::TextDelta(d)),
                    _ => None,
                }
            } else if tag == done_tag() {
                match j.get("item"@) {
                    Some(ij) => match item_of_json(ij) {
                        Some(item) => Some(StreamEventData::OutputItemDone(item)),
                        None => None,
                    },
                    None => None,
                }
            } else {
                Some(StreamEventData::Ignored)
            }
        },
        _ => None,
    }
}

/// An optional string field of an object, with the defaulting that
/// `opt_str_field_data` describes; the outer option reports failure.
fn opt_str_field(j: &Json, key: &str) -> (r: Option<Option<String>>)
    ensures
        match r {
            Some(v) => opt_str_field_data(j@, key@) == Some(opt_view(v)),
            None => opt_str_field_data(j@, key@) is None,
        },
{
    match j.get(key) {
        None => Some(None),
        Some(v) => match v {
            Json::Null => Some(None),
            Json::Str(s) => Some(Some(s.clone())),
            _ => None,
        },
    }
}

/// Decode all content blocks of an item.
fn parts_from_json(items: &Vec<Json>) -> (r: Option<Vec<OutputContentPart>>)
    ensures
        match r {
            Some(v) => parts_of_json(crate::json::jsons_view(items@)) == Some(
                Seq::new(v@.len(), |i: int| opt_view(v@[i].text)),
            ),
            None => parts_of_json(crate::json::jsons_view(items@)) is None,
        },
{
    proof {
        crate::json::lemma_jsons_view_index(items@);
    }
    let ghost models = crate::json::jsons_view(items@);
    let mut out: Vec<OutputContentPart> = Vec::new();
    let n = items.len();
    proof {
        assert(models.skip(0) =~= models);
        match parts_of_json(models) {
            Some(rest) => {
                assert(Seq::new(out@.len(), |t: int| opt_view(out@[t].text)) + rest =~= rest);
            },
            None => {},
        }
    }
    let mut i: usize = 0;
    while i < n
        invariant
            0 <= i <= n,
            n == items.len(),
            models == crate::json::jsons_view(items@),
            models.len() == n,
            forall|k: int| 0 <= k < n ==> models[k] == crate::json::json_view(items@[k]),
            out@.len() == i,
            parts_of_json(models) == (match parts_of_json(models.skip(i as int)) {
                Some(rest) => Some(
                    Seq::new(out@.len(), |t: int| opt_view(out@[t].text)) + rest,
                ),
                None => None::<Seq<Option<Seq<char>>>>,
            }),
        decreases n - i,
    {
        proof {
            lemma_parts_prefix(models, i as int);
        }
        let item = &items[i];
        let part = match item {
            Json::Obj(_) => {
                match opt_str_field(item, "text") {
                    Some(t) => Some(OutputContentPart { text: t }),
                    None => None,
                }
            },
            _ => None,
        };
        match part {
            Some(p) => {
                let ghost old_out = out@;
                out.push(p);
                proof {
                    assert(models.skip(i as int)[0] == models[i as int]);
                    assert(models.skip(i as int).drop_first() =~= models.skip(i + 1));
                    assert(Seq::new(out@.len(), |t: int| opt_view(out@[t].text)) =~= Seq::new(
                        old_out.len(),
                        |t: int| opt_view(old_out[t].text),
                    ).push(opt_view(p.text)));
                    match parts_of_json(models.skip(i + 1)) {
                        Some(rest) => {
                            assert(Seq::new(old_out.len(), |t: int| opt_view(old_out[t].text))
                                + (seq![opt_view(p.text)] + rest) =~= Seq::new(
                                out@.len(),
                                |t: int| opt_view(out@[t].text),
                            ) + rest);
                        },
                        None => {},
                    }
                }
            },
            None => {
                proof {
                    assert(models.skip(i as int)[0] == models[i as int]);
                    assert(part_of_json(models[i as int]) is None);
                }
                return None;
            },
        }
        i += 1;
    }
    proof {
        assert(models.skip(n as int) =~= Seq::<JsonData>::empty());
    }
    Some(out)
}

proof fn lemma_parts_prefix(models: Seq<JsonData>, i: int)
    requires
        0 <= i < models.len(),
    ensures
        parts_of_json(models.skip(i)) == (match (
            part_of_json(models[i]),
            parts_of_json(models.skip(i + 1)),
        ) {
            (Some(p), Some(rest)) => Some(seq![p] + rest),
            _ => None::<Seq<Option<Seq<char>>>>,
        }),
{
    assert(models.skip(i)[0] == models[i]);
    assert(models.skip(i).drop_first() =~= models.skip(i + 1));
}

/// Decode one output item from a JSON value.
pub fn item_from_json(j: &Json) -> (r: Option<OutputItem>)
    ensures
        match r {
            Some(item) => item_of_json(j@) == Some(item@),
            None => item_of_json(j@) is None,
        },
{
    let ty = match j.get("type") {
        Some(v) => match v.str_value() {
            Some(s) => s,
            None => {
                return None;
            },
        },
        None => {
            return None;
        },
    };
    let name = match opt_str_field(j, "name") {
        Some(v) => v,
        None => {
            return None;
        },
    };
    let call_id = match opt_str_field(j, "call_id") {
        Some(v) => v,
        None => {
            return None;
        },
    };
    let arguments = match opt_str_field(j, "arguments") {
        Some(v) => v,
        None => {
            return None;
        },
    };
    let content: Vec<OutputContentPart> = match j.get("content") {
        None => Vec::new(),
        Some(v) => match v {
            Json::Arr(items) => {
                match parts_from_json(items) {
                    Some(parts) => parts,
                    None => {
                        return None;
                    },
                }
            },
            _ => {
                return None;
            },
        },
    };
    let item = OutputItem { item_type: ty, name, call_id, arguments, content };
    proof {
        let cm = Seq::new(item.content@.len(), |i: int| opt_view(item.content@[i].text));
        match j@.get("content"@) {
            None => {
                assert(cm =~= Seq::<Option<Seq<char>>>::empty());
            },
            Some(JsonData::Arr(ms)) => {
                match parts_of_json(ms) {
                    Some(s1) => {
                        assert(cm =~= s1);
                    },
                    None => {
                        assert(false);
                    },
                }
            },
            Some(_) => {
                assert(false);
            },
        }
    }
    Some(item)
}

/// Decode one protocol event from a JSON value.
pub fn event_from_json(j: &Json) -> (r: Option<StreamEvent>)
    ensures
        match r {
            Some(ev) => event_of_json(j@) == Some(ev@),
            None => event_of_json(j@) is None,
        },
{
    let tag = match j.get("type") {
        Some(v) => match v.str_value() {
            Some(s) => s,
            None => {
                return None;
            },
        },
        None => {
            return None;
        },
    };
    if crate::text::str_eq(tag.as_str(), "response.output_item.added") {
        match j.get("item") {
            Some(ij) => match item_from_json(ij) {
                Some(item) => Some(StreamEvent::OutputItemAdded { item }),
                None => None,
            },
            None => None,
        }
    } else if crate::text::str_eq(tag.as_str(), "response.output_text.delta") {
        match j.get("delta") {
            Some(v) => match v.str_value() {
                Some(d) => Some(StreamEvent::TextDelta { delta: d }),
                None => None,
            },
            None => None,
        }
    } else if crate::text::str_eq(tag.as_str(), "response.output_item.done") {
        match j.get("item") {
            Some(ij) => match item_from_json(ij) {
                Some(item) => Some(StreamEvent::OutputItemDone { item }),
                None => None,
            },
            None => None,
        }
    } else {
        Some(StreamEvent::Ignored)
    }
}

} // verus!
