//! The conversation reducer: consumes typed events, extends conversation
//! history, reports text for live display, and hands completed tool
//! calls out for dispatch. The caller performs the dispatch and returns
//! the result, upon which the call and its output are appended to
//! history as one adjacent pair.
use vstd::prelude::*;

use crate::agent::events::{OutputItemData, StreamEvent, StreamEventData};
use crate::tools::tool_result::{ToolResult, ToolResultData};

verus! {

/// One immutable unit of conversation history.
pub enum Entry {
    UserMessage { content: String },
    AssistantMessage { content: String },
    FunctionCall { call_id: String, name: String, arguments: String },
    FunctionCallOutput { call_id: String, output: ToolResult },
}

/// Ghost model of a history entry.
pub enum EntryData {
    UserMessage { content: Seq<char> },
    AssistantMessage { content: Seq<char> },
    FunctionCall { call_id: Seq<char>, name: Seq<char>, arguments: Seq<char> },
    FunctionCallOutput { call_id: Seq<char>, output: ToolResultData },
}

impl View for Entry {
    type V = EntryData;

    open spec fn view(&self) -> EntryData {
        match self {
            Entry::UserMessage { content } => EntryData::UserMessage { content: content@ },
            Entry::AssistantMessage { content } => EntryData::AssistantMessage {
                content: content@,
            },
            Entry::FunctionCall { call_id, name, arguments } => EntryData::FunctionCall {
                call_id: call_id@,
                name: name@,
                arguments: arguments@,
            },
            Entry::FunctionCallOutput { call_id, output } => EntryData::FunctionCallOutput {
                call_id: call_id@,
                output: output@,
            },
        }
    }
}

impl DeepView for Entry {
    type V = EntryData;

    open spec fn deep_view(&self) -> EntryData {
        self.view()
    }
}

/// A function call is immediately followed by exactly one output entry
/// carrying the same call identifier.
pub open spec fn call_followed(h: Seq<EntryData>, i: int) -> bool {
    h[i] matches EntryData::FunctionCall { call_id, .. } ==> {
        &&& i + 1 < h.len()
        &&& h[i + 1] matches EntryData::FunctionCallOutput { call_id: out_id, .. } && out_id
            == call_id
    }
}

/// Well-formed history: every function call is immediately followed by
/// its matching output.
pub open spec fn history_wf(h: Seq<EntryData>) -> bool {
    forall|i: int| 0 <= i < h.len() ==> #[trigger] call_followed(h, i)
}

/// Appending anything but a function call preserves well-formedness.
pub proof fn lemma_wf_push_plain(h: Seq<EntryData>, e: EntryData)
    requires
        history_wf(h),
        !(e is FunctionCall),
    ensures
        history_wf(h.push(e)),
{
    let h2 = h.push(e);
    assert forall|i: int| 0 <= i < h2.len() implies #[trigger] call_followed(h2, i) by {
        if i < h.len() {
            assert(call_followed(h, i));
            assert(h2[i] == h[i]);
            if h[i] is FunctionCall {
                assert(h2[i + 1] == h[i + 1]);
            }
        } else {
            assert(h2[i] == e);
        }
    }
}

/// Appending a function call together with its matching output
/// preserves well-formedness, and the two stand adjacent with one call
/// identifier.
pub proof fn lemma_wf_push_call_pair(h: Seq<EntryData>, call: EntryData, out: EntryData)
    requires
        history_wf(h),
        call is FunctionCall,
        out matches EntryData::FunctionCallOutput { call_id: out_id, .. } && out_id
            == call->FunctionCall_call_id,
    ensures
        history_wf(h.push(call).push(out)),
{
    let h2 = h.push(call).push(out);
    assert forall|i: int| 0 <= i < h2.len() implies #[trigger] call_followed(h2, i) by {
        if i < h.len() {
            assert(call_followed(h, i));
            assert(h2[i] == h[i]);
            if h[i] is FunctionCall {
                assert(h2[i + 1] == h[i + 1]);
            }
        } else if i == h.len() {
            assert(h2[i] == call);
            assert(h2[i + 1] == out);
        } else {
            assert(h2[i] == out);
        }
    }
}

/// A tool call completed by the server, awaiting dispatch.
pub struct PendingCall {
    pub call_id: String,
    pub name: String,
    pub arguments: String,
}

/// Ghost model of a pending call.
pub struct PendingCallData {
    pub call_id: Seq<char>,
    pub name: Seq<char>,
    pub arguments: Seq<char>,
}

impl View for PendingCall {
    type V = PendingCallData;

    open spec fn view(&self) -> PendingCallData {
        PendingCallData { call_id: self.call_id@, name: self.name@, arguments: self.arguments@ }
    }
}

/// What handling one event asks of the caller: text to show at once,
/// and possibly a completed tool call to dispatch.
pub struct HandlerOutput {
    pub emit: String,
    pub pending: Option<PendingCall>,
}

/// Ghost model of the reducer state.
pub struct HandlerModel {
    pub history: Seq<EntryData>,
    pub has_tool_calls: bool,
}

/// The text of an item's first content block, empty when absent.
pub open spec fn first_content_text(item: OutputItemData) -> Seq<char> {
    if item.content.len() > 0 && item.content[0] is Some {
        item.content[0]->0
    } else {
        Seq::empty()
    }
}

/// The line announcing a pending tool call.
pub open spec fn calling_banner(name: Option<Seq<char>>) -> Seq<char> {
    "Calling "@ + (match name {
        Some(n) => n,
        None => "unknown"@,
    }) + "...\n"@
}

pub open spec fn or_empty(s: Option<Seq<char>>) -> Seq<char> {
    match s {
        Some(x) => x,
        None => Seq::empty(),
    }
}

/// How one event changes the reducer state, what it emits, and what
/// call it hands out for dispatch.
pub open spec fn handle_event_spec(m: HandlerModel, ev: StreamEventData) -> (
    HandlerModel,
    Seq<char>,
    Option<PendingCallData>,
) {
    match ev {
        StreamEventData::OutputItemAdded(item) => {
            let emit = if item.item_type == "function_call"@ {
                calling_banner(item.name)
            } else {
                Seq::empty()
            };
            (m, emit, None)
        },
        StreamEventData::TextDelta(d) => (m, d, None),
        StreamEventData::OutputItemDone(item) => {
            if item.item_type == "message"@ {
                let m2 = HandlerModel {
                    history: m.history.push(
                        EntryData::AssistantMessage { content: first_content_text(item) },
                    ),
                    has_tool_calls: m.has_tool_calls,
                };
                (m2, "\n"@, None)
            } else if item.item_type == "function_call"@ {
                let pending = PendingCallData {
                    call_id: or_empty(item.call_id),
                    name: or_empty(item.name),
                    arguments: or_empty(item.arguments),
                };
                (m, Seq::empty(), Some(pending))
            } else {
                (m, Seq::empty(), None)
            }
        },
        StreamEventData::Ignored => (m, Seq::empty(), None),
    }
}

/// How finishing a dispatched call changes the reducer state: the call
/// and its output are appended as one adjacent pair and the round is
/// marked as having had tool calls.
pub open spec fn finish_call_spec(
    m: HandlerModel,
    call: PendingCallData,
    result: ToolResultData,
) -> HandlerModel {
    HandlerModel {
        history: m.history.push(
            EntryData::FunctionCall {
                call_id: call.call_id,
                name: call.name,
                arguments: call.arguments,
            },
        ).push(EntryData::FunctionCallOutput { call_id: call.call_id, output: result }),
        has_tool_calls: true,
    }
}

/// State carried across one streaming round.
pub struct EventHandler {
    history: Vec<Entry>,
    has_tool_calls: bool,
}

impl View for EventHandler {
    type V = HandlerModel;

    closed spec fn view(&self) -> HandlerModel {
        HandlerModel { history: self.history.deep_view(), has_tool_calls: self.has_tool_calls }
    }
}

impl EventHandler {
    pub fn new(history: Vec<Entry>) -> (r: Self)
        ensures
            r@.history == history.deep_view(),
            !r@.has_tool_calls,
    {
        EventHandler { history, has_tool_calls: false }
    }

    /// Whether this round produced at least one tool call.
    pub fn has_tool_calls(&self) -> (r: bool)
        ensures
            r == self@.has_tool_calls,
    {
        self.has_tool_calls
    }

    /// Hand the extended history back when the round is over.
    pub fn into_history(self) -> (r: Vec<Entry>)
        ensures
            r.deep_view() == self@.history,
    {
        self.history
    }

    /// Consume one event: extend history for a completed message, emit
    /// live text, and hand a completed function call out for dispatch.
    /// A well-formed history stays well-formed.
    pub fn handle_event(&mut self, event: StreamEvent) -> (out: HandlerOutput)
        ensures
            ({
                let (m2, emit, pending) = handle_event_spec(old(self)@, event@);
                &&& final(self)@ == m2
                &&& out.emit@ == emit
                &&& match (out.pending, pending) {
                    (Some(p), Some(pd)) => p@ == pd,
                    (None, None) => true,
                    _ => false,
                }
                &&& history_wf(old(self)@.history) ==> history_wf(final(self)@.history)
            }),
    {
        let ghost old_model = self@;
        match event {
            StreamEvent::OutputItemAdded { item } => {
                let emit: String = if crate::text::str_eq(
                    item.item_type.as_str(),
                    "function_call",
                ) {
                    let mut banner = String::from_str("Calling ");
                    match &item.name {
                        Some(n) => {
                            banner.append(n.as_str());
                        },
                        None => {
                            banner.append("unknown");
                        },
                    }
                    banner.append("...\n");
                    proof {
                        assert(banner@ =~= calling_banner(item@.name));
                    }
                    banner
                } else {
                    String::new()
                };
                HandlerOutput { emit, pending: None }
            },
            StreamEvent::TextDelta { delta } => {
                HandlerOutput { emit: delta, pending: None }
            },
            StreamEvent::OutputItemDone { item } => {
                if crate::text::str_eq(item.item_type.as_str(), "message") {
                    let text: String = if item.content.len() > 0 {
                        match &item.content[0].text {
                            Some(t) => t.clone(),
                            None => String::new(),
                        }
                    } else {
                        String::new()
                    };
                    proof {
                        assert(text@ == first_content_text(item@));
                    }
                    let entry = Entry::AssistantMessage { content: text };
                    let ghost e = entry@;
                    self.history.push(entry);
                    proof {
                        assert(self.history.deep_view() =~= old_model.history.push(e));
                        if history_wf(old_model.history) {
                            lemma_wf_push_plain(old_model.history, e);
                        }
                    }
                    HandlerOutput { emit: String::from_str("\n"), pending: None }
                } else if crate::text::str_eq(item.item_type.as_str(), "function_call") {
                    let call_id = match item.call_id {
                        Some(s) => s,
                        None => String::new(),
                    };
                    let name = match item.name {
                        Some(s) => s,
                        None => String::new(),
                    };
                    let arguments = match item.arguments {
                        Some(s) => s,
                        None => String::new(),
                    };
                    let pending = PendingCall { call_id, name, arguments };
                    HandlerOutput { emit: String::new(), pending: Some(pending) }
                } else {
                    HandlerOutput { emit: String::new(), pending: None }
                }
            },
            StreamEvent::Ignored => {
                HandlerOutput { emit: String::new(), pending: None }
            },
        }
    }

    /// Append a dispatched call and its result to history as one
    /// adjacent pair with one call identifier, and mark the round. A
    /// well-formed history stays well-formed.
    pub fn finish_call(&mut self, call: PendingCall, result: ToolResult)
        ensures
            final(self)@ == finish_call_spec(old(self)@, call@, result@),
            history_wf(old(self)@.history) ==> history_wf(final(self)@.history),
    {
        let ghost old_model = self@;
        let ghost call_model = call@;
        let ghost result_model = result@;
        let out_id = call.call_id.clone();
        let entry_call = Entry::FunctionCall {
            call_id: call.call_id,
            name: call.name,
            arguments: call.arguments,
        };
        let entry_out = Entry::FunctionCallOutput { call_id: out_id, output: result };
        let ghost ec = entry_call@;
        let ghost eo = entry_out@;
        self.history.push(entry_call);
        self.history.push(entry_out);
        self.has_tool_calls = true;
        proof {
            assert(self.history.deep_view() =~= old_model.history.push(ec).push(eo));
            if history_wf(old_model.history) {
                lemma_wf_push_call_pair(old_model.history, ec, eo);
            }
        }
    }
}

} // verus!
