//! The result of one tool invocation: either success or error, never
//! partially constructed.
use vstd::prelude::*;

use crate::json::{fields_view, Json, JsonData};

verus! {

/// What a tool executor hands back to the conversation.
pub struct ToolResult {
    pub content: String,
    pub is_error: bool,
    pub details: Option<Json>,
}

/// Ghost model of a tool result.
pub struct ToolResultData {
    pub content: Seq<char>,
    pub is_error: bool,
    pub details: Option<JsonData>,
}

impl View for ToolResult {
    type V = ToolResultData;

    open spec fn view(&self) -> ToolResultData {
        ToolResultData {
            content: self.content@,
            is_error: self.is_error,
            details: match &self.details {
                Some(d) => Some(crate::json::json_view(*d)),
                None => None,
            },
        }
    }
}

impl ToolResult {
    /// A successful result carrying `content`.
    pub fn success(content: String) -> (r: Self)
        ensures
            r@.content == content@,
            !r@.is_error,
            r@.details is None,
    {
        ToolResult { content, is_error: false, details: None }
    }

    /// An error result carrying `content`.
    pub fn error(content: String) -> (r: Self)
        ensures
            r@.content == content@,
            r@.is_error,
            r@.details is None,
    {
        ToolResult { content, is_error: true, details: None }
    }

    /// The result rendered for conversation history: an object with the
    /// content and the error flag, and the details only when present.
    pub fn to_history_output(&self) -> (r: Json)
        ensures
            r@ == history_output_data(self@),
    {
        let mut fields: Vec<(String, Json)> = Vec::new();
        fields.push((String::from_str("content"), Json::Str(self.content.clone())));
        fields.push((String::from_str("is_error"), Json::Bool(self.is_error)));
        match &self.details {
            Some(d) => {
                fields.push((String::from_str("details"), crate::json::json_dup(d)));
            },
            None => {},
        }
        let ghost fseq = fields@;
        proof {
            crate::json::lemma_fields_view_index(fseq);
        }
        let r = Json::Obj(fields);
        proof {
            assert(r@ == JsonData::Obj(fields_view(fseq)));
            assert(fields_view(fseq) =~= history_output_data(self@)->Obj_0);
            assert(r@ == history_output_data(self@));
        }
        r
    }
}

/// The history rendering of a tool result.
pub open spec fn history_output_data(t: ToolResultData) -> JsonData {
    let base = seq![
        ("content"@, JsonData::Str(t.content)),
        ("is_error"@, JsonData::Bool(t.is_error)),
    ];
    match t.details {
        Some(d) => JsonData::Obj(base.push(("details"@, d))),
        None => JsonData::Obj(base),
    }
}

} // verus!
