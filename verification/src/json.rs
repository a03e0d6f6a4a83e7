//! A JSON value as the library models it: numbers are kept as far as
//! the logic reads them (unsigned and signed integers; any other number
//! only as the fact that one was present), objects as ordered key/value
//! pairs. Parsing text into this model is delegated to an outside
//! parser behind a trusted wrapper; everything that walks or builds a
//! value is verified against the ghost model [`JsonData`].
use vstd::prelude::*;

verus! {

broadcast use vstd::std_specs::vec::group_vec_axioms;

/// An in-memory JSON value.
pub enum Json {
    Null,
    Bool(bool),
    /// A number representable as an unsigned 64-bit integer.
    UInt(u64),
    /// A negative number representable as a signed 64-bit integer.
    NegInt(i64),
    /// Any other number; the logic never reads its value.
    NumOther,
    Str(String),
    Arr(Vec<Json>),
    Obj(Vec<(String, Json)>),
}

/// The ghost model of a JSON value.
pub enum JsonData {
    Null,
    Bool(bool),
    UInt(u64),
    NegInt(i64),
    NumOther,
    Str(Seq<char>),
    Arr(Seq<JsonData>),
    Obj(Seq<(Seq<char>, JsonData)>),
}

/// The ghost model of a JSON value.
pub open spec fn json_view(j: Json) -> JsonData
    decreases j,
{
    match j {
        Json::Null => JsonData::Null,
        Json::Bool(b) => JsonData::Bool(b),
        Json::UInt(n) => JsonData::UInt(n),
        Json::NegInt(n) => JsonData::NegInt(n),
        Json::NumOther => JsonData::NumOther,
        Json::Str(s) => JsonData::Str(s@),
        Json::Arr(items) => JsonData::Arr(jsons_view(items@)),
        Json::Obj(fields) => JsonData::Obj(fields_view(fields@)),
    }
}

/// The ghost models of a sequence of JSON values, element for element.
pub open spec fn jsons_view(s: Seq<Json>) -> Seq<JsonData>
    decreases s,
{
    if s.len() == 0 {
        Seq::empty()
    } else {
        seq![json_view(s[0])] + jsons_view(s.drop_first())
    }
}

/// The ghost models of ordered object fields, pair for pair.
pub open spec fn fields_view(s: Seq<(String, Json)>) -> Seq<(Seq<char>, JsonData)>
    decreases s,
{
    if s.len() == 0 {
        Seq::empty()
    } else {
        seq![(s[0].0@, json_view(s[0].1))] + fields_view(s.drop_first())
    }
}

pub proof fn lemma_jsons_view_index(s: Seq<Json>)
    ensures
        jsons_view(s).len() == s.len(),
        forall|i: int| 0 <= i < s.len() ==> jsons_view(s)[i] == json_view(s[i]),
    decreases s,
{
    if s.len() > 0 {
        lemma_jsons_view_index(s.drop_first());
        assert forall|i: int| 0 <= i < s.len() implies jsons_view(s)[i] == json_view(s[i]) by {
            if i > 0 {
                assert(s.drop_first()[i - 1] == s[i]);
            }
        }
    }
}

pub proof fn lemma_fields_view_index(s: Seq<(String, Json)>)
    ensures
        fields_view(s).len() == s.len(),
        forall|i: int| 0 <= i < s.len() ==> fields_view(s)[i] == (s[i].0@, json_view(s[i].1)),
    decreases s,
{
    if s.len() > 0 {
        lemma_fields_view_index(s.drop_first());
        assert forall|i: int| 0 <= i < s.len() implies fields_view(s)[i] == (
            s[i].0@,
            json_view(s[i].1),
        ) by {
            if i > 0 {
                assert(s.drop_first()[i - 1] == s[i]);
            }
        }
    }
}

impl View for Json {
    type V = JsonData;

    open spec fn view(&self) -> JsonData {
        json_view(*self)
    }
}

impl DeepView for Json {
    type V = JsonData;

    open spec fn deep_view(&self) -> JsonData {
        json_view(*self)
    }
}

/// The value under `key` among ordered object fields: the first pair
/// with that key wins.
pub open spec fn fields_get(fs: Seq<(Seq<char>, JsonData)>, key: Seq<char>) -> Option<JsonData>
    decreases fs.len(),
{
    if fs.len() == 0 {
        None
    } else if fs[0].0 == key {
        Some(fs[0].1)
    } else {
        fields_get(fs.drop_first(), key)
    }
}

impl JsonData {
    /// The value under `key`, when this value is an object that has it.
    pub open spec fn get(self, key: Seq<char>) -> Option<JsonData> {
        match self {
            JsonData::Obj(fs) => fields_get(fs, key),
            _ => None,
        }
    }

    /// The character sequence, when this value is a string.
    pub open spec fn as_str(self) -> Option<Seq<char>> {
        match self {
            JsonData::Str(s) => Some(s),
            _ => None,
        }
    }

    /// The number, when this value is a number an unsigned 64-bit
    /// integer can hold.
    pub open spec fn as_u64(self) -> Option<u64> {
        match self {
            JsonData::UInt(n) => Some(n),
            _ => None,
        }
    }

    /// The string under `key`, when this value is an object holding one.
    pub open spec fn get_str(self, key: Seq<char>) -> Option<Seq<char>> {
        match self.get(key) {
            Some(v) => v.as_str(),
            None => None,
        }
    }
}

impl Json {
    /// Borrow the value under `key`, when this value is an object that
    /// has it; the first pair with the key wins.
    pub fn get<'a>(&'a self, key: &str) -> (r: Option<&'a Json>)
        ensures
            match r {
                Some(v) => self@.get(key@) == Some(v@),
                None => self@.get(key@) is None,
            },
    {
        match self {
            Json::Obj(fields) => {
                proof {
                    lemma_fields_view_index(fields@);
                }
                let ghost fs = fields_view(fields@);
                proof {
                    assert(fs.skip(0) =~= fs);
                }
                let n = fields.len();
                let mut i: usize = 0;
                while i < n
                    invariant
                        0 <= i <= n,
                        n == fields.len(),
                        fs == fields_view(fields@),
                        fs.len() == n,
                        self@ == JsonData::Obj(fs),
                        fields_get(fs, key@) == fields_get(fs.skip(i as int), key@),
                        forall|k: int| 0 <= k < n ==> fs[k] == (
                            fields@[k].0@,
                            json_view(fields@[k].1),
                        ),
                    decreases n - i,
                {
                    proof {
                        assert(fs.skip(i as int)[0] == fs[i as int]);
                        assert(fs.skip(i as int).drop_first() =~= fs.skip(i + 1));
                    }
                    if crate::text::str_eq(fields[i].0.as_str(), key) {
                        assert(fields_get(fs.skip(i as int), key@) == Some(fs[i as int].1));
                        return Some(&fields[i].1);
                    }
                    i += 1;
                }
                proof {
                    assert(fs.skip(n as int) =~= Seq::<(Seq<char>, JsonData)>::empty());
                }
                None
            },
            _ => None,
        }
    }

    /// The string contents, when this value is a string.
    pub fn str_value(&self) -> (r: Option<String>)
        ensures
            match r {
                Some(s) => self@.as_str() == Some(s@),
                None => self@.as_str() is None,
            },
    {
        match self {
            Json::Str(s) => Some(s.clone()),
            _ => None,
        }
    }

    /// The number, when an unsigned 64-bit integer can hold it.
    pub fn u64_value(&self) -> (r: Option<u64>)
        ensures
            r == self@.as_u64(),
    {
        match self {
            Json::UInt(n) => Some(*n),
            _ => None,
        }
    }

    pub fn is_null(&self) -> (r: bool)
        ensures
            r == (self@ is Null),
    {
        match self {
            Json::Null => true,
            _ => false,
        }
    }

    /// The string under `key`, when this value is an object holding one.
    pub fn get_str(&self, key: &str) -> (r: Option<String>)
        ensures
            match r {
                Some(s) => self@.get_str(key@) == Some(s@),
                None => self@.get_str(key@) is None,
            },
    {
        match self.get(key) {
            Some(v) => v.str_value(),
            None => None,
        }
    }
}

/// A deep copy of a JSON value, preserving its model.
pub fn json_dup(j: &Json) -> (r: Json)
    ensures
        r@ == j@,
    decreases *j,
{
    match j {
        Json::Null => Json::Null,
        Json::Bool(b) => Json::Bool(*b),
        Json::UInt(n) => Json::UInt(*n),
        Json::NegInt(n) => Json::NegInt(*n),
        Json::NumOther => Json::NumOther,
        Json::Str(s) => Json::Str(s.clone()),
        Json::Arr(items) => {
            let mut out: Vec<Json> = Vec::new();
            let n = items.len();
            let mut i: usize = 0;
            while i < n
                invariant
                    0 <= i <= n,
                    n == items.len(),
                    *j == Json::Arr(*items),
                    out@.len() == i,
                    forall|k: int| 0 <= k < i ==> json_view(out@[k]) == json_view(items@[k]),
                decreases n - i,
            {
                proof {
                    assert(decreases_to!(*j => (*j)->Arr_0));
                    assert((*j)->Arr_0 == *items);
                    assert(decreases_to!(*items => items@[i as int]));
                }
                let d = json_dup(&items[i]);
                out.push(d);
                i += 1;
            }
            proof {
                lemma_jsons_view_index(out@);
                lemma_jsons_view_index(items@);
                assert(jsons_view(out@) =~= jsons_view(items@));
            }
            Json::Arr(out)
        },
        Json::Obj(fields) => {
            let mut out: Vec<(String, Json)> = Vec::new();
            let n = fields.len();
            let mut i: usize = 0;
            while i < n
                invariant
                    0 <= i <= n,
                    n == fields.len(),
                    *j == Json::Obj(*fields),
                    out@.len() == i,
                    forall|k: int| #![auto] 0 <= k < i ==> out@[k].0@ == fields@[k].0@
                        && json_view(out@[k].1) == json_view(fields@[k].1),
                decreases n - i,
            {
                proof {
                    assert(decreases_to!(*j => (*j)->Obj_0));
                    assert((*j)->Obj_0 == *fields);
                    assert(decreases_to!(*fields => fields@[i as int]));
                    assert(decreases_to!(fields@[i as int] => fields@[i as int].1));
                }
                let d = json_dup(&fields[i].1);
                let key = fields[i].0.clone();
                out.push((key, d));
                i += 1;
            }
            proof {
                lemma_fields_view_index(out@);
                lemma_fields_view_index(fields@);
                assert(fields_view(out@) =~= fields_view(fields@));
            }
            Json::Obj(out)
        },
    }
}

/// What the outside JSON parser yields for a given text, if it accepts
/// it: a function of the text alone.
pub uninterp spec fn json_of(s: Seq<char>) -> Option<JsonData>;

#[verifier::external_type_specification]
#[verifier::external_body]
pub struct ExSerdeValue(serde_json::Value);

/// Relies on serde_json::from_str: the whole text must form one JSON
/// value, which is converted variant for variant into the library's
/// model; the result depends on the text alone.
#[verifier::external_body]
pub fn parse_json(s: &str) -> (r: Option<Json>)
    ensures
        match r {
            Some(j) => json_of(s@) == Some(j@),
            None => json_of(s@) is None,
        },
{
    match serde_json::from_str::<serde_json::Value>(s) {
        Ok(v) => Some(json_from_value(v)),
        Err(_) => None,
    }
}

/// Relies on serde_json::Value's variants and serde_json::Number's
/// as_u64/as_i64: each variant is moved into the library's model, one
/// arm each.
#[verifier::external_body]
pub(crate) fn json_from_value(v: serde_json::Value) -> Json {
    match v {
        serde_json::Value::Null => Json::Null,
        serde_json::Value::Bool(b) => Json::Bool(b),
        serde_json::Value::String(s) => Json::Str(s),
        serde_json::Value::Number(n) => match (n.as_u64(), n.as_i64()) {
            (Some(u), _) => Json::UInt(u),
            (None, Some(i)) => Json::NegInt(i),
            _ => Json::NumOther,
        },
        serde_json::Value::Array(a) => Json::Arr(a.into_iter().map(json_from_value).collect()),
        serde_json::Value::Object(m) => Json::Obj(
            m.into_iter().map(|(k, x)| (k, json_from_value(x))).collect(),
        ),
    }
}

} // verus!
