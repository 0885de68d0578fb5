//! JSON values as the library reads them.
//!
//! Tool schemas, tool arguments and MCP payloads are JSON documents. The
//! library holds them in [`Json`], a plain tree of values; numbers keep their
//! integer value, or the decimal text of a fractional number.

use serde_json::{Number, Value};
use vstd::prelude::*;

verus! {

/// A JSON number.
#[derive(Debug, PartialEq)]
pub enum JsonNumber {
    /// A non-negative integer.
    PosInt(u64),
    /// A negative integer.
    NegInt(i64),
    /// A number with a fraction or exponent, as decimal text.
    Float(String),
}

/// A JSON value. Object members keep their order.
#[derive(Debug, PartialEq)]
pub enum Json {
    Null,
    Bool(bool),
    Number(JsonNumber),
    String(String),
    Array(Vec<Json>),
    Object(Vec<(String, Json)>),
}

/// The mathematical model of a JSON number.
pub enum JsonNumberV {
    PosInt(u64),
    NegInt(i64),
    Float(Seq<char>),
}

/// The mathematical model of a JSON value.
pub enum JsonV {
    Null,
    Bool(bool),
    Number(JsonNumberV),
    String(Seq<char>),
    Array(Seq<JsonV>),
    Object(Seq<(Seq<char>, JsonV)>),
}

impl View for JsonNumber {
    type V = JsonNumberV;

    open spec fn view(&self) -> JsonNumberV {
        match self {
            JsonNumber::PosInt(n) => JsonNumberV::PosInt(*n),
            JsonNumber::NegInt(n) => JsonNumberV::NegInt(*n),
            JsonNumber::Float(t) => JsonNumberV::Float(t@),
        }
    }
}

/// The model of a JSON value.
pub open spec fn json_view(j: Json) -> JsonV
    decreases j,
{
    match j {
        Json::Null => JsonV::Null,
        Json::Bool(b) => JsonV::Bool(b),
        Json::Number(n) => JsonV::Number(n@),
        Json::String(s) => JsonV::String(s@),
        Json::Array(items) => JsonV::Array(
            Seq::new(items@.len(), |i: int| if 0 <= i < items@.len() { json_view(items@[i]) } else { JsonV::Null }),
        ),
        Json::Object(fields) => JsonV::Object(
            Seq::new(
                fields@.len(),
                |i: int| if 0 <= i < fields@.len() { (fields@[i].0@, json_view(fields@[i].1)) } else { (Seq::empty(), JsonV::Null) },
            ),
        ),
    }
}

/// The models of the members of an object.
pub open spec fn fields_model(fields: Seq<(String, Json)>) -> Seq<(Seq<char>, JsonV)> {
    Seq::new(fields.len(), |k: int| (fields[k].0@, json_view(fields[k].1)))
}

/// The models of the items of an array.
pub open spec fn items_model(items: Seq<Json>) -> Seq<JsonV> {
    Seq::new(items.len(), |k: int| json_view(items[k]))
}

/// The model of an object is the models of its members.
pub proof fn lemma_object_view(fields: Vec<(String, Json)>)
    ensures
        json_view(Json::Object(fields)) == JsonV::Object(fields_model(fields@)),
{
    if let JsonV::Object(m) = json_view(Json::Object(fields)) {
        assert(m =~= fields_model(fields@));
    }
}

/// The model of an array is the models of its items.
pub proof fn lemma_array_view(items: Vec<Json>)
    ensures
        json_view(Json::Array(items)) == JsonV::Array(items_model(items@)),
{
    if let JsonV::Array(m) = json_view(Json::Array(items)) {
        assert(m =~= items_model(items@));
    }
}

impl View for Json {
    type V = JsonV;

    open spec fn view(&self) -> JsonV {
        json_view(*self)
    }
}


/// The value of the first member of an object named `key`.
pub open spec fn field_lookup(fields: Seq<(Seq<char>, JsonV)>, key: Seq<char>) -> Option<JsonV>
    decreases fields.len(),
{
    if fields.len() == 0 {
        None
    } else if fields[0].0 == key {
        Some(fields[0].1)
    } else {
        field_lookup(fields.drop_first(), key)
    }
}

/// The index of the first member named `key`, or -1.
pub open spec fn first_key_index(fields: Seq<(Seq<char>, JsonV)>, key: Seq<char>) -> int
    decreases fields.len(),
{
    if fields.len() == 0 {
        -1
    } else if fields[0].0 == key {
        0
    } else {
        let i = first_key_index(fields.drop_first(), key);
        if i < 0 {
            -1
        } else {
            i + 1
        }
    }
}

/// The first member named `key` is the one that lookup finds.
pub proof fn lemma_first_key_index(fields: Seq<(Seq<char>, JsonV)>, key: Seq<char>)
    ensures
        -1 <= first_key_index(fields, key) < fields.len(),
        first_key_index(fields, key) >= 0 ==> fields[first_key_index(fields, key)].0 == key
            && field_lookup(fields, key) == Some(fields[first_key_index(fields, key)].1),
        first_key_index(fields, key) >= 0 ==> forall|j: int|
            0 <= j < first_key_index(fields, key) ==> #[trigger] fields[j].0 != key,
        first_key_index(fields, key) < 0 ==> field_lookup(fields, key) is None && forall|j: int|
            0 <= j < fields.len() ==> #[trigger] fields[j].0 != key,
    decreases fields.len(),
{
    if fields.len() > 0 && fields[0].0 != key {
        let t = fields.drop_first();
        lemma_first_key_index(t, key);
        assert forall|j: int| 1 <= j < fields.len() implies fields[j] == t[j - 1] by {}
    }
}

/// The member `key` of an object; `None` for other values.
pub open spec fn json_get(j: JsonV, key: Seq<char>) -> Option<JsonV> {
    match j {
        JsonV::Object(fields) => field_lookup(fields, key),
        _ => None,
    }
}

/// The text of a string value.
pub open spec fn json_as_str(j: JsonV) -> Option<Seq<char>> {
    match j {
        JsonV::String(s) => Some(s),
        _ => None,
    }
}

/// The text that `serde_json` writes for a value (its `Display`).
pub uninterp spec fn serde_json_text(v: JsonV) -> Seq<char>;

/// What `serde_json` makes of a text: the value it parses, or, when the text
/// is not a JSON document, the text of its error.
pub uninterp spec fn serde_json_parse(text: Seq<char>) -> Result<JsonV, Seq<char>>;

#[verifier::external_type_specification]
#[verifier::external_body]
pub struct ExSerdeJsonValue(Value);

impl JsonNumber {
    /// A copy of the number.
    pub fn copy(&self) -> (r: JsonNumber)
        ensures
            r@ == self@,
    {
        match self {
            JsonNumber::PosInt(n) => JsonNumber::PosInt(*n),
            JsonNumber::NegInt(n) => JsonNumber::NegInt(*n),
            JsonNumber::Float(t) => JsonNumber::Float(t.clone()),
        }
    }
}

impl Clone for JsonNumber {
    fn clone(&self) -> (r: JsonNumber)
        ensures
            r@ == self@,
    {
        self.copy()
    }
}

impl Clone for Json {
    fn clone(&self) -> (r: Json)
        ensures
            r@ == self@,
    {
        self.deep_copy()
    }
}

impl Json {
    /// A copy of the whole tree.
    #[verifier::loop_isolation(false)]
    pub fn deep_copy(&self) -> (r: Json)
        ensures
            r@ == self@,
        decreases self,
    {
        match self {
            Json::Null => Json::Null,
            Json::Bool(b) => Json::Bool(*b),
            Json::Number(n) => Json::Number(n.copy()),
            Json::String(s) => Json::String(s.clone()),
            Json::Array(items) => {
                let mut out: Vec<Json> = Vec::new();
                let mut i: usize = 0;
                while i < items.len()
                    invariant
                        i <= items.len(),
                        out@.len() == i,
                        forall|j: int| 0 <= j < i ==> #[trigger] json_view(out@[j]) == json_view(items@[j]),
                    decreases items.len() - i,
                {
                    proof {
                        assert(decreases_to!(*items => items@));
                        assert(decreases_to!(items@ => items@[i as int]));
                    }
                    let c = items[i].deep_copy();
                    out.push(c);
                    i = i + 1;
                }
                let r = Json::Array(out);
                assert(r@ == self@) by {
                    if let JsonV::Array(a) = r@ {
                        if let JsonV::Array(b) = self@ {
                            assert(a.len() == b.len());
                            assert forall|k: int| 0 <= k < a.len() implies a[k] == b[k] by {
                                assert(json_view(out@[k]) == json_view(items@[k]));
                            }
                            assert(a =~= b);
                        }
                    }
                }
                r
            },
            Json::Object(fields) => {
                let mut out: Vec<(String, Json)> = Vec::new();
                let mut i: usize = 0;
                while i < fields.len()
                    invariant
                        i <= fields.len(),
                        out@.len() == i,
                        forall|j: int|
                            0 <= j < i ==> #[trigger] out@[j].0@ == fields@[j].0@ && json_view(
                                out@[j].1,
                            ) == json_view(fields@[j].1),
                    decreases fields.len() - i,
                {
                    proof {
                        assert(decreases_to!(*fields => fields@));
                        assert(decreases_to!(fields@ => fields@[i as int]));
                        assert(decreases_to!(fields@[i as int] => fields@[i as int].1));
                    }
                    let k = fields[i].0.clone();
                    let v = fields[i].1.deep_copy();
                    out.push((k, v));
                    i = i + 1;
                }
                let r = Json::Object(out);
                assert(r@ == self@) by {
                    if let JsonV::Object(a) = r@ {
                        if let JsonV::Object(b) = self@ {
                            assert(a =~= b);
                        }
                    }
                }
                r
            },
        }
    }

    /// Whether the value is `null`.
    pub fn is_null(&self) -> (b: bool)
        ensures
            b == (self@ is Null),
    {
        match self {
            Json::Null => true,
            _ => false,
        }
    }

    /// Whether the value is an object.
    pub fn is_object(&self) -> (b: bool)
        ensures
            b == (self@ is Object),
    {
        match self {
            Json::Object(_) => true,
            _ => false,
        }
    }

    /// Whether the value is an array.
    pub fn is_array(&self) -> (b: bool)
        ensures
            b == (self@ is Array),
    {
        match self {
            Json::Array(_) => true,
            _ => false,
        }
    }

    /// Whether the value is a string.
    pub fn is_string(&self) -> (b: bool)
        ensures
            b == (self@ is String),
    {
        match self {
            Json::String(_) => true,
            _ => false,
        }
    }

    /// Whether the value is a number.
    pub fn is_number(&self) -> (b: bool)
        ensures
            b == (self@ is Number),
    {
        match self {
            Json::Number(_) => true,
            _ => false,
        }
    }

    /// Whether the value is an integer.
    pub fn is_integer(&self) -> (b: bool)
        ensures
            b == (self@ matches JsonV::Number(n) && !(n is Float)),
    {
        match self {
            Json::Number(JsonNumber::PosInt(_)) => true,
            Json::Number(JsonNumber::NegInt(_)) => true,
            _ => false,
        }
    }

    /// Whether the value is a boolean.
    pub fn is_boolean(&self) -> (b: bool)
        ensures
            b == (self@ is Bool),
    {
        match self {
            Json::Bool(_) => true,
            _ => false,
        }
    }

    /// Whether the value is an object without members.
    pub fn is_empty_object(&self) -> (b: bool)
        ensures
            b == (self@ matches JsonV::Object(f) && f.len() == 0),
    {
        match self {
            Json::Object(fields) => fields.len() == 0,
            _ => false,
        }
    }

    /// The text of a string value.
    pub fn as_str(&self) -> (r: Option<&String>)
        ensures
            match r {
                Some(s) => json_as_str(self@) == Some(s@),
                None => json_as_str(self@) is None,
            },
    {
        match self {
            Json::String(s) => Some(s),
            _ => None,
        }
    }

    /// The boolean of a boolean value.
    pub fn as_bool(&self) -> (r: Option<bool>)
        ensures
            r == (match self@ {
                JsonV::Bool(b) => Some(b),
                _ => None,
            }),
    {
        match self {
            Json::Bool(b) => Some(*b),
            _ => None,
        }
    }

    /// The items of an array.
    pub fn as_array(&self) -> (r: Option<&Vec<Json>>)
        ensures
            match r {
                Some(items) => self == &Json::Array(*items),
                None => !(self@ is Array),
            },
    {
        match self {
            Json::Array(items) => Some(items),
            _ => None,
        }
    }

    /// The members of an object.
    pub fn as_object(&self) -> (r: Option<&Vec<(String, Json)>>)
        ensures
            match r {
                Some(fields) => self == &Json::Object(*fields),
                None => !(self@ is Object),
            },
    {
        match self {
            Json::Object(fields) => Some(fields),
            _ => None,
        }
    }

    /// The member `key` of an object; `None` for other values or a missing key.
    pub fn get(&self, key: &str) -> (r: Option<&Json>)
        ensures
            match r {
                Some(v) => json_get(self@, key@) == Some(v@),
                None => json_get(self@, key@) is None,
            },
    {
        match self {
            Json::Object(fields) => {
                let wanted = key.to_owned();
                let ghost model = match self@ {
                    JsonV::Object(f) => f,
                    _ => Seq::empty(),
                };
                assert(self@ == JsonV::Object(model));
                assert(model.len() == fields@.len());
                assert(model.skip(0) =~= model);
                let mut i: usize = 0;
                while i < fields.len()
                    invariant
                        i <= fields.len(),
                        wanted@ == key@,
                        self@ == JsonV::Object(model),
                        model.len() == fields@.len(),
                        forall|j: int|
                            0 <= j < fields@.len() ==> #[trigger] model[j] == (
                                fields@[j].0@,
                                fields@[j].1@,
                            ),
                        field_lookup(model, key@) == field_lookup(model.skip(i as int), key@),
                    decreases fields.len() - i,
                {
                    let ghost rest = model.skip(i as int);
                    assert(rest[0] == model[i as int]);
                    if fields[i].0 == wanted {
                        assert(model[i as int].1 == json_view(fields@[i as int].1));
                        assert(rest.len() > 0);
                        assert(rest[0].0 == key@);
                        assert(field_lookup(rest, key@) == Some(rest[0].1));
                        return Some(&fields[i].1);
                    }
                    assert(rest.drop_first() =~= model.skip(i + 1));
                    i = i + 1;
                }
                None
            },
            _ => None,
        }
    }
}

/// Converts a library value into a `serde_json` value, member by member.
#[verifier::external_body]
pub(crate) fn to_serde(j: &Json) -> Value {
    match j {
        Json::Null => Value::Null,
        Json::Bool(b) => Value::Bool(*b),
        Json::Number(JsonNumber::PosInt(n)) => Value::from(*n),
        Json::Number(JsonNumber::NegInt(n)) => Value::from(*n),
        Json::Number(JsonNumber::Float(t)) => t.parse::<Number>().map_or(Value::Null, Value::Number),
        Json::String(s) => Value::String(s.clone()),
        Json::Array(items) => Value::Array(items.iter().map(to_serde).collect()),
        Json::Object(fields) => Value::Object(fields.iter().map(|(k, v)| (k.clone(), to_serde(v))).collect()),
    }
}

/// Converts a `serde_json` value into a library value, member by member.
#[verifier::external_body]
fn from_serde(v: &Value) -> Json {
    match v {
        Value::Null => Json::Null,
        Value::Bool(b) => Json::Bool(*b),
        Value::Number(n) => Json::Number(n.as_u64().map(JsonNumber::PosInt).or(n.as_i64().map(JsonNumber::NegInt)).unwrap_or(JsonNumber::Float(n.to_string()))),
        Value::String(s) => Json::String(s.clone()),
        Value::Array(items) => Json::Array(items.iter().map(from_serde).collect()),
        Value::Object(fields) => Json::Object(fields.iter().map(|(k, v)| (k.clone(), from_serde(v))).collect()),
    }
}

/// The JSON text of a value, as `serde_json`'s `Display` for
/// `serde_json::Value` writes it (compact, members in order).
#[verifier::external_body]
pub(crate) fn json_text(j: &Json) -> (s: String)
    ensures
        s@ == serde_json_text(j@),
{
    to_serde(j).to_string()
}

/// Parses a JSON document with `serde_json::from_str`; on failure, the text of
/// the error.
#[verifier::external_body]
pub(crate) fn parse_json(text: &str) -> (r: Result<Json, String>)
    ensures
        match r {
            Ok(v) => serde_json_parse(text@) == Ok::<JsonV, Seq<char>>(v@),
            Err(e) => serde_json_parse(text@) == Err::<JsonV, Seq<char>>(e@),
        },
{
    match serde_json::from_str::<Value>(text) {
        Ok(v) => Ok(from_serde(&v)),
        Err(error) => Err(error.to_string()),
    }
}

} // verus!
