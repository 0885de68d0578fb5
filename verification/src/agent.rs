//! The decisions of the bounded, tool-using agent loop.

use crate::error::LlmError;
use crate::json::{
    fields_model, first_key_index, items_model, json_get, json_view, lemma_array_view,
    lemma_object_view, Json, JsonV,
};
use crate::types::{Message, MessageRole};
use vstd::prelude::*;
use vstd::utf8::{encode_utf8, is_ascii_chars};

verus! {

/// Why a single tool call failed.
#[derive(Debug, Clone, PartialEq, Eq)]
pub enum ToolError {
    Unknown,
    InvalidArguments(String),
    Failed,
    FailedWithMessage(String),
    Timeout,
    Cancelled,
}

/// Why an agent run failed.
#[derive(Debug)]
pub enum AgentError {
    Configuration(String),
    Provider(LlmError),
    UnknownTool(String),
    InvalidToolArguments { tool: String, reason: String },
    MaxTurns,
    MaxToolCalls,
    Deadline,
    Cancelled,
    Storage(String),
}

/// A step of an agent run, in the order it happened.
#[derive(Debug, Clone, PartialEq)]
pub enum AgentEvent {
    TurnStarted { turn: u32 },
    ProviderCompleted { turn: u32 },
    ToolStarted { turn: u32, call_id: String, name: String },
    ToolCompleted { turn: u32, call_id: String, name: String, is_error: bool },
    Completed { turn: u32 },
    Cancelled,
}


/// Whether a message is a system message.
pub open spec fn is_system(m: Message) -> bool {
    m.role == MessageRole::System
}

/// The number of non-system messages.
pub open spec fn count_non_system(s: Seq<Message>) -> nat
    decreases s.len(),
{
    if s.len() == 0 {
        0
    } else {
        (if is_system(s[0]) {
            0nat
        } else {
            1nat
        }) + count_non_system(s.drop_first())
    }
}

/// The messages left after dropping the oldest `drop_other` non-system and the
/// oldest `drop_system` system messages, in their order.
pub open spec fn drop_oldest(s: Seq<Message>, drop_other: nat, drop_system: nat) -> Seq<Message>
    decreases s.len(),
{
    if s.len() == 0 {
        Seq::empty()
    } else if !is_system(s[0]) {
        if drop_other > 0 {
            drop_oldest(s.drop_first(), (drop_other - 1) as nat, drop_system)
        } else {
            seq![s[0]] + drop_oldest(s.drop_first(), 0, drop_system)
        }
    } else if drop_system > 0 {
        drop_oldest(s.drop_first(), drop_other, (drop_system - 1) as nat)
    } else {
        seq![s[0]] + drop_oldest(s.drop_first(), drop_other, 0)
    }
}

/// The history kept under a limit of `max` messages: all of it when it fits;
/// otherwise the excess is taken from the oldest non-system messages first, and
/// from the oldest system messages only once no other message is left. A limit
/// of zero keeps nothing.
pub open spec fn trimmed(s: Seq<Message>, max: nat) -> Seq<Message> {
    if max == 0 {
        Seq::empty()
    } else if s.len() <= max {
        s
    } else {
        let excess = (s.len() - max) as nat;
        let others = count_non_system(s);
        if others >= excess {
            drop_oldest(s, excess, 0)
        } else {
            drop_oldest(s, others, (excess - others) as nat)
        }
    }
}

/// At most the whole history is non-system.
pub proof fn lemma_count_non_system_bound(s: Seq<Message>)
    ensures
        count_non_system(s) <= s.len(),
    decreases s.len(),
{
    if s.len() > 0 {
        lemma_count_non_system_bound(s.drop_first());
    }
}

/// Dropping removes exactly the requested numbers of messages when there are
/// that many of each kind.
pub proof fn lemma_drop_oldest_len(s: Seq<Message>, drop_other: nat, drop_system: nat)
    requires
        drop_other <= count_non_system(s),
        drop_system <= s.len() - count_non_system(s),
    ensures
        drop_oldest(s, drop_other, drop_system).len() == s.len() - drop_other - drop_system,
        count_non_system(drop_oldest(s, drop_other, drop_system)) == count_non_system(s)
            - drop_other,
    decreases s.len(),
{
    lemma_count_non_system_bound(s);
    if s.len() > 0 {
        let t = s.drop_first();
        lemma_count_non_system_bound(t);
        if !is_system(s[0]) {
            if drop_other > 0 {
                lemma_drop_oldest_len(t, (drop_other - 1) as nat, drop_system);
            } else {
                lemma_drop_oldest_len(t, 0, drop_system);
                let r = drop_oldest(t, 0, drop_system);
                assert((seq![s[0]] + r)[0] == s[0]);
                assert((seq![s[0]] + r).drop_first() =~= r);
            }
        } else if drop_system > 0 {
            lemma_drop_oldest_len(t, drop_other, (drop_system - 1) as nat);
        } else {
            lemma_drop_oldest_len(t, drop_other, 0);
            let r = drop_oldest(t, drop_other, 0);
            assert((seq![s[0]] + r)[0] == s[0]);
            assert((seq![s[0]] + r).drop_first() =~= r);
        }
    }
}

/// Trimming a trimmed history changes nothing.
pub proof fn lemma_trim_idempotent(s: Seq<Message>, max: nat)
    ensures
        trimmed(trimmed(s, max), max) == trimmed(s, max),
{
    lemma_trimmed(s, max);
    if max == 0 {
        assert(trimmed(s, max) =~= Seq::<Message>::empty());
    }
}

/// Trimming leaves exactly `min(len, max)` messages, and removes a system
/// message only when no non-system message is left.
pub proof fn lemma_trimmed(s: Seq<Message>, max: nat)
    ensures
        trimmed(s, max).len() == if s.len() <= max {
            s.len()
        } else {
            max
        },
        count_non_system(s) + max >= s.len() ==> s.len() - trimmed(s, max).len() == count_non_system(s)
            - count_non_system(trimmed(s, max)) || max == 0,
        count_non_system(s) + max < s.len() && max > 0 ==> count_non_system(trimmed(s, max)) == 0,
{
    lemma_count_non_system_bound(s);
    if max > 0 && s.len() > max {
        let excess = (s.len() - max) as nat;
        let others = count_non_system(s);
        if others >= excess {
            lemma_drop_oldest_len(s, excess, 0);
        } else {
            lemma_drop_oldest_len(s, others, (excess - others) as nat);
        }
    }
}

/// Trims a history in place to at most `max` messages, as [`trimmed`] states.
pub fn trim_history(history: &mut Vec<Message>, max: usize)
    ensures
        final(history)@ == trimmed(old(history)@, max as nat),
{
    if max == 0 {
        history.clear();
        return;
    }
    let len = history.len();
    if len <= max {
        return;
    }
    let excess = len - max;
    let ghost initial = history@;
    let mut others: usize = 0;
    let mut i: usize = 0;
    assert(initial.skip(0) =~= initial);
    while i < len
        invariant
            len == initial.len(),
            i <= len,
            history@ == initial,
            others <= i,
            count_non_system(initial) == others + count_non_system(initial.skip(i as int)),
        decreases len - i,
    {
        assert(initial.skip(i as int).drop_first() =~= initial.skip(i + 1));
        assert(initial.skip(i as int)[0] == initial[i as int]);
        match history[i].role {
            MessageRole::System => {},
            _ => {
                others = others + 1;
            },
        }
        i = i + 1;
    }
    assert(initial.skip(len as int) =~= Seq::<Message>::empty());
    let (drop_other0, drop_system0) = if others >= excess {
        (excess, 0)
    } else {
        (others, excess - others)
    };
    let mut drop_other = drop_other0;
    let mut drop_system = drop_system0;
    let mut items: Vec<Message> = Vec::new();
    std::mem::swap(&mut items, history);
    assert(items@ == initial);
    assert(history@ == Seq::<Message>::empty());
    let ghost goal = drop_oldest(initial, drop_other0 as nat, drop_system0 as nat);
    assert(goal == trimmed(initial, max as nat));
    for m in it: items
        invariant
            it.seq() == initial,
            goal == history@ + drop_oldest(
                initial.skip(it.index()),
                drop_other as nat,
                drop_system as nat,
            ),
    {
        let ghost k = it.index();
        let ghost rest = initial.skip(k);
        proof {
            assert(rest[0] == initial[k]);
            assert(rest.drop_first() =~= initial.skip(k + 1));
        }
        let system = match m.role {
            MessageRole::System => true,
            _ => false,
        };
        if !system {
            if drop_other > 0 {
                drop_other = drop_other - 1;
            } else {
                let ghost before = history@;
                history.push(m);
                assert(history@ =~= before + seq![initial[k]]);
                assert(goal =~= history@ + drop_oldest(
                    initial.skip(k + 1),
                    drop_other as nat,
                    drop_system as nat,
                ));
            }
        } else if drop_system > 0 {
            drop_system = drop_system - 1;
        } else {
            let ghost before = history@;
            history.push(m);
            assert(history@ =~= before + seq![initial[k]]);
            assert(goal =~= history@ + drop_oldest(
                initial.skip(k + 1),
                drop_other as nat,
                drop_system as nat,
            ));
        }
    }
    assert(initial.skip(initial.len() as int) =~= Seq::<Message>::empty());
    assert(history@ =~= goal);
}


/// A byte allowed in tool names: an ASCII letter or digit, `_` or `-`.
pub open spec fn is_name_byte(b: u8) -> bool {
    (0x30 <= b <= 0x39) || (0x41 <= b <= 0x5A) || (0x61 <= b <= 0x7A) || b == 0x5F || b == 0x2D
}

/// A valid tool name: 1 to 64 bytes, each an ASCII letter or digit, `_` or `-`.
pub open spec fn valid_tool_name(bytes: Seq<u8>) -> bool {
    &&& 1 <= bytes.len() <= 64
    &&& forall|i: int| 0 <= i < bytes.len() ==> is_name_byte(#[trigger] bytes[i])
}

/// Whether a byte may occur in a tool name.
pub fn name_byte_allowed(b: u8) -> (r: bool)
    ensures
        r == is_name_byte(b),
{
    (0x30 <= b && b <= 0x39) || (0x41 <= b && b <= 0x5A) || (0x61 <= b && b <= 0x7A) || b == 0x5F
        || b == 0x2D
}

/// The characters of tool names: ASCII digits, upper- and lower-case ASCII
/// letters, `_` and `-`.
pub open spec fn is_tool_name_char(c: char) -> bool {
    ||| '0' <= c <= '9'
    ||| 'A' <= c <= 'Z'
    ||| 'a' <= c <= 'z'
    ||| c == '_'
    ||| c == '-'
}

/// A byte is allowed in a tool name exactly when, read as a character, it is
/// an ASCII digit or letter of either case, `_` or `-`.
pub proof fn lemma_name_byte_is_tool_name_char(b: u8)
    ensures
        is_name_byte(b) <==> is_tool_name_char(b as char),
{
    assert((b as char) as u32 == b as u32);
}

/// Every name of 1 to 64 ASCII digits, letters of either case, `_` or `-` is
/// a valid tool name.
pub proof fn lemma_tool_name_chars_are_valid(name: Seq<char>)
    requires
        1 <= name.len() <= 64,
        forall|i: int| 0 <= i < name.len() ==> is_tool_name_char(#[trigger] name[i]),
    ensures
        valid_tool_name(encode_utf8(name)),
{
    assert(is_ascii_chars(name));
    vstd::utf8::is_ascii_chars_encode_utf8(name);
    let bytes = encode_utf8(name);
    assert(bytes =~= Seq::new(name.len(), |i: int| name[i] as u8));
    assert forall|i: int| 0 <= i < bytes.len() implies is_name_byte(#[trigger] bytes[i]) by {
        assert(bytes[i] == name[i] as u8);
        assert(is_tool_name_char(name[i]));
    }
}

/// The message of the error for a malformed tool name.
pub open spec fn tool_name_rule() -> Seq<char> {
    "tool names must be 1-64 ASCII alphanumeric, `_`, or `-`"@
}

/// Checks that a tool name is 1 to 64 ASCII letters, digits, `_` or `-`.
pub fn validate_tool_name(name: &str) -> (r: Result<(), AgentError>)
    ensures
        r is Ok <==> valid_tool_name(encode_utf8(name@)),
        r is Err ==> (r matches Err(AgentError::Configuration(m)) && m@ == tool_name_rule()),
{
    let bytes = name.as_bytes();
    let n = bytes.len();
    let mut ok = 1 <= n && n <= 64;
    if ok {
        let mut i: usize = 0;
        while i < n
            invariant
                i <= n,
                n == bytes@.len(),
                bytes@ == encode_utf8(name@),
                ok == forall|j: int| 0 <= j < i ==> is_name_byte(#[trigger] bytes@[j]),
            decreases n - i,
        {
            if !name_byte_allowed(bytes[i]) {
                ok = false;
            }
            i = i + 1;
        }
    }
    if ok {
        Ok(())
    } else {
        Err(AgentError::Configuration(String::from_str("tool names must be 1-64 ASCII alphanumeric, `_`, or `-`")))
    }
}

/// The text a failed tool call reports to the model.
pub open spec fn tool_error_text(e: ToolError) -> Seq<char> {
    match e {
        ToolError::Unknown => "unknown tool"@,
        ToolError::InvalidArguments(reason) => "invalid arguments: "@ + reason@,
        ToolError::Timeout => "tool timed out"@,
        ToolError::Cancelled => "tool cancelled"@,
        ToolError::Failed => "tool failed"@,
        ToolError::FailedWithMessage(message) => "tool failed: "@ + message@,
    }
}

/// The text a failed tool call reports to the model.
pub fn tool_error_message(error: &ToolError) -> (t: String)
    ensures
        t@ == tool_error_text(*error),
{
    match error {
        ToolError::Unknown => String::from_str("unknown tool"),
        ToolError::InvalidArguments(reason) => {
            let mut t = String::from_str("invalid arguments: ");
            t.append(reason.as_str());
            t
        },
        ToolError::Timeout => String::from_str("tool timed out"),
        ToolError::Cancelled => String::from_str("tool cancelled"),
        ToolError::Failed => String::from_str("tool failed"),
        ToolError::FailedWithMessage(message) => {
            let mut t = String::from_str("tool failed: ");
            t.append(message.as_str());
            t
        },
    }
}


/// Whether `args` has the JSON type a schema names; unknown type names accept
/// every value.
pub open spec fn type_matches(expected: Seq<char>, args: JsonV) -> bool {
    if expected == "object"@ {
        args is Object
    } else if expected == "array"@ {
        args is Array
    } else if expected == "string"@ {
        args is String
    } else if expected == "number"@ {
        args is Number
    } else if expected == "integer"@ {
        args matches JsonV::Number(n) && !(n is Float)
    } else if expected == "boolean"@ {
        args is Bool
    } else if expected == "null"@ {
        args is Null
    } else {
        true
    }
}

/// The check of the `required` keyword: every string item must be a member of
/// the object; the first missing one is reported.
pub open spec fn check_required(required: Seq<JsonV>, fields: Seq<(Seq<char>, JsonV)>) -> Result<(), Seq<char>>
    decreases required.len(),
{
    if required.len() == 0 {
        Ok(())
    } else {
        match required[0] {
            JsonV::String(f) => if first_key_index(fields, f) < 0 {
                Err("missing required field `"@ + f + "`"@)
            } else {
                check_required(required.drop_first(), fields)
            },
            _ => check_required(required.drop_first(), fields),
        }
    }
}

/// The check of the `type` keyword.
pub open spec fn check_type(schema: JsonV, args: JsonV) -> Result<(), Seq<char>> {
    match json_get(schema, "type"@) {
        Some(JsonV::String(t)) => if type_matches(t, args) {
            Ok(())
        } else {
            Err("expected "@ + t)
        },
        _ => Ok(()),
    }
}

/// The check of the `required` keyword against the arguments.
pub open spec fn check_required_of(schema: JsonV, args: JsonV) -> Result<(), Seq<char>> {
    match json_get(schema, "required"@) {
        Some(JsonV::Array(req)) => match args {
            JsonV::Object(fields) => check_required(req, fields),
            _ => Err("expected object"@),
        },
        _ => Ok(()),
    }
}

/// Whether the schema closes the object with `additionalProperties: false`.
pub open spec fn closed_object(schema: JsonV) -> bool {
    json_get(schema, "additionalProperties"@) == Some(JsonV::Bool(false))
}

/// The schema accepts every value: `null` or `{}`.
pub open spec fn accepts_all(schema: JsonV) -> bool {
    schema is Null || (schema matches JsonV::Object(f) && f.len() == 0)
}

/// Whether `args` satisfies `schema`, or the first reason it does not: the
/// `type` keyword, then `required`, then each member of the arguments in
/// order against its entry in `properties` (a nested reason is prefixed with
/// the member's name) or, without one, against `additionalProperties: false`.
pub open spec fn check_args(schema: JsonV, args: JsonV) -> Result<(), Seq<char>>
    decreases schema, 0nat,
{
    if accepts_all(schema) {
        Ok(())
    } else if check_type(schema, args) is Err {
        check_type(schema, args)
    } else if check_required_of(schema, args) is Err {
        check_required_of(schema, args)
    } else {
        match schema {
            JsonV::Object(sf) => {
                let pi = first_key_index(sf, "properties"@);
                if 0 <= pi < sf.len() {
                    match sf[pi].1 {
                        JsonV::Object(props) => match args {
                            JsonV::Object(fields) => check_fields(props, closed_object(schema), fields),
                            _ => Ok(()),
                        },
                        _ => Ok(()),
                    }
                } else {
                    Ok(())
                }
            },
            _ => Ok(()),
        }
    }
}

/// The check of the members of the arguments against `properties`.
pub open spec fn check_fields(
    props: Seq<(Seq<char>, JsonV)>,
    closed: bool,
    fields: Seq<(Seq<char>, JsonV)>,
) -> Result<(), Seq<char>>
    decreases props, fields.len(),
{
    if fields.len() == 0 {
        Ok(())
    } else {
        let name = fields[0].0;
        let pi = first_key_index(props, name);
        let here = if 0 <= pi < props.len() {
            match check_args(props[pi].1, fields[0].1) {
                Err(reason) => Err(name + ": "@ + reason),
                Ok(()) => Ok(()),
            }
        } else if closed {
            Err("unknown field `"@ + name + "`"@)
        } else {
            Ok(())
        };
        if here is Err {
            here
        } else {
            check_fields(props, closed, fields.drop_first())
        }
    }
}

/// The text of an error result.
pub open spec fn text_result(r: Result<(), String>) -> Result<(), Seq<char>> {
    match r {
        Ok(()) => Ok(()),
        Err(e) => Err(e@),
    }
}

/// The index of the first member of `fields` named `key`.
pub fn find_member(fields: &Vec<(String, Json)>, key: &str) -> (r: Option<usize>)
    ensures
        match r {
            Some(i) => i < fields@.len() && first_key_index(fields_model(fields@), key@) == i,
            None => first_key_index(fields_model(fields@), key@) == -1,
        },
{
    let ghost model = fields_model(fields@);
    let wanted = key.to_owned();
    let mut i: usize = 0;
    proof {
        crate::json::lemma_first_key_index(model, key@);
    }
    while i < fields.len()
        invariant
            i <= fields@.len(),
            wanted@ == key@,
            model == fields_model(fields@),
            forall|j: int| 0 <= j < i ==> #[trigger] model[j].0 != key@,
            -1 <= first_key_index(model, key@) < model.len(),
            first_key_index(model, key@) >= 0 ==> model[first_key_index(model, key@)].0 == key@
                && forall|j: int| 0 <= j < first_key_index(model, key@) ==> #[trigger] model[j].0 != key@,
            first_key_index(model, key@) < 0 ==> forall|j: int|
                0 <= j < model.len() ==> #[trigger] model[j].0 != key@,
        decreases fields@.len() - i,
    {
        if fields[i].0 == wanted {
            assert(model[i as int].0 == key@);
            return Some(i);
        }
        assert(model[i as int].0 != key@);
        i = i + 1;
    }
    None
}


/// Whether `args` has the JSON type named `expected`.
fn type_matches_exec(expected: &String, args: &Json) -> (b: bool)
    ensures
        b == type_matches(expected@, args@),
{
    if *expected == String::from_str("object") {
        args.is_object()
    } else if *expected == String::from_str("array") {
        args.is_array()
    } else if *expected == String::from_str("string") {
        args.is_string()
    } else if *expected == String::from_str("number") {
        args.is_number()
    } else if *expected == String::from_str("integer") {
        args.is_integer()
    } else if *expected == String::from_str("boolean") {
        args.is_boolean()
    } else if *expected == String::from_str("null") {
        args.is_null()
    } else {
        true
    }
}

/// Checks the `required` keyword: each string item must be a member.
fn check_required_exec(required: &Vec<Json>, fields: &Vec<(String, Json)>) -> (r: Result<(), String>)
    ensures
        text_result(r) == check_required(items_model(required@), fields_model(fields@)),
{
    let ghost req = items_model(required@);
    let ghost fm = fields_model(fields@);
    let mut i: usize = 0;
    assert(req.skip(0) =~= req);
    while i < required.len()
        invariant
            i <= required@.len(),
            req == items_model(required@),
            fm == fields_model(fields@),
            check_required(req, fm) == check_required(req.skip(i as int), fm),
        decreases required@.len() - i,
    {
        let ghost rest = req.skip(i as int);
        assert(rest[0] == json_view(required@[i as int]));
        assert(rest.drop_first() =~= req.skip(i + 1));
        match required[i].as_str() {
            Some(field) => {
                if find_member(fields, field.as_str()).is_none() {
                    let mut m = String::from_str("missing required field `");
                    m.append(field.as_str());
                    m.append("`");
                    return Err(m);
                }
            },
            None => {},
        }
        i = i + 1;
    }
    assert(req.skip(i as int) =~= Seq::<JsonV>::empty());
    Ok(())
}

/// Validates tool arguments against the subset of JSON Schema that tools
/// declare, as [`check_args`] states: `type`, `required`, `properties` and
/// `additionalProperties: false`. A schema of `null` or `{}` accepts anything.
#[verifier::loop_isolation(false)]
pub fn validate_arguments(schema: &Json, args: &Json) -> (r: Result<(), String>)
    ensures
        text_result(r) == check_args(schema@, args@),
    decreases schema,
{
    if schema.is_null() || schema.is_empty_object() {
        return Ok(());
    }
    match schema.get("type") {
        Some(t) => match t.as_str() {
            Some(expected) => {
                if !type_matches_exec(expected, args) {
                    let mut m = String::from_str("expected ");
                    m.append(expected.as_str());
                    return Err(m);
                }
            },
            None => {},
        },
        None => {},
    }
    assert(check_type(schema@, args@) is Ok);
    match schema.get("required") {
        Some(req) => match req.as_array() {
            Some(items) => {
                proof {
                    lemma_array_view(*items);
                }
                match args.as_object() {
                    Some(fields) => {
                        proof {
                            lemma_object_view(*fields);
                        }
                        let r = check_required_exec(items, fields);
                        if r.is_err() {
                            return r;
                        }
                    },
                    None => {
                        return Err(String::from_str("expected object"));
                    },
                }
            },
            None => {},
        },
        None => {},
    }
    assert(check_required_of(schema@, args@) is Ok);
    let closed = match schema.get("additionalProperties") {
        Some(v) => match v.as_bool() {
            Some(b) => !b,
            None => false,
        },
        None => false,
    };
    assert(closed == closed_object(schema@));
    match schema {
        Json::Object(sf) => {
            proof {
                lemma_object_view(*sf);
            }
            match find_member(sf, "properties") {
                Some(pi) => match &sf[pi].1 {
                    Json::Object(props) => match args {
                        Json::Object(fields) => {
                            proof {
                                lemma_object_view(*props);
                                lemma_object_view(*fields);
                            }
                            let ghost pm = fields_model(props@);
                            let ghost fm = fields_model(fields@);
                            assert(check_args(schema@, args@) == check_fields(pm, closed, fm));
                            let mut i: usize = 0;
                            assert(fm.skip(0) =~= fm);
                            while i < fields.len()
                                invariant
                                    i <= fields@.len(),
                                    fm == fields_model(fields@),
                                    pm == fields_model(props@),
                                    check_args(schema@, args@) == check_fields(
                                        pm,
                                        closed,
                                        fm.skip(i as int),
                                    ),
                                decreases fields@.len() - i,
                            {
                                let ghost rest = fm.skip(i as int);
                                assert(rest[0] == fm[i as int]);
                                assert(rest.drop_first() =~= fm.skip(i + 1));
                                let name = &fields[i].0;
                                match find_member(props, name.as_str()) {
                                    Some(pj) => {
                                        proof {
                                            assert(decreases_to!(*sf => sf@));
                                            assert(decreases_to!(sf@ => sf@[pi as int]));
                                            assert(decreases_to!(sf@[pi as int] => sf@[pi as int].1));
                                            assert(decreases_to!(*props => props@));
                                            assert(decreases_to!(props@ => props@[pj as int]));
                                            assert(decreases_to!(props@[pj as int] => props@[pj as int].1));
                                        }
                                        match validate_arguments(&props[pj].1, &fields[i].1) {
                                            Err(reason) => {
                                                let mut m = name.clone();
                                                m.append(": ");
                                                m.append(reason.as_str());
                                                return Err(m);
                                            },
                                            Ok(()) => {},
                                        }
                                    },
                                    None => {
                                        if closed {
                                            let mut m = String::from_str("unknown field `");
                                            m.append(name.as_str());
                                            m.append("`");
                                            return Err(m);
                                        }
                                    },
                                }
                                i = i + 1;
                            }
                            assert(fm.skip(i as int) =~= Seq::<(Seq<char>, JsonV)>::empty());
                            Ok(())
                        },
                        _ => Ok(()),
                    },
                    _ => Ok(()),
                },
                None => Ok(()),
            }
        },
        _ => Ok(()),
    }
}

} // verus!
