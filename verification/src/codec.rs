use vstd::prelude::*;

use crate::json::{find_member, lemma_obj_get, json_view, lemma_json_seq_view, members_view, obj_get, json_seq_view, JsonNumber, JsonValue, JsonView, NumberView};
use crate::message::{
    calls_view, opt_calls, FunctionView, Message, MessageView, ToolCall, ToolCallFunction,
    ToolCallView,
};

verus! {

// ---------------------------------------------------------------------------
// The JSON form of messages and tool calls
// ---------------------------------------------------------------------------

pub open spec fn opt_member(key: Seq<char>, v: Option<JsonView>) -> Seq<(Seq<char>, JsonView)> {
    match v {
        Some(x) => seq![(key, x)],
        None => Seq::empty(),
    }
}

pub open spec fn str_json(o: Option<Seq<char>>) -> Option<JsonView> {
    match o {
        Some(s) => Some(JsonView::Str(s)),
        None => None,
    }
}

pub open spec fn function_json(f: FunctionView) -> JsonView {
    JsonView::Object(seq![("arguments"@, JsonView::Str(f.arguments)), ("name"@, JsonView::Str(f.name))])
}

pub open spec fn index_json(o: Option<u32>) -> Option<JsonView> {
    match o {
        Some(i) => Some(JsonView::Number(NumberView::PosInt(i as u64))),
        None => None,
    }
}

pub open spec fn opt_function_json(o: Option<FunctionView>) -> Option<JsonView> {
    match o {
        Some(f) => Some(function_json(f)),
        None => None,
    }
}

/// A tool call as a JSON object; absent fields are left out and members are
/// in key order.
pub open spec fn tool_call_json(c: ToolCallView) -> JsonView {
    JsonView::Object(
        opt_member("arguments"@, c.arguments) + opt_member("function"@, opt_function_json(c.function))
            + seq![("id"@, JsonView::Str(c.id))] + opt_member("index"@, index_json(c.index))
            + opt_member("name"@, str_json(c.name)) + opt_member("type"@, str_json(c.call_type)),
    )
}

pub open spec fn calls_json(cs: Seq<ToolCallView>) -> Seq<JsonView> {
    cs.map_values(|c: ToolCallView| tool_call_json(c))
}

pub open spec fn opt_calls_json(o: Option<Seq<ToolCallView>>) -> Option<JsonView> {
    match o {
        Some(cs) => Some(JsonView::Array(calls_json(cs))),
        None => None,
    }
}

/// A message as a JSON object tagged by its role; absent optional fields are
/// left out and members are in key order.
pub open spec fn message_json(m: MessageView) -> JsonView {
    match m {
        MessageView::System { content } => JsonView::Object(
            seq![("content"@, JsonView::Str(content)), ("role"@, JsonView::Str("system"@))],
        ),
        MessageView::User { content } => JsonView::Object(
            seq![("content"@, JsonView::Str(content)), ("role"@, JsonView::Str("user"@))],
        ),
        MessageView::Assistant { content, reasoning_content, tool_calls } => JsonView::Object(
            seq![("content"@, JsonView::Str(content))] + opt_member("reasoning_content"@, str_json(reasoning_content))
                + seq![("role"@, JsonView::Str("assistant"@))] + opt_member("tool_calls"@, opt_calls_json(tool_calls)),
        ),
        MessageView::Tool { tool_call_id, content } => JsonView::Object(
            seq![("content"@, JsonView::Str(content)), ("role"@, JsonView::Str("tool"@)),
                ("tool_call_id"@, JsonView::Str(tool_call_id))],
        ),
    }
}

// ---------------------------------------------------------------------------
// Reading the JSON form back
// ---------------------------------------------------------------------------

/// An optional string field: absent or null is `None`, a string is kept,
/// anything else is an error (outer `None`).
pub open spec fn field_opt_str(f: Option<JsonView>) -> Option<Option<Seq<char>>> {
    match f {
        None => Some(None),
        Some(JsonView::Null) => Some(None),
        Some(JsonView::Str(s)) => Some(Some(s)),
        _ => None,
    }
}

pub open spec fn field_opt_index(f: Option<JsonView>) -> Option<Option<u32>> {
    match f {
        None => Some(None),
        Some(JsonView::Null) => Some(None),
        Some(JsonView::Number(NumberView::PosInt(n))) => if n <= u32::MAX {
            Some(Some(n as u32))
        } else {
            None
        },
        _ => None,
    }
}

pub open spec fn field_opt_json(f: Option<JsonView>) -> Option<JsonView> {
    match f {
        None => None,
        Some(JsonView::Null) => None,
        Some(x) => Some(x),
    }
}

pub open spec fn decode_function(v: JsonView) -> Option<FunctionView> {
    match v {
        JsonView::Object(ms) => match (obj_get(ms, "name"@), obj_get(ms, "arguments"@)) {
            (Some(JsonView::Str(n)), Some(JsonView::Str(a))) => Some(FunctionView { name: n, arguments: a }),
            _ => None,
        },
        _ => None,
    }
}

pub open spec fn field_opt_function(f: Option<JsonView>) -> Option<Option<FunctionView>> {
    match f {
        None => Some(None),
        Some(JsonView::Null) => Some(None),
        Some(x) => match decode_function(x) {
            Some(fv) => Some(Some(fv)),
            None => None,
        },
    }
}

/// A tool call read from JSON, or `None` when the value is not one.
pub open spec fn decode_tool_call(v: JsonView) -> Option<ToolCallView> {
    match v {
        JsonView::Object(ms) => match obj_get(ms, "id"@) {
            Some(JsonView::Str(id)) => {
                let ct = field_opt_str(obj_get(ms, "type"@));
                let ix = field_opt_index(obj_get(ms, "index"@));
                let f = field_opt_function(obj_get(ms, "function"@));
                let n = field_opt_str(obj_get(ms, "name"@));
                if ct is Some && ix is Some && f is Some && n is Some {
                    Some(ToolCallView {
                        id,
                        call_type: ct->0,
                        index: ix->0,
                        function: f->0,
                        name: n->0,
                        arguments: field_opt_json(obj_get(ms, "arguments"@)),
                    })
                } else {
                    None
                }
            },
            _ => None,
        },
        _ => None,
    }
}

pub open spec fn decode_calls(items: Seq<JsonView>) -> Option<Seq<ToolCallView>>
    decreases items.len(),
{
    if items.len() == 0 {
        Some(Seq::empty())
    } else {
        match (decode_calls(items.drop_last()), decode_tool_call(items.last())) {
            (Some(a), Some(c)) => Some(a.push(c)),
            _ => None,
        }
    }
}

pub open spec fn field_opt_calls(f: Option<JsonView>) -> Option<Option<Seq<ToolCallView>>> {
    match f {
        None => Some(None),
        Some(JsonView::Null) => Some(None),
        Some(JsonView::Array(items)) => match decode_calls(items) {
            Some(cs) => Some(Some(cs)),
            None => None,
        },
        _ => None,
    }
}

pub open spec fn field_str(f: Option<JsonView>) -> Option<Seq<char>> {
    match f {
        Some(JsonView::Str(s)) => Some(s),
        _ => None,
    }
}

/// A message read from JSON, or `None` when the value is not one.
pub open spec fn decode_message(v: JsonView) -> Option<MessageView> {
    match v {
        JsonView::Object(ms) => {
            let content = field_str(obj_get(ms, "content"@));
            match field_str(obj_get(ms, "role"@)) {
                Some(role) => if role == "system"@ {
                    match content {
                        Some(c) => Some(MessageView::System { content: c }),
                        None => None,
                    }
                } else if role == "user"@ {
                    match content {
                        Some(c) => Some(MessageView::User { content: c }),
                        None => None,
                    }
                } else if role == "assistant"@ {
                    let rc = field_opt_str(obj_get(ms, "reasoning_content"@));
                    let tc = field_opt_calls(obj_get(ms, "tool_calls"@));
                    if content is Some && rc is Some && tc is Some {
                        Some(MessageView::Assistant {
                            content: content->0,
                            reasoning_content: rc->0,
                            tool_calls: tc->0,
                        })
                    } else {
                        None
                    }
                } else if role == "tool"@ {
                    match (content, field_str(obj_get(ms, "tool_call_id"@))) {
                        (Some(c), Some(id)) => Some(MessageView::Tool { tool_call_id: id, content: c }),
                        _ => None,
                    }
                } else {
                    None
                },
                None => None,
            }
        },
        _ => None,
    }
}

/// Tool calls whose flat arguments are not JSON null: those are the calls
/// that read back as they were written (a null there reads back as absent).
pub open spec fn call_round_trips(c: ToolCallView) -> bool {
    c.arguments != Some(JsonView::Null)
}

pub open spec fn message_round_trips(m: MessageView) -> bool {
    match m {
        MessageView::Assistant { tool_calls: Some(cs), .. } => forall|i: int|
            0 <= i < cs.len() ==> call_round_trips(#[trigger] cs[i]),
        _ => true,
    }
}


// ---------------------------------------------------------------------------
// Reading back what was written
// ---------------------------------------------------------------------------

proof fn lemma_obj_get_append(a: Seq<(Seq<char>, JsonView)>, b: Seq<(Seq<char>, JsonView)>, k: Seq<char>)
    ensures
        obj_get(a + b, k) == if obj_get(a, k) is Some { obj_get(a, k) } else { obj_get(b, k) },
    decreases a.len(),
{
    if a.len() > 0 {
        assert((a + b).drop_first() =~= a.drop_first() + b);
        lemma_obj_get_append(a.drop_first(), b, k);
    } else {
        assert(a + b =~= b);
    }
}

proof fn lemma_obj_get_opt(k: Seq<char>, v: Option<JsonView>, q: Seq<char>)
    ensures
        obj_get(opt_member(k, v), q) == if k == q { v } else { None::<JsonView> },
{
    if v is Some {
        if k == q {
            lemma_obj_get(opt_member(k, v), q, 0);
        } else {
            lemma_obj_get(opt_member(k, v), q, 1);
        }
    }
}

proof fn lemma_obj_get_one(k: Seq<char>, v: JsonView, q: Seq<char>)
    ensures
        obj_get(seq![(k, v)], q) == if k == q { Some(v) } else { None::<JsonView> },
{
    if k == q {
        lemma_obj_get(seq![(k, v)], q, 0);
    } else {
        lemma_obj_get(seq![(k, v)], q, 1);
    }
}

proof fn reveal_keys()
    ensures
        "arguments"@ != "function"@,
        "arguments"@ != "id"@,
        "arguments"@ != "index"@,
        "arguments"@ != "name"@,
        "arguments"@ != "type"@,
        "arguments"@ != "content"@,
        "arguments"@ != "reasoning_content"@,
        "arguments"@ != "role"@,
        "arguments"@ != "tool_calls"@,
        "arguments"@ != "tool_call_id"@,
        "function"@ != "id"@,
        "function"@ != "index"@,
        "function"@ != "name"@,
        "function"@ != "type"@,
        "function"@ != "content"@,
        "function"@ != "reasoning_content"@,
        "function"@ != "role"@,
        "function"@ != "tool_calls"@,
        "function"@ != "tool_call_id"@,
        "id"@ != "index"@,
        "id"@ != "name"@,
        "id"@ != "type"@,
        "id"@ != "content"@,
        "id"@ != "reasoning_content"@,
        "id"@ != "role"@,
        "id"@ != "tool_calls"@,
        "id"@ != "tool_call_id"@,
        "index"@ != "name"@,
        "index"@ != "type"@,
        "index"@ != "content"@,
        "index"@ != "reasoning_content"@,
        "index"@ != "role"@,
        "index"@ != "tool_calls"@,
        "index"@ != "tool_call_id"@,
        "name"@ != "type"@,
        "name"@ != "content"@,
        "name"@ != "reasoning_content"@,
        "name"@ != "role"@,
        "name"@ != "tool_calls"@,
        "name"@ != "tool_call_id"@,
        "type"@ != "content"@,
        "type"@ != "reasoning_content"@,
        "type"@ != "role"@,
        "type"@ != "tool_calls"@,
        "type"@ != "tool_call_id"@,
        "content"@ != "reasoning_content"@,
        "content"@ != "role"@,
        "content"@ != "tool_calls"@,
        "content"@ != "tool_call_id"@,
        "reasoning_content"@ != "role"@,
        "reasoning_content"@ != "tool_calls"@,
        "reasoning_content"@ != "tool_call_id"@,
        "role"@ != "tool_calls"@,
        "role"@ != "tool_call_id"@,
        "tool_calls"@ != "tool_call_id"@,
        "system"@ != "user"@,
        "system"@ != "assistant"@,
        "system"@ != "tool"@,
        "user"@ != "assistant"@,
        "user"@ != "tool"@,
        "assistant"@ != "tool"@,
{
    reveal_strlit("arguments");
    reveal_strlit("function");
    reveal_strlit("id");
    reveal_strlit("index");
    reveal_strlit("name");
    reveal_strlit("type");
    reveal_strlit("content");
    reveal_strlit("reasoning_content");
    reveal_strlit("role");
    reveal_strlit("tool_calls");
    reveal_strlit("tool_call_id");
    reveal_strlit("system");
    reveal_strlit("user");
    reveal_strlit("assistant");
    reveal_strlit("tool");
    assert("arguments"@.len() != "function"@.len());
    assert("arguments"@.len() != "id"@.len());
    assert("arguments"@.len() != "index"@.len());
    assert("arguments"@.len() != "name"@.len());
    assert("arguments"@.len() != "type"@.len());
    assert("arguments"@.len() != "content"@.len());
    assert("arguments"@.len() != "reasoning_content"@.len());
    assert("arguments"@.len() != "role"@.len());
    assert("arguments"@.len() != "tool_calls"@.len());
    assert("arguments"@.len() != "tool_call_id"@.len());
    assert("function"@.len() != "id"@.len());
    assert("function"@.len() != "index"@.len());
    assert("function"@.len() != "name"@.len());
    assert("function"@.len() != "type"@.len());
    assert("function"@.len() != "content"@.len());
    assert("function"@.len() != "reasoning_content"@.len());
    assert("function"@.len() != "role"@.len());
    assert("function"@.len() != "tool_calls"@.len());
    assert("function"@.len() != "tool_call_id"@.len());
    assert("id"@.len() != "index"@.len());
    assert("id"@.len() != "name"@.len());
    assert("id"@.len() != "type"@.len());
    assert("id"@.len() != "content"@.len());
    assert("id"@.len() != "reasoning_content"@.len());
    assert("id"@.len() != "role"@.len());
    assert("id"@.len() != "tool_calls"@.len());
    assert("id"@.len() != "tool_call_id"@.len());
    assert("index"@.len() != "name"@.len());
    assert("index"@.len() != "type"@.len());
    assert("index"@.len() != "content"@.len());
    assert("index"@.len() != "reasoning_content"@.len());
    assert("index"@.len() != "role"@.len());
    assert("index"@.len() != "tool_calls"@.len());
    assert("index"@.len() != "tool_call_id"@.len());
    assert("name"@[0] != "type"@[0]);
    assert("name"@.len() != "content"@.len());
    assert("name"@.len() != "reasoning_content"@.len());
    assert("name"@[0] != "role"@[0]);
    assert("name"@.len() != "tool_calls"@.len());
    assert("name"@.len() != "tool_call_id"@.len());
    assert("type"@.len() != "content"@.len());
    assert("type"@.len() != "reasoning_content"@.len());
    assert("type"@[0] != "role"@[0]);
    assert("type"@.len() != "tool_calls"@.len());
    assert("type"@.len() != "tool_call_id"@.len());
    assert("content"@.len() != "reasoning_content"@.len());
    assert("content"@.len() != "role"@.len());
    assert("content"@.len() != "tool_calls"@.len());
    assert("content"@.len() != "tool_call_id"@.len());
    assert("reasoning_content"@.len() != "role"@.len());
    assert("reasoning_content"@.len() != "tool_calls"@.len());
    assert("reasoning_content"@.len() != "tool_call_id"@.len());
    assert("role"@.len() != "tool_calls"@.len());
    assert("role"@.len() != "tool_call_id"@.len());
    assert("tool_calls"@.len() != "tool_call_id"@.len());
    assert("system"@.len() != "user"@.len());
    assert("system"@.len() != "assistant"@.len());
    assert("system"@.len() != "tool"@.len());
    assert("user"@.len() != "assistant"@.len());
    assert("user"@[0] != "tool"@[0]);
    assert("assistant"@.len() != "tool"@.len());
}

pub proof fn lemma_tool_call_round_trip(c: ToolCallView)
    requires
        call_round_trips(c),
    ensures
        decode_tool_call(tool_call_json(c)) == Some(c),
{
    reveal_keys();
    let a = opt_member("arguments"@, c.arguments);
    let f = opt_member("function"@, opt_function_json(c.function));
    let i = seq![("id"@, JsonView::Str(c.id))];
    let x = opt_member("index"@, index_json(c.index));
    let n = opt_member("name"@, str_json(c.name));
    let t = opt_member("type"@, str_json(c.call_type));
    let ms = a + f + i + x + n + t;
    assert forall|q: Seq<char>| #[trigger] obj_get(ms, q) == (
        if q == "arguments"@ { c.arguments }
        else if q == "function"@ { opt_function_json(c.function) }
        else if q == "id"@ { Some(JsonView::Str(c.id)) }
        else if q == "index"@ { index_json(c.index) }
        else if q == "name"@ { str_json(c.name) }
        else if q == "type"@ { str_json(c.call_type) }
        else { None::<JsonView> }) by {
        lemma_obj_get_append(a + f + i + x + n, t, q);
        lemma_obj_get_append(a + f + i + x, n, q);
        lemma_obj_get_append(a + f + i, x, q);
        lemma_obj_get_append(a + f, i, q);
        lemma_obj_get_append(a, f, q);
        lemma_obj_get_opt("arguments"@, c.arguments, q);
        lemma_obj_get_opt("function"@, opt_function_json(c.function), q);
        lemma_obj_get_one("id"@, JsonView::Str(c.id), q);
        lemma_obj_get_opt("index"@, index_json(c.index), q);
        lemma_obj_get_opt("name"@, str_json(c.name), q);
        lemma_obj_get_opt("type"@, str_json(c.call_type), q);
    }
    assert(obj_get(ms, "id"@) == Some(JsonView::Str(c.id)));
    assert(obj_get(ms, "type"@) == str_json(c.call_type));
    assert(obj_get(ms, "index"@) == index_json(c.index));
    assert(obj_get(ms, "function"@) == opt_function_json(c.function));
    assert(obj_get(ms, "name"@) == str_json(c.name));
    assert(obj_get(ms, "arguments"@) == c.arguments);
    if c.function is Some {
        let fv = c.function->0;
        let fms = seq![("arguments"@, JsonView::Str(fv.arguments)), ("name"@, JsonView::Str(fv.name))];
        lemma_obj_get(fms, "name"@, 1);
        lemma_obj_get(fms, "arguments"@, 0);
        assert(decode_function(function_json(fv)) == Some(fv));
    }
    if c.index is Some {
        assert(c.index->0 as u64 <= u32::MAX);
    }
}

proof fn lemma_calls_round_trip(cs: Seq<ToolCallView>)
    requires
        forall|i: int| 0 <= i < cs.len() ==> call_round_trips(#[trigger] cs[i]),
    ensures
        decode_calls(calls_json(cs)) == Some(cs),
    decreases cs.len(),
{
    if cs.len() > 0 {
        lemma_calls_round_trip(cs.drop_last());
        assert(calls_json(cs).drop_last() =~= calls_json(cs.drop_last()));
        lemma_tool_call_round_trip(cs.last());
        assert(cs.drop_last().push(cs.last()) =~= cs);
    } else {
        assert(calls_json(cs) =~= Seq::<JsonView>::empty());
    }
}

/// What `message_json` writes, `decode_message` reads back unchanged, for
/// every message whose tool calls carry no flat JSON-null arguments.
pub proof fn lemma_message_round_trip(m: MessageView)
    requires
        message_round_trips(m),
    ensures
        decode_message(message_json(m)) == Some(m),
{
    reveal_keys();
    match m {
        MessageView::System { content } => {
            let ms = seq![("content"@, JsonView::Str(content)), ("role"@, JsonView::Str("system"@))];
            lemma_obj_get(ms, "role"@, 1);
            lemma_obj_get(ms, "content"@, 0);
        },
        MessageView::User { content } => {
            let ms = seq![("content"@, JsonView::Str(content)), ("role"@, JsonView::Str("user"@))];
            lemma_obj_get(ms, "role"@, 1);
            lemma_obj_get(ms, "content"@, 0);
        },
        MessageView::Assistant { content, reasoning_content, tool_calls } => {
            let c = seq![("content"@, JsonView::Str(content))];
            let r = opt_member("reasoning_content"@, str_json(reasoning_content));
            let o = seq![("role"@, JsonView::Str("assistant"@))];
            let t = opt_member("tool_calls"@, opt_calls_json(tool_calls));
            let ms = c + r + o + t;
            assert forall|q: Seq<char>| #[trigger] obj_get(ms, q) == (
                if q == "content"@ { Some(JsonView::Str(content)) }
                else if q == "reasoning_content"@ { str_json(reasoning_content) }
                else if q == "role"@ { Some(JsonView::Str("assistant"@)) }
                else if q == "tool_calls"@ { opt_calls_json(tool_calls) }
                else { None::<JsonView> }) by {
                lemma_obj_get_append(c + r + o, t, q);
                lemma_obj_get_append(c + r, o, q);
                lemma_obj_get_append(c, r, q);
                lemma_obj_get_one("content"@, JsonView::Str(content), q);
                lemma_obj_get_opt("reasoning_content"@, str_json(reasoning_content), q);
                lemma_obj_get_one("role"@, JsonView::Str("assistant"@), q);
                lemma_obj_get_opt("tool_calls"@, opt_calls_json(tool_calls), q);
            }
            assert(obj_get(ms, "content"@) == Some(JsonView::Str(content)));
            assert(obj_get(ms, "role"@) == Some(JsonView::Str("assistant"@)));
            assert(obj_get(ms, "reasoning_content"@) == str_json(reasoning_content));
            assert(obj_get(ms, "tool_calls"@) == opt_calls_json(tool_calls));
            if tool_calls is Some {
                lemma_calls_round_trip(tool_calls->0);
            }
        },
        MessageView::Tool { tool_call_id, content } => {
            let ms = seq![("content"@, JsonView::Str(content)), ("role"@, JsonView::Str("tool"@)),
                ("tool_call_id"@, JsonView::Str(tool_call_id))];
            lemma_obj_get(ms, "role"@, 1);
            lemma_obj_get(ms, "content"@, 0);
            lemma_obj_get(ms, "tool_call_id"@, 2);
        },
    }
}


// ---------------------------------------------------------------------------
// Writing and reading, in code
// ---------------------------------------------------------------------------

proof fn lemma_members_view_push(s: Seq<(String, JsonValue)>, k: String, v: JsonValue)
    ensures
        members_view(s.push((k, v))) == members_view(s).push((k@, json_view(v))),
{
    assert(s.push((k, v)).drop_last() =~= s);
}

pub(crate) fn push_member(ms: &mut Vec<(String, JsonValue)>, key: &str, v: JsonValue)
    ensures
        members_view(final(ms)@) == members_view(old(ms)@).push((key@, v@)),
{
    let k = String::from_str(key);
    proof { lemma_members_view_push(ms@, k, v); }
    ms.push((k, v));
}

pub(crate) fn string_value(s: &String) -> (r: JsonValue)
    ensures
        r@ == JsonView::Str(s@),
{
    JsonValue::Str(s.clone())
}

pub fn encode_function(f: &ToolCallFunction) -> (r: JsonValue)
    ensures
        r@ == function_json(f@),
{
    let mut ms: Vec<(String, JsonValue)> = Vec::new();
    push_member(&mut ms, "arguments", string_value(&f.arguments));
    push_member(&mut ms, "name", string_value(&f.name));
    proof {
        assert(members_view(Seq::<(String, JsonValue)>::empty()) =~= Seq::<(Seq<char>, JsonView)>::empty());
        assert(members_view(ms@) =~= seq![("arguments"@, JsonView::Str(f.arguments@)), ("name"@, JsonView::Str(f.name@))]);
    }
    JsonValue::Object(ms)
}

/// The JSON object for a tool call.
pub fn encode_tool_call(c: &ToolCall) -> (r: JsonValue)
    ensures
        r@ == tool_call_json(c@),
{
    let mut ms: Vec<(String, JsonValue)> = Vec::new();
    proof {
        assert(members_view(ms@) =~= Seq::<(Seq<char>, JsonView)>::empty());
    }
    let ghost cv = c@;
    let ghost e0 = opt_member("arguments"@, cv.arguments);
    match &c.arguments {
        Some(a) => push_member(&mut ms, "arguments", a.clone()),
        None => {},
    }
    proof { assert(members_view(ms@) =~= e0); }
    let ghost e1 = e0 + opt_member("function"@, opt_function_json(cv.function));
    match &c.function {
        Some(f) => push_member(&mut ms, "function", encode_function(f)),
        None => {},
    }
    proof { assert(members_view(ms@) =~= e1); }
    let ghost e2 = e1 + seq![("id"@, JsonView::Str(cv.id))];
    push_member(&mut ms, "id", string_value(&c.id));
    proof { assert(members_view(ms@) =~= e2); }
    let ghost e3 = e2 + opt_member("index"@, index_json(cv.index));
    match c.index {
        Some(i) => push_member(&mut ms, "index", JsonValue::Number(JsonNumber::PosInt(i as u64))),
        None => {},
    }
    proof { assert(members_view(ms@) =~= e3); }
    let ghost e4 = e3 + opt_member("name"@, str_json(cv.name));
    match &c.name {
        Some(n) => push_member(&mut ms, "name", string_value(n)),
        None => {},
    }
    proof { assert(members_view(ms@) =~= e4); }
    let ghost e5 = e4 + opt_member("type"@, str_json(cv.call_type));
    match &c.call_type {
        Some(t) => push_member(&mut ms, "type", string_value(t)),
        None => {},
    }
    proof { assert(members_view(ms@) =~= e5); }
    JsonValue::Object(ms)
}

fn encode_calls(cs: &Vec<ToolCall>) -> (r: JsonValue)
    ensures
        r@ == JsonView::Array(calls_json(calls_view(cs@))),
{
    let mut items: Vec<JsonValue> = Vec::new();
    let mut i: usize = 0;
    while i < cs.len()
        invariant
            i <= cs.len(),
            items@.len() == i,
            forall|j: int| 0 <= j < i ==> #[trigger] json_view(items@[j]) == tool_call_json(cs@[j]@),
        decreases cs.len() - i,
    {
        items.push(encode_tool_call(&cs[i]));
        i = i + 1;
    }
    proof {
        lemma_json_seq_view(items@);
        assert(json_seq_view(items@) =~= calls_json(calls_view(cs@)));
    }
    JsonValue::Array(items)
}

/// The JSON object for a message, tagged by its role.
pub fn encode_message(m: &Message) -> (r: JsonValue)
    ensures
        r@ == message_json(m@),
{
    let mut ms: Vec<(String, JsonValue)> = Vec::new();
    proof {
        assert(members_view(ms@) =~= Seq::<(Seq<char>, JsonView)>::empty());
    }
    match m {
        Message::System { content } => {
            push_member(&mut ms, "content", string_value(content));
            push_member(&mut ms, "role", JsonValue::Str(String::from_str("system")));
            proof {
                assert(members_view(ms@) =~= seq![("content"@, JsonView::Str(content@)), ("role"@, JsonView::Str("system"@))]);
            }
        },
        Message::User { content } => {
            push_member(&mut ms, "content", string_value(content));
            push_member(&mut ms, "role", JsonValue::Str(String::from_str("user")));
            proof {
                assert(members_view(ms@) =~= seq![("content"@, JsonView::Str(content@)), ("role"@, JsonView::Str("user"@))]);
            }
        },
        Message::Assistant { content, reasoning_content, tool_calls } => {
            let ghost mv = m@;
            push_member(&mut ms, "content", string_value(content));
            let ghost e0 = seq![("content"@, JsonView::Str(content@))];
            proof { assert(members_view(ms@) =~= e0); }
            match reasoning_content {
                Some(rc) => push_member(&mut ms, "reasoning_content", string_value(rc)),
                None => {},
            }
            let ghost e1 = e0 + opt_member("reasoning_content"@, str_json(crate::message::opt_str(*reasoning_content)));
            proof { assert(members_view(ms@) =~= e1); }
            push_member(&mut ms, "role", JsonValue::Str(String::from_str("assistant")));
            let ghost e2 = e1 + seq![("role"@, JsonView::Str("assistant"@))];
            proof { assert(members_view(ms@) =~= e2); }
            match tool_calls {
                Some(cs) => push_member(&mut ms, "tool_calls", encode_calls(cs)),
                None => {},
            }
            let ghost e3 = e2 + opt_member("tool_calls"@, opt_calls_json(opt_calls(*tool_calls)));
            proof { assert(members_view(ms@) =~= e3); }
        },
        Message::Tool { tool_call_id, content } => {
            push_member(&mut ms, "content", string_value(content));
            push_member(&mut ms, "role", JsonValue::Str(String::from_str("tool")));
            push_member(&mut ms, "tool_call_id", string_value(tool_call_id));
            proof {
                assert(members_view(ms@) =~= seq![("content"@, JsonView::Str(content@)), ("role"@, JsonView::Str("tool"@)),
                    ("tool_call_id"@, JsonView::Str(tool_call_id@))]);
            }
        },
    }
    JsonValue::Object(ms)
}

pub open spec fn opt_ref_view(o: Option<&JsonValue>) -> Option<JsonView> {
    match o {
        Some(v) => Some(json_view(*v)),
        None => None,
    }
}

/// The value of the first member named `key`.
pub fn get_field<'a>(ms: &'a Vec<(String, JsonValue)>, key: &str) -> (r: Option<&'a JsonValue>)
    ensures
        opt_ref_view(r) == obj_get(members_view(ms@), key@),
{
    match find_member(ms, key) {
        Some(i) => Some(&ms[i].1),
        None => None,
    }
}

pub(crate) fn read_str(f: Option<&JsonValue>) -> (r: Option<String>)
    ensures
        crate::message::opt_str(r) == field_str(opt_ref_view(f)),
{
    match f {
        Some(JsonValue::Str(s)) => Some(s.clone()),
        _ => None,
    }
}

fn read_opt_str(f: Option<&JsonValue>) -> (r: Option<Option<String>>)
    ensures
        match (r, field_opt_str(opt_ref_view(f))) {
            (Some(a), Some(b)) => crate::message::opt_str(a) == b,
            (None, None) => true,
            _ => false,
        },
{
    match f {
        None => Some(None),
        Some(JsonValue::Null) => Some(None),
        Some(JsonValue::Str(s)) => Some(Some(s.clone())),
        _ => None,
    }
}

pub(crate) fn read_opt_index(f: Option<&JsonValue>) -> (r: Option<Option<u32>>)
    ensures
        r == field_opt_index(opt_ref_view(f)),
{
    match f {
        None => Some(None),
        Some(JsonValue::Null) => Some(None),
        Some(JsonValue::Number(JsonNumber::PosInt(n))) => {
            if *n <= 4294967295u64 {
                Some(Some(*n as u32))
            } else {
                None
            }
        },
        _ => None,
    }
}

fn read_function(v: &JsonValue) -> (r: Option<ToolCallFunction>)
    ensures
        match r {
            Some(f) => decode_function(v@) == Some(f@),
            None => decode_function(v@) is None,
        },
{
    match v {
        JsonValue::Object(ms) => {
            let n = read_str(get_field(ms, "name"));
            let a = read_str(get_field(ms, "arguments"));
            match (n, a) {
                (Some(name), Some(arguments)) => Some(ToolCallFunction { name, arguments }),
                _ => None,
            }
        },
        _ => None,
    }
}

fn read_opt_function(f: Option<&JsonValue>) -> (r: Option<Option<ToolCallFunction>>)
    ensures
        match (r, field_opt_function(opt_ref_view(f))) {
            (Some(a), Some(b)) => crate::message::opt_function(a) == b,
            (None, None) => true,
            _ => false,
        },
{
    match f {
        None => Some(None),
        Some(JsonValue::Null) => Some(None),
        Some(x) => match read_function(x) {
            Some(fv) => Some(Some(fv)),
            None => None,
        },
    }
}

/// Reads a tool call from its JSON object.
pub fn decode_tool_call_value(v: &JsonValue) -> (r: Option<ToolCall>)
    ensures
        match r {
            Some(c) => decode_tool_call(v@) == Some(c@),
            None => decode_tool_call(v@) is None,
        },
{
    match v {
        JsonValue::Object(ms) => {
            let id = read_str(get_field(ms, "id"));
            match id {
                Some(id) => {
                    let ct = read_opt_str(get_field(ms, "type"));
                    let ix = read_opt_index(get_field(ms, "index"));
                    let f = read_opt_function(get_field(ms, "function"));
                    let n = read_opt_str(get_field(ms, "name"));
                    let args = match get_field(ms, "arguments") {
                        None => None,
                        Some(JsonValue::Null) => None,
                        Some(x) => Some(x.clone()),
                    };
                    match (ct, ix, f, n) {
                        (Some(call_type), Some(index), Some(function), Some(name)) => Some(ToolCall {
                            id,
                            call_type,
                            index,
                            function,
                            name,
                            arguments: args,
                        }),
                        _ => None,
                    }
                },
                None => None,
            }
        },
        _ => None,
    }
}

pub(crate) fn read_calls(items: &Vec<JsonValue>) -> (r: Option<Vec<ToolCall>>)
    ensures
        match r {
            Some(cs) => decode_calls(json_seq_view(items@)) == Some(calls_view(cs@)),
            None => decode_calls(json_seq_view(items@)) is None,
        },
{
    let ghost sv = json_seq_view(items@);
    proof { lemma_json_seq_view(items@); }
    let mut out: Vec<ToolCall> = Vec::new();
    let mut i: usize = 0;
    while i < items.len()
        invariant
            i <= items.len(),
            sv == json_seq_view(items@),
            sv.len() == items@.len(),
            forall|j: int| 0 <= j < items@.len() ==> #[trigger] sv[j] == json_view(items@[j]),
            decode_calls(sv.subrange(0, i as int)) == Some(calls_view(out@)),
        decreases items.len() - i,
    {
        proof {
            assert(sv.subrange(0, i as int + 1).drop_last() =~= sv.subrange(0, i as int));
            assert(sv.subrange(0, i as int + 1).last() == sv[i as int]);
        }
        match decode_tool_call_value(&items[i]) {
            Some(c) => {
                proof {
                    assert(calls_view(out@.push(c)) =~= calls_view(out@).push(c@));
                }
                out.push(c);
            },
            None => {
                proof {
                    lemma_decode_calls_stuck(sv, i as int + 1);
                }
                return None;
            },
        }
        i = i + 1;
    }
    proof {
        assert(sv.subrange(0, sv.len() as int) =~= sv);
    }
    Some(out)
}

proof fn lemma_decode_calls_stuck(sv: Seq<JsonView>, n: int)
    requires
        0 < n <= sv.len(),
        decode_calls(sv.subrange(0, n)) is None,
    ensures
        decode_calls(sv) is None,
    decreases sv.len() - n,
{
    if n < sv.len() {
        assert(sv.subrange(0, n + 1).drop_last() =~= sv.subrange(0, n));
        lemma_decode_calls_stuck(sv, n + 1);
    } else {
        assert(sv.subrange(0, n) =~= sv);
    }
}

/// Reads a message from its JSON object, as the serde form of `Message` does.
pub fn decode_message_value(v: &JsonValue) -> (r: Option<Message>)
    ensures
        crate::message::opt_message(r) == decode_message(v@),
{
    proof { reveal_keys(); }
    match v {
        JsonValue::Object(ms) => {
            let content = read_str(get_field(ms, "content"));
            let role = read_str(get_field(ms, "role"));
            match role {
                Some(role) => {
                    if role == String::from_str("system") {
                        match content {
                            Some(c) => Some(Message::System { content: c }),
                            None => None,
                        }
                    } else if role == String::from_str("user") {
                        match content {
                            Some(c) => Some(Message::User { content: c }),
                            None => None,
                        }
                    } else if role == String::from_str("assistant") {
                        let rc = read_opt_str(get_field(ms, "reasoning_content"));
                        let tc: Option<Option<Vec<ToolCall>>> = match get_field(ms, "tool_calls") {
                            None => Some(None),
                            Some(JsonValue::Null) => Some(None),
                            Some(JsonValue::Array(items)) => match read_calls(items) {
                                Some(cs) => Some(Some(cs)),
                                None => None,
                            },
                            _ => None,
                        };
                        match (content, rc, tc) {
                            (Some(c), Some(rc), Some(tc)) => Some(Message::Assistant {
                                content: c,
                                reasoning_content: rc,
                                tool_calls: tc,
                            }),
                            _ => None,
                        }
                    } else if role == String::from_str("tool") {
                        let id = read_str(get_field(ms, "tool_call_id"));
                        match (content, id) {
                            (Some(c), Some(id)) => Some(Message::Tool { tool_call_id: id, content: c }),
                            _ => None,
                        }
                    } else {
                        None
                    }
                },
                None => None,
            }
        },
        _ => None,
    }
}

} // verus!
