use vstd::prelude::*;

use std::collections::HashMap;

use crate::codec::{
    decode_calls, encode_message, field_str, get_field, message_json, opt_member, opt_ref_view, push_member, read_calls, read_str,
    str_json, string_value,
};
use crate::json::{lemma_json_seq_view, lemma_members_view, json_seq_view, json_view, members_view, obj_get, JsonNumber, JsonValue, JsonView, NumberView};
use crate::message::{
    defs_view, messages_view, opt_calls, opt_str, Message, MessageRole, MessageView, ToolCall, ToolCallView, ToolDef, ToolDefView,
    Usage,
};
use crate::models::{chunk_from_delta, image_response, message_from_reply, reply_message, ChatChunk, ChatError, GenImgResponse};

verus! {

// ---------------------------------------------------------------------------
// Chat requests
// ---------------------------------------------------------------------------

/// A chat-completion request: the model, the conversation, the tools it may
/// call and the options of the call; `extra` members are sent as they are.
#[derive(Debug)]
pub struct Request {
    pub model: String,
    pub messages: Vec<Message>,
    pub tools: Option<Vec<ToolDef>>,
    pub stream: Option<bool>,
    pub stream_usage: Option<bool>,
    pub json_output: bool,
    pub reasoning_effort: Option<String>,
    pub thinking: Option<bool>,
    pub extra: Vec<(String, JsonValue)>,
}

pub struct RequestView {
    pub model: Seq<char>,
    pub messages: Seq<MessageView>,
    pub tools: Option<Seq<ToolDefView>>,
    pub stream: Option<bool>,
    pub stream_usage: Option<bool>,
    pub json_output: bool,
    pub reasoning_effort: Option<Seq<char>>,
    pub thinking: Option<bool>,
    pub extra: Seq<(Seq<char>, JsonView)>,
}

pub open spec fn opt_defs(o: Option<Vec<ToolDef>>) -> Option<Seq<ToolDefView>> {
    match o {
        Some(v) => Some(defs_view(v@)),
        None => None,
    }
}

impl View for Request {
    type V = RequestView;

    open spec fn view(&self) -> RequestView {
        RequestView {
            model: self.model@,
            messages: messages_view(self.messages@),
            tools: opt_defs(self.tools),
            stream: self.stream,
            stream_usage: self.stream_usage,
            json_output: self.json_output,
            reasoning_effort: opt_str(self.reasoning_effort),
            thinking: self.thinking,
            extra: members_view(self.extra@),
        }
    }
}

impl Request {
    /// A request of `messages` to `model`, with no tools and no options.
    pub fn new(model: &str, messages: Vec<Message>) -> (r: Request)
        ensures
            r@ == (RequestView {
                model: model@,
                messages: messages_view(messages@),
                tools: None,
                stream: None,
                stream_usage: None,
                json_output: false,
                reasoning_effort: None,
                thinking: None,
                extra: Seq::empty(),
            }),
    {
        let r = Request {
            model: String::from_str(model),
            messages,
            tools: None,
            stream: None,
            stream_usage: None,
            json_output: false,
            reasoning_effort: None,
            thinking: None,
            extra: Vec::new(),
        };
        proof { assert(members_view(r.extra@) =~= Seq::<(Seq<char>, JsonView)>::empty()); }
        r
    }

    /// The request with `tools` offered.
    pub fn with_tools(self, tools: Option<Vec<ToolDef>>) -> (r: Request)
        ensures
            r@ == (RequestView { tools: opt_defs(tools), ..self@ }),
    {
        let mut r = self;
        r.tools = tools;
        r
    }

    /// The request answered as a stream, or at once.
    pub fn with_stream(self, stream: bool) -> (r: Request)
        ensures
            r@ == (RequestView { stream: Some(stream), ..self@ }),
    {
        let mut r = self;
        r.stream = Some(stream);
        r
    }

    /// The request asking, or not, for the token usage at the end of a stream.
    pub fn with_stream_usage(self, wanted: bool) -> (r: Request)
        ensures
            r@ == (RequestView { stream_usage: Some(wanted), ..self@ }),
    {
        let mut r = self;
        r.stream_usage = Some(wanted);
        r
    }

    /// The request asking for a JSON object as the answer.
    pub fn with_response_format_json(self) -> (r: Request)
        ensures
            r@ == (RequestView { json_output: true, ..self@ }),
    {
        let mut r = self;
        r.json_output = true;
        r
    }

    /// The request with a reasoning effort.
    pub fn with_reasoning_effort(self, effort: String) -> (r: Request)
        ensures
            r@ == (RequestView { reasoning_effort: Some(effort@), ..self@ }),
    {
        let mut r = self;
        r.reasoning_effort = Some(effort);
        r
    }

    /// The request with thinking switched on or off.
    pub fn with_thinking(self, enabled: bool) -> (r: Request)
        ensures
            r@ == (RequestView { thinking: Some(enabled), ..self@ }),
    {
        let mut r = self;
        r.thinking = Some(enabled);
        r
    }

    /// The request with `extra` members sent besides the others.
    pub fn with_extra(self, extra: Vec<(String, JsonValue)>) -> (r: Request)
        ensures
            r@ == (RequestView { extra: members_view(extra@), ..self@ }),
    {
        let mut r = self;
        r.extra = extra;
        r
    }
}

/// A tool as the chat-completion API offers it to a model.
pub open spec fn tool_def_json(d: ToolDefView) -> JsonView {
    JsonView::Object(seq![
        ("type"@, JsonView::Str("function"@)),
        ("function"@, JsonView::Object(seq![
            ("name"@, JsonView::Str(d.name)),
            ("description"@, JsonView::Str(d.description)),
            ("parameters"@, d.parameters),
        ])),
    ])
}

/// The member offering the tools, when there are any.
pub open spec fn tools_member(tools: Option<Seq<ToolDefView>>) -> Seq<(Seq<char>, JsonView)> {
    match tools {
        Some(ts) => if ts.len() > 0 {
            seq![("tools"@, JsonView::Array(ts.map_values(|d: ToolDefView| tool_def_json(d))))]
        } else {
            Seq::empty()
        },
        None => Seq::empty(),
    }
}

/// The member asking for the usage at the end of a stream, when set.
pub open spec fn usage_member(u: Option<bool>) -> Seq<(Seq<char>, JsonView)> {
    match u {
        Some(b) => seq![("stream_options"@, JsonView::Object(seq![("include_usage"@, JsonView::Bool(b))]))],
        None => Seq::empty(),
    }
}

/// The member asking for a JSON object as the answer, when wanted.
pub open spec fn format_member(json_output: bool) -> Seq<(Seq<char>, JsonView)> {
    if json_output {
        seq![("response_format"@, JsonView::Object(seq![("type"@, JsonView::Str("json_object"@))]))]
    } else {
        Seq::empty()
    }
}

/// The member switching thinking on or off, when set.
pub open spec fn thinking_member(t: Option<bool>) -> Seq<(Seq<char>, JsonView)> {
    match t {
        Some(b) => seq![("thinking"@, JsonView::Object(seq![("type"@, JsonView::Str(if b { "enabled"@ } else { "disabled"@ }))]))],
        None => Seq::empty(),
    }
}

/// The members of a request's JSON body: model and messages first, then
/// each option that is set, then the extra members.
pub open spec fn request_members(r: RequestView) -> Seq<(Seq<char>, JsonView)> {
    seq![
        ("model"@, JsonView::Str(r.model)),
        ("messages"@, JsonView::Array(r.messages.map_values(|m: MessageView| message_json(m)))),
    ]
        + tools_member(r.tools)
        + opt_member("stream"@, match r.stream { Some(b) => Some(JsonView::Bool(b)), None => None })
        + usage_member(r.stream_usage)
        + format_member(r.json_output)
        + opt_member("reasoning_effort"@, str_json(r.reasoning_effort))
        + thinking_member(r.thinking)
        + r.extra
}

/// The JSON body of a request.
pub open spec fn request_json(r: RequestView) -> JsonView {
    JsonView::Object(request_members(r))
}

fn tool_def_value(d: &ToolDef) -> (r: JsonValue)
    ensures
        r@ == tool_def_json(d@),
{
    let mut f: Vec<(String, JsonValue)> = Vec::new();
    proof { assert(members_view(f@) =~= Seq::<(Seq<char>, JsonView)>::empty()); }
    push_member(&mut f, "name", string_value(&d.name));
    push_member(&mut f, "description", string_value(&d.description));
    push_member(&mut f, "parameters", d.parameters.clone());
    proof {
        assert(members_view(f@) =~= seq![
            ("name"@, JsonView::Str(d@.name)),
            ("description"@, JsonView::Str(d@.description)),
            ("parameters"@, d@.parameters),
        ]);
    }
    let mut ms: Vec<(String, JsonValue)> = Vec::new();
    proof { assert(members_view(ms@) =~= Seq::<(Seq<char>, JsonView)>::empty()); }
    push_member(&mut ms, "type", JsonValue::Str(String::from_str("function")));
    push_member(&mut ms, "function", JsonValue::Object(f));
    proof {
        reveal_strlit("function");
        assert(members_view(ms@) =~= seq![
            ("type"@, JsonView::Str("function"@)),
            ("function"@, JsonView::Object(seq![
                ("name"@, JsonView::Str(d@.name)),
                ("description"@, JsonView::Str(d@.description)),
                ("parameters"@, d@.parameters),
            ])),
        ]);
    }
    JsonValue::Object(ms)
}

fn messages_value(ms: &Vec<Message>) -> (r: JsonValue)
    ensures
        r@ == JsonView::Array(messages_view(ms@).map_values(|m: MessageView| message_json(m))),
{
    let mut items: Vec<JsonValue> = Vec::new();
    let mut i: usize = 0;
    while i < ms.len()
        invariant
            i <= ms@.len(),
            items@.len() == i,
            forall|j: int| 0 <= j < i ==> (#[trigger] items@[j])@ == message_json(ms@[j]@),
        decreases ms.len() - i,
    {
        items.push(encode_message(&ms[i]));
        i = i + 1;
    }
    proof {
        lemma_json_seq_view(items@);
        assert(json_seq_view(items@) =~= messages_view(ms@).map_values(|m: MessageView| message_json(m)));
    }
    JsonValue::Array(items)
}

fn tools_value(ts: &Vec<ToolDef>) -> (r: JsonValue)
    ensures
        r@ == JsonView::Array(defs_view(ts@).map_values(|d: ToolDefView| tool_def_json(d))),
{
    let mut items: Vec<JsonValue> = Vec::new();
    let mut i: usize = 0;
    while i < ts.len()
        invariant
            i <= ts@.len(),
            items@.len() == i,
            forall|j: int| 0 <= j < i ==> (#[trigger] items@[j])@ == tool_def_json(ts@[j]@),
        decreases ts.len() - i,
    {
        items.push(tool_def_value(&ts[i]));
        i = i + 1;
    }
    proof {
        lemma_json_seq_view(items@);
        assert(json_seq_view(items@) =~= defs_view(ts@).map_values(|d: ToolDefView| tool_def_json(d)));
    }
    JsonValue::Array(items)
}

fn flag_object(key: &str, value: JsonValue) -> (r: JsonValue)
    ensures
        r@ == JsonView::Object(seq![(key@, value@)]),
{
    let mut ms: Vec<(String, JsonValue)> = Vec::new();
    proof { assert(members_view(ms@) =~= Seq::<(Seq<char>, JsonView)>::empty()); }
    push_member(&mut ms, key, value);
    proof { assert(members_view(ms@) =~= seq![(key@, value@)]); }
    JsonValue::Object(ms)
}

fn push_tools(ms: &mut Vec<(String, JsonValue)>, tools: &Option<Vec<ToolDef>>)
    ensures
        members_view(final(ms)@) == members_view(old(ms)@) + tools_member(opt_defs(*tools)),
{
    match tools {
        Some(ts) => {
            if ts.len() > 0 {
                push_member(ms, "tools", tools_value(ts));
            } else {
                proof { assert(members_view(ms@) =~= members_view(ms@) + Seq::<(Seq<char>, JsonView)>::empty()); }
            }
        },
        None => {
            proof { assert(members_view(ms@) =~= members_view(ms@) + Seq::<(Seq<char>, JsonView)>::empty()); }
        },
    }
}

fn push_stream(ms: &mut Vec<(String, JsonValue)>, stream: Option<bool>)
    ensures
        members_view(final(ms)@) == members_view(old(ms)@) + opt_member("stream"@, match stream { Some(b) => Some(JsonView::Bool(b)), None => None }),
{
    match stream {
        Some(b) => push_member(ms, "stream", JsonValue::Bool(b)),
        None => {
            proof { assert(members_view(ms@) =~= members_view(ms@) + Seq::<(Seq<char>, JsonView)>::empty()); }
        },
    }
}

fn push_usage(ms: &mut Vec<(String, JsonValue)>, usage: Option<bool>)
    ensures
        members_view(final(ms)@) == members_view(old(ms)@) + usage_member(usage),
{
    match usage {
        Some(b) => push_member(ms, "stream_options", flag_object("include_usage", JsonValue::Bool(b))),
        None => {
            proof { assert(members_view(ms@) =~= members_view(ms@) + Seq::<(Seq<char>, JsonView)>::empty()); }
        },
    }
}

fn push_format(ms: &mut Vec<(String, JsonValue)>, json_output: bool)
    ensures
        members_view(final(ms)@) == members_view(old(ms)@) + format_member(json_output),
{
    if json_output {
        push_member(ms, "response_format", flag_object("type", JsonValue::Str(String::from_str("json_object"))));
        proof { reveal_strlit("json_object"); }
    } else {
        proof { assert(members_view(ms@) =~= members_view(ms@) + Seq::<(Seq<char>, JsonView)>::empty()); }
    }
}

fn push_effort(ms: &mut Vec<(String, JsonValue)>, effort: &Option<String>)
    ensures
        members_view(final(ms)@) == members_view(old(ms)@) + opt_member("reasoning_effort"@, str_json(opt_str(*effort))),
{
    match effort {
        Some(e) => push_member(ms, "reasoning_effort", string_value(e)),
        None => {
            proof { assert(members_view(ms@) =~= members_view(ms@) + Seq::<(Seq<char>, JsonView)>::empty()); }
        },
    }
}

fn push_thinking(ms: &mut Vec<(String, JsonValue)>, thinking: Option<bool>)
    ensures
        members_view(final(ms)@) == members_view(old(ms)@) + thinking_member(thinking),
{
    match thinking {
        Some(b) => {
            let mode = if b { String::from_str("enabled") } else { String::from_str("disabled") };
            proof {
                reveal_strlit("enabled");
                reveal_strlit("disabled");
            }
            push_member(ms, "thinking", flag_object("type", JsonValue::Str(mode)));
        },
        None => {
            proof { assert(members_view(ms@) =~= members_view(ms@) + Seq::<(Seq<char>, JsonView)>::empty()); }
        },
    }
}

fn push_extra(ms: &mut Vec<(String, JsonValue)>, extra: &Vec<(String, JsonValue)>)
    ensures
        members_view(final(ms)@) == members_view(old(ms)@) + members_view(extra@),
{
    let ghost start = members_view(ms@);
    let mut i: usize = 0;
    proof {
        lemma_members_view(extra@);
        assert(members_view(ms@) =~= start + members_view(extra@).take(0));
    }
    while i < extra.len()
        invariant
            i <= extra@.len(),
            members_view(extra@).len() == extra@.len(),
            forall|j: int| 0 <= j < extra@.len() ==> #[trigger] members_view(extra@)[j] == (extra@[j].0@, extra@[j].1@),
            members_view(ms@) == start + members_view(extra@).take(i as int),
        decreases extra.len() - i,
    {
        push_member(ms, extra[i].0.as_str(), extra[i].1.clone());
        proof {
            assert(members_view(extra@).take(i as int + 1) =~= members_view(extra@).take(i as int).push(members_view(extra@)[i as int]));
        }
        i = i + 1;
    }
    proof { assert(members_view(extra@).take(extra@.len() as int) =~= members_view(extra@)); }
}

/// The JSON body of `request`; see `request_json`.
pub fn request_body(request: &Request) -> (r: JsonValue)
    ensures
        r@ == request_json(request@),
{
    let mut ms: Vec<(String, JsonValue)> = Vec::new();
    proof { assert(members_view(ms@) =~= Seq::<(Seq<char>, JsonView)>::empty()); }
    push_member(&mut ms, "model", string_value(&request.model));
    push_member(&mut ms, "messages", messages_value(&request.messages));
    push_tools(&mut ms, &request.tools);
    push_stream(&mut ms, request.stream);
    push_usage(&mut ms, request.stream_usage);
    push_format(&mut ms, request.json_output);
    push_effort(&mut ms, &request.reasoning_effort);
    push_thinking(&mut ms, request.thinking);
    push_extra(&mut ms, &request.extra);
    proof {
        assert(members_view(ms@) =~= request_members(request@));
    }
    JsonValue::Object(ms)
}


// ---------------------------------------------------------------------------
// Reading responses
// ---------------------------------------------------------------------------

/// The members of a response's first choice, when it has one.
pub open spec fn first_choice(v: JsonView) -> Option<Seq<(Seq<char>, JsonView)>> {
    match v {
        JsonView::Object(ms) => match obj_get(ms, "choices"@) {
            Some(JsonView::Array(items)) => if items.len() > 0 {
                match items[0] {
                    JsonView::Object(c) => Some(c),
                    _ => None,
                }
            } else {
                None
            },
            _ => None,
        },
        _ => None,
    }
}

/// The role a reply names; a reply names the assistant unless it says
/// otherwise.
pub open spec fn role_named(r: Option<Seq<char>>) -> MessageRole {
    if r == Some("system"@) {
        MessageRole::System
    } else if r == Some("user"@) {
        MessageRole::User
    } else if r == Some("tool"@) {
        MessageRole::Tool
    } else {
        MessageRole::Assistant
    }
}

/// The tool calls of a field, when it is an array of them.
pub open spec fn calls_field(f: Option<JsonView>) -> Option<Seq<ToolCallView>> {
    match f {
        Some(JsonView::Array(items)) => decode_calls(items),
        _ => None,
    }
}

/// The members of an object field, or none.
pub open spec fn object_field(f: Option<JsonView>) -> Seq<(Seq<char>, JsonView)> {
    match f {
        Some(JsonView::Object(ms)) => ms,
        _ => Seq::empty(),
    }
}

/// The message a chat response answers with: the message of its first
/// choice, read by its role.
pub open spec fn response_message(v: JsonView) -> Option<MessageView> {
    match first_choice(v) {
        Some(c) => match obj_get(c, "message"@) {
            Some(JsonView::Object(m)) => Some(reply_message(
                role_named(field_str(obj_get(m, "role"@))),
                field_str(obj_get(m, "content"@)),
                field_str(obj_get(m, "reasoning_content"@)),
                calls_field(obj_get(m, "tool_calls"@)),
                field_str(obj_get(m, "tool_call_id"@)),
            )),
            _ => None,
        },
        None => None,
    }
}

/// What the first choice of a streamed response adds: its text, its
/// reasoning and its tool calls; nothing when there is no choice.
pub open spec fn response_delta(v: JsonView) -> Option<(Option<Seq<char>>, Option<Seq<char>>, Option<Seq<ToolCallView>>)> {
    match first_choice(v) {
        Some(c) => {
            let d = object_field(obj_get(c, "delta"@));
            Some((field_str(obj_get(d, "content"@)), field_str(obj_get(d, "reasoning_content"@)), calls_field(obj_get(d, "tool_calls"@))))
        },
        None => None,
    }
}

/// Why the first choice of a streamed response ended, if it did.
pub open spec fn response_finish(v: JsonView) -> Option<Seq<char>> {
    match first_choice(v) {
        Some(c) => field_str(obj_get(c, "finish_reason"@)),
        None => None,
    }
}

/// A token count, when the field holds one.
pub open spec fn count_field(f: Option<JsonView>) -> Option<u32> {
    match f {
        Some(JsonView::Number(NumberView::PosInt(n))) => if n <= u32::MAX { Some(n as u32) } else { None },
        _ => None,
    }
}

pub open spec fn count_or_zero(c: Option<u32>) -> u32 {
    match c {
        Some(n) => n,
        None => 0,
    }
}

/// The token usage a response reports; a count it leaves out is zero, or
/// absent where the count is optional.
pub open spec fn response_usage(v: JsonView) -> Option<Usage> {
    match v {
        JsonView::Object(ms) => match obj_get(ms, "usage"@) {
            Some(JsonView::Object(u)) => Some(Usage {
                prompt_tokens: count_or_zero(count_field(obj_get(u, "prompt_tokens"@))),
                completion_tokens: count_or_zero(count_field(obj_get(u, "completion_tokens"@))),
                total_tokens: count_or_zero(count_field(obj_get(u, "total_tokens"@))),
                prompt_cache_hit_tokens: count_field(obj_get(u, "prompt_cache_hit_tokens"@)),
                prompt_cache_miss_tokens: count_field(obj_get(u, "prompt_cache_miss_tokens"@)),
            }),
            _ => None,
        },
        _ => None,
    }
}

fn first_choice_members(v: &JsonValue) -> (r: Option<&Vec<(String, JsonValue)>>)
    ensures
        match r {
            Some(c) => first_choice(v@) == Some(members_view(c@)),
            None => first_choice(v@) is None,
        },
{
    match v {
        JsonValue::Object(ms) => match get_field(ms, "choices") {
            Some(JsonValue::Array(items)) => {
                proof { lemma_json_seq_view(items@); }
                if items.len() > 0 {
                    match &items[0] {
                        JsonValue::Object(c) => Some(c),
                        _ => None,
                    }
                } else {
                    None
                }
            },
            _ => None,
        },
        _ => None,
    }
}

fn read_role(f: Option<&JsonValue>) -> (r: MessageRole)
    ensures
        r == role_named(field_str(opt_ref_view(f))),
{
    proof {
        reveal_strlit("system");
        reveal_strlit("user");
        reveal_strlit("tool");
    }
    match read_str(f) {
        Some(s) => {
            if s == String::from_str("system") {
                MessageRole::System
            } else if s == String::from_str("user") {
                MessageRole::User
            } else if s == String::from_str("tool") {
                MessageRole::Tool
            } else {
                MessageRole::Assistant
            }
        },
        None => MessageRole::Assistant,
    }
}

fn read_calls_field(f: Option<&JsonValue>) -> (r: Option<Vec<ToolCall>>)
    ensures
        opt_calls(r) == calls_field(opt_ref_view(f)),
{
    match f {
        Some(JsonValue::Array(items)) => read_calls(items),
        _ => None,
    }
}

/// The message of a chat response; no response when it has none. See
/// `response_message`.
pub fn message_of_response(v: &JsonValue) -> (r: Result<Message, ChatError>)
    ensures
        match response_message(v@) {
            Some(m) => r is Ok && r->Ok_0@ == m,
            None => r matches Err(ChatError::NoResponse),
        },
{
    match first_choice_members(v) {
        Some(c) => match get_field(c, "message") {
            Some(JsonValue::Object(m)) => Ok(message_from_reply(
                read_role(get_field(m, "role")),
                read_str(get_field(m, "content")),
                read_str(get_field(m, "reasoning_content")),
                read_calls_field(get_field(m, "tool_calls")),
                read_str(get_field(m, "tool_call_id")),
            )),
            _ => Err(ChatError::NoResponse),
        },
        None => Err(ChatError::NoResponse),
    }
}

fn read_count(f: Option<&JsonValue>) -> (r: Option<u32>)
    ensures
        r == count_field(opt_ref_view(f)),
{
    match f {
        Some(JsonValue::Number(JsonNumber::PosInt(n))) => {
            if *n <= 4294967295u64 {
                Some(*n as u32)
            } else {
                None
            }
        },
        _ => None,
    }
}

fn or_zero(c: Option<u32>) -> (r: u32)
    ensures
        r == count_or_zero(c),
{
    match c {
        Some(n) => n,
        None => 0,
    }
}

/// The token usage a response reports; see `response_usage`.
pub fn usage_of_response(v: &JsonValue) -> (r: Option<Usage>)
    ensures
        r == response_usage(v@),
{
    match v {
        JsonValue::Object(ms) => match get_field(ms, "usage") {
            Some(JsonValue::Object(u)) => Some(Usage {
                prompt_tokens: or_zero(read_count(get_field(u, "prompt_tokens"))),
                completion_tokens: or_zero(read_count(get_field(u, "completion_tokens"))),
                total_tokens: or_zero(read_count(get_field(u, "total_tokens"))),
                prompt_cache_hit_tokens: read_count(get_field(u, "prompt_cache_hit_tokens")),
                prompt_cache_miss_tokens: read_count(get_field(u, "prompt_cache_miss_tokens")),
            }),
            _ => None,
        },
        _ => None,
    }
}

/// The chunk a streamed response stands for: the text, reasoning and tool
/// calls its first choice adds and why it ended; a response without a choice
/// ends the stream. See `chunk_from_delta`.
pub fn chunk_of_response(v: &JsonValue) -> (r: ChatChunk)
    ensures
        r.usage == response_usage(v@),
        match response_delta(v@) {
            Some((c, rc, tc)) => r.content@ == (match c { Some(x) => x, None => Seq::empty() })
                && r.reasoning_content@ == (match rc { Some(x) => x, None => Seq::empty() })
                && r.is_finished == response_finish(v@) is Some
                && opt_str(r.finish_reason) == response_finish(v@)
                && opt_calls(r.tool_calls) == tc,
            None => r.content@.len() == 0 && r.reasoning_content@.len() == 0 && r.is_finished
                && opt_str(r.finish_reason) == Some("no_choices"@) && r.tool_calls is None,
        },
{
    let usage = usage_of_response(v);
    match first_choice_members(v) {
        Some(c) => {
            let finish = read_str(get_field(c, "finish_reason"));
            let delta = match get_field(c, "delta") {
                Some(JsonValue::Object(d)) => (
                    read_str(get_field(d, "content")),
                    read_str(get_field(d, "reasoning_content")),
                    read_calls_field(get_field(d, "tool_calls")),
                ),
                _ => (None, None, None),
            };
            chunk_from_delta(Some(delta), finish, usage)
        },
        None => chunk_from_delta(None, None, usage),
    }
}

/// The address of an image entry, when it has one.
pub open spec fn image_url(item: JsonView) -> Option<Seq<char>> {
    match item {
        JsonView::Object(ms) => match obj_get(ms, "image_url"@) {
            Some(JsonView::Object(u)) => field_str(obj_get(u, "url"@)),
            _ => None,
        },
        _ => None,
    }
}

/// The addresses of the image entries that have one, in order.
pub open spec fn image_urls(items: Seq<JsonView>) -> Seq<Seq<char>>
    decreases items.len(),
{
    if items.len() == 0 {
        Seq::empty()
    } else {
        match image_url(items.last()) {
            Some(u) => image_urls(items.drop_last()).push(u),
            None => image_urls(items.drop_last()),
        }
    }
}

/// The images of a response: those listed by the message of its first
/// choice.
pub open spec fn response_images(v: JsonView) -> Seq<Seq<char>> {
    match first_choice(v) {
        Some(c) => match obj_get(c, "message"@) {
            Some(JsonView::Object(m)) => match obj_get(m, "images"@) {
                Some(JsonView::Array(items)) => image_urls(items),
                _ => Seq::empty(),
            },
            _ => Seq::empty(),
        },
        None => Seq::empty(),
    }
}

fn read_image_url(item: &JsonValue) -> (r: Option<String>)
    ensures
        opt_str(r) == image_url(item@),
{
    match item {
        JsonValue::Object(ms) => match get_field(ms, "image_url") {
            Some(JsonValue::Object(u)) => read_str(get_field(u, "url")),
            _ => None,
        },
        _ => None,
    }
}

fn read_image_urls(items: &Vec<JsonValue>) -> (r: Vec<String>)
    ensures
        r@.map_values(|s: String| s@) == image_urls(json_seq_view(items@)),
{
    let ghost sv = json_seq_view(items@);
    proof { lemma_json_seq_view(items@); }
    let mut out: Vec<String> = Vec::new();
    let mut i: usize = 0;
    proof { assert(out@.map_values(|s: String| s@) =~= image_urls(sv.subrange(0, 0))); }
    while i < items.len()
        invariant
            i <= items@.len(),
            sv == json_seq_view(items@),
            sv.len() == items@.len(),
            forall|j: int| 0 <= j < items@.len() ==> #[trigger] sv[j] == json_view(items@[j]),
            out@.map_values(|s: String| s@) == image_urls(sv.subrange(0, i as int)),
        decreases items.len() - i,
    {
        proof {
            assert(sv.subrange(0, i as int + 1).drop_last() =~= sv.subrange(0, i as int));
            assert(sv.subrange(0, i as int + 1).last() == sv[i as int]);
        }
        match read_image_url(&items[i]) {
            Some(u) => {
                proof { assert(out@.push(u).map_values(|s: String| s@) =~= out@.map_values(|s: String| s@).push(u@)); }
                out.push(u);
            },
            None => {},
        }
        i = i + 1;
    }
    proof { assert(sv.subrange(0, sv.len() as int) =~= sv); }
    out
}

/// The images an image response made; no response when it lists none. See
/// `response_images`.
pub fn images_of_response(v: &JsonValue) -> (r: Result<GenImgResponse, ChatError>)
    ensures
        response_images(v@).len() == 0 ==> r matches Err(ChatError::NoResponse),
        response_images(v@).len() > 0 ==> r is Ok && r->Ok_0.image_urls@.map_values(|s: String| s@) == response_images(v@),
{
    let urls: Vec<String> = match first_choice_members(v) {
        Some(c) => match get_field(c, "message") {
            Some(JsonValue::Object(m)) => match get_field(m, "images") {
                Some(JsonValue::Array(items)) => read_image_urls(items),
                _ => Vec::new(),
            },
            _ => Vec::new(),
        },
        None => Vec::new(),
    };
    proof {
        if response_images(v@).len() == 0 {
            assert(urls@.map_values(|s: String| s@).len() == 0);
        }
    }
    image_response(urls)
}


// ---------------------------------------------------------------------------
// Providers that speak the OpenAI chat-completions protocol
// ---------------------------------------------------------------------------

/// Where and how to reach a service with the OpenAI chat-completions API:
/// its name, key and base address, the headers sent besides the usual ones,
/// and how long a request may take.
#[derive(Debug)]
pub struct OpenAICompatibleProvider {
    api_key: String,
    base_url: String,
    extra_headers: HashMap<String, String>,
    name: String,
    timeout_ms: u64,
}

impl OpenAICompatibleProvider {
    pub closed spec fn api_key_spec(&self) -> Seq<char> {
        self.api_key@
    }

    pub closed spec fn base_url_spec(&self) -> Seq<char> {
        self.base_url@
    }

    pub closed spec fn extra_headers_spec(&self) -> Map<String, String> {
        self.extra_headers@
    }

    pub closed spec fn name_spec(&self) -> Seq<char> {
        self.name@
    }

    pub closed spec fn timeout_spec(&self) -> u64 {
        self.timeout_ms
    }

    /// A provider named `name` at `base_url` with `api_key`, no extra headers
    /// and two minutes for a request.
    pub fn new(name: &str, api_key: &str, base_url: &str) -> (r: OpenAICompatibleProvider)
        ensures
            r.name_spec() == name@,
            r.api_key_spec() == api_key@,
            r.base_url_spec() == base_url@,
            r.extra_headers_spec() == Map::<String, String>::empty(),
            r.timeout_spec() == 120_000,
    {
        OpenAICompatibleProvider {
            api_key: String::from_str(api_key),
            base_url: String::from_str(base_url),
            extra_headers: HashMap::new(),
            name: String::from_str(name),
            timeout_ms: 120_000,
        }
    }

    /// The provider sending `headers` with each request, in place of the
    /// extra headers it had.
    pub fn with_extra_headers(self, headers: HashMap<String, String>) -> (r: OpenAICompatibleProvider)
        ensures
            r.extra_headers_spec() == headers@,
            r.name_spec() == self.name_spec(),
            r.api_key_spec() == self.api_key_spec(),
            r.base_url_spec() == self.base_url_spec(),
            r.timeout_spec() == self.timeout_spec(),
    {
        let mut r = self;
        r.extra_headers = headers;
        r
    }

    /// The provider giving a request `timeout_ms` milliseconds.
    pub fn with_timeout(self, timeout_ms: u64) -> (r: OpenAICompatibleProvider)
        ensures
            r.timeout_spec() == timeout_ms,
            r.extra_headers_spec() == self.extra_headers_spec(),
            r.name_spec() == self.name_spec(),
            r.api_key_spec() == self.api_key_spec(),
            r.base_url_spec() == self.base_url_spec(),
    {
        let mut r = self;
        r.timeout_ms = timeout_ms;
        r
    }

    /// The provider at `base_url`.
    pub fn with_base_url(self, base_url: &str) -> (r: OpenAICompatibleProvider)
        ensures
            r.base_url_spec() == base_url@,
            r.extra_headers_spec() == self.extra_headers_spec(),
            r.name_spec() == self.name_spec(),
            r.api_key_spec() == self.api_key_spec(),
            r.timeout_spec() == self.timeout_spec(),
    {
        let mut r = self;
        r.base_url = String::from_str(base_url);
        r
    }

    pub fn name(&self) -> (r: &str)
        ensures
            r@ == self.name_spec(),
    {
        self.name.as_str()
    }

    pub fn api_key(&self) -> (r: &str)
        ensures
            r@ == self.api_key_spec(),
    {
        self.api_key.as_str()
    }

    pub fn base_url(&self) -> (r: &str)
        ensures
            r@ == self.base_url_spec(),
    {
        self.base_url.as_str()
    }

    pub fn extra_headers(&self) -> (r: &HashMap<String, String>)
        ensures
            r@ == self.extra_headers_spec(),
    {
        &self.extra_headers
    }

    pub fn timeout_ms(&self) -> (r: u64)
        ensures
            r == self.timeout_spec(),
    {
        self.timeout_ms
    }

    /// Where chat completions are posted: the base address followed by
    /// `/chat/completions`.
    pub fn completions_url(&self) -> (r: String)
        ensures
            r@ == self.base_url_spec() + "/chat/completions"@,
    {
        crate::text::concat2(self.base_url.as_str(), "/chat/completions")
    }
}

} // verus!
