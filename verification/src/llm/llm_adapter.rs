//! The OpenAI-compatible chat-completions protocol: request bodies, the reply of a plain
//! call, and the server-sent-event stream of a streaming call.
use vstd::prelude::*;
use vstd::string::*;
use crate::error::{AppError, internal, validation};
use crate::json::{
    is_text, keys_are, lemma_lookup_absent, lemma_lookup_at, JsonNumber, JsonValue, json_parse, json_string, parse_json, spec_as_array, spec_as_u64,
    spec_get, spec_get_str,
};
use crate::text::{
    StripClass, lemma_first_index, opt_string_view, chars_of, find_char, first_index, has_prefix, i64_to_decimal, int_decimal,
    starts_with_chars, str_eq, string_from_chars, string_from_range, strip_end,
    trim, trim_chars,
};

verus! {

/// A tool call as the chat protocol writes it.
#[derive(Debug)]
pub struct LlmToolCall {
    pub id: String,
    /// The `type` member; `"function"` for function calls.
    pub call_type: String,
    pub function: LlmFunction,
}

/// The function of a tool call.
#[derive(Debug)]
pub struct LlmFunction {
    pub name: String,
    pub arguments: String,
}

/// One message of a conversation sent to the model.
#[derive(Debug)]
pub struct LlmMessage {
    pub role: String,
    pub content: Option<String>,
    pub tool_calls: Option<Vec<LlmToolCall>>,
    pub tool_call_id: Option<String>,
}

/// A chat request: model, history and system prompt.
#[derive(Debug)]
pub struct LlmRequest {
    pub model: String,
    pub messages: Vec<LlmMessage>,
    pub system_prompt: String,
}

/// The reply of a plain (non-streaming) call.
#[derive(Debug)]
pub struct LlmResponse {
    pub content: String,
    pub usage: Option<JsonValue>,
}

/// One item of a streamed answer.
#[derive(Debug)]
pub enum StreamChunk {
    /// A piece of the answer's text.
    Token(String),
    /// A fragment of the tool call at `index`.
    ToolCallDelta { index: usize, id: Option<String>, name: Option<String>, arguments: Option<String> },
    /// Why the model stopped.
    FinishReason(String),
    /// The end of the stream.
    Done,
}

/// The characters of a stream chunk.
pub enum ChunkView {
    Token(Seq<char>),
    ToolCallDelta {
        index: usize,
        id: Option<Seq<char>>,
        name: Option<Seq<char>>,
        arguments: Option<Seq<char>>,
    },
    FinishReason(Seq<char>),
    Done,
}

impl StreamChunk {
    pub open spec fn view(&self) -> ChunkView {
        match self {
            StreamChunk::Token(t) => ChunkView::Token(t@),
            StreamChunk::ToolCallDelta { index, id, name, arguments } => ChunkView::ToolCallDelta {
                index: *index,
                id: opt_string_view(*id),
                name: opt_string_view(*name),
                arguments: opt_string_view(*arguments),
            },
            StreamChunk::FinishReason(r) => ChunkView::FinishReason(r@),
            StreamChunk::Done => ChunkView::Done,
        }
    }
}

/// Law: the view of a chunk holds exactly the text of each of its parts.
pub proof fn law_chunk_view_holds_its_parts(c: StreamChunk)
    ensures
        c matches StreamChunk::Token(t) ==> c.view() == ChunkView::Token(t@),
        c matches StreamChunk::FinishReason(r) ==> c.view() == ChunkView::FinishReason(r@),
        c is Done ==> c.view() == ChunkView::Done,
        c matches StreamChunk::ToolCallDelta { index, id, name, arguments } ==> {
            &&& c.view() is ToolCallDelta
            &&& c.view()->ToolCallDelta_index == index
            &&& (id is None <==> c.view()->ToolCallDelta_id is None)
            &&& (id is Some ==> c.view()->ToolCallDelta_id->0 == id->0@)
            &&& (name is None <==> c.view()->ToolCallDelta_name is None)
            &&& (name is Some ==> c.view()->ToolCallDelta_name->0 == name->0@)
            &&& (arguments is None <==> c.view()->ToolCallDelta_arguments is None)
            &&& (arguments is Some ==> c.view()->ToolCallDelta_arguments->0 == arguments->0@)
        },
{
}

/// A message of the plain chat request.
#[derive(Debug)]
pub struct ChatMessage {
    pub role: String,
    pub content: String,
}

/// The plain chat request.
#[derive(Debug)]
pub struct ChatCompletionRequest {
    pub model: String,
    pub messages: Vec<ChatMessage>,
}

/// One choice of a plain chat reply.
#[derive(Debug)]
pub struct Choice {
    pub message: ChatMessage,
    pub finish_reason: Option<String>,
}

/// The token counts of a plain chat reply.
#[derive(Debug)]
pub struct Usage {
    pub prompt_tokens: i32,
    pub completion_tokens: i32,
    pub total_tokens: i32,
}

/// A plain chat reply.
#[derive(Debug)]
pub struct ChatCompletionResponse {
    pub choices: Vec<Choice>,
    pub usage: Option<Usage>,
}

/// The endpoint with its trailing slashes removed, then `/chat/completions`.
pub open spec fn spec_completions_url(endpoint: Seq<char>) -> Seq<char> {
    strip_end(endpoint, StripClass::Slash) + "/chat/completions"@
}

/// The chat-completions URL of an API endpoint (`trim_end_matches('/')` then the path).
pub fn chat_completions_url(endpoint: &str) -> (url: String)
    ensures
        url@ == spec_completions_url(endpoint@),
{
    let v = chars_of(endpoint);
    let mut b: usize = v.len();
    assert(v@.subrange(0, v@.len() as int) == v@);
    while b > 0 && v[b - 1] == '/'
        invariant
            b <= v@.len(),
            strip_end(v@, StripClass::Slash) == strip_end(v@.subrange(0, b as int), StripClass::Slash),
        decreases b,
    {
        let ghost t = v@.subrange(0, b as int);
        assert(t.drop_last() == v@.subrange(0, b - 1));
        b = b - 1;
    }
    proof {
        assert(v@.subrange(0, v@.len() as int) == v@);
        let t = v@.subrange(0, b as int);
        if b > 0 {
            assert(t.last() == v@[b - 1]);
        }
        assert(strip_end(t, StripClass::Slash) == t);
    }
    let base = string_from_range(v.as_slice(), 0, b);
    base.concat("/chat/completions")
}

/// The `Authorization` header value for an API key.
pub fn bearer_header(api_key: &str) -> (h: String)
    ensures
        h@ == "Bearer "@ + api_key@,
{
    String::from_str("Bearer ").concat(api_key)
}

/// Checks the arguments of a plain call: an API key and a model identifier are required.
pub fn validate_llm_call(api_key: &str, model_identifier: &str) -> (r: Result<(), AppError>)
    ensures
        api_key@.len() == 0 ==> (r matches Err(AppError::Validation(m)) && m@ == "API key is required"@),
        api_key@.len() > 0 && model_identifier@.len() == 0 ==> (r matches Err(AppError::Validation(m))
            && m@ == "Model identifier is required"@),
        api_key@.len() > 0 && model_identifier@.len() > 0 ==> r is Ok,
{
    if api_key.is_empty() {
        return Err(validation("API key is required"));
    }
    if model_identifier.is_empty() {
        return Err(validation("Model identifier is required"));
    }
    Ok(())
}

/// The plain chat request: a system message with the prompt, then each message with its
/// role and its content (empty when it has none).
pub fn build_chat_request(model_identifier: &str, system_prompt: &str, messages: &Vec<LlmMessage>) -> (r:
    ChatCompletionRequest)
    ensures
        r.model@ == model_identifier@,
        r.messages@.len() == messages@.len() + 1,
        r.messages@[0].role@ == "system"@,
        r.messages@[0].content@ == system_prompt@,
        forall|i: int|
            0 <= i < messages@.len() ==> {
                &&& (#[trigger] r.messages@[i + 1]).role@ == messages@[i].role@
                &&& r.messages@[i + 1].content@ == match messages@[i].content {
                    Some(c) => c@,
                    None => Seq::<char>::empty(),
                }
            },
{
    let mut out: Vec<ChatMessage> = Vec::new();
    out.push(ChatMessage { role: String::from_str("system"), content: String::from_str(system_prompt) });
    let mut i: usize = 0;
    while i < messages.len()
        invariant
            i <= messages@.len(),
            out@.len() == i + 1,
            out@[0].role@ == "system"@,
            out@[0].content@ == system_prompt@,
            forall|k: int|
                0 <= k < i ==> {
                    &&& (#[trigger] out@[k + 1]).role@ == messages@[k].role@
                    &&& out@[k + 1].content@ == match messages@[k].content {
                        Some(c) => c@,
                        None => Seq::<char>::empty(),
                    }
                },
        decreases messages@.len() - i,
    {
        let m = &messages[i];
        let content = match &m.content {
            Some(c) => c.clone(),
            None => String::new(),
        };
        out.push(ChatMessage { role: m.role.clone(), content });
        i = i + 1;
    }
    ChatCompletionRequest { model: String::from_str(model_identifier), messages: out }
}

/// A JSON number for a 32-bit integer.
pub fn json_int(n: i32) -> (v: JsonValue)
    ensures
        v matches JsonValue::Number(x) && x.as_i64 == Some(n as i64) && x.text@ == int_decimal(
            n as int,
        ) && x.as_u64 == (if n >= 0 {
            Some(n as u64)
        } else {
            None
        }),
{
    let text = i64_to_decimal(n as i64);
    let as_u64 = if n >= 0 {
        Some(n as u64)
    } else {
        None
    };
    JsonValue::Number(JsonNumber { as_u64, as_i64: Some(n as i64), text })
}

/// Whether `v` is the JSON of the token counts `w`: an object with exactly the three counts.
pub open spec fn is_usage_json(v: JsonValue, w: Usage) -> bool {
    &&& v matches JsonValue::Object(es) && es@.len() == 3
    &&& spec_get(v, "prompt_tokens"@) matches Some(JsonValue::Number(n)) && n.as_i64 == Some(
        w.prompt_tokens as i64,
    ) && n.text@ == int_decimal(w.prompt_tokens as int)
    &&& spec_get(v, "completion_tokens"@) matches Some(JsonValue::Number(n)) && n.as_i64 == Some(
        w.completion_tokens as i64,
    ) && n.text@ == int_decimal(w.completion_tokens as int)
    &&& spec_get(v, "total_tokens"@) matches Some(JsonValue::Number(n)) && n.as_i64 == Some(
        w.total_tokens as i64,
    ) && n.text@ == int_decimal(w.total_tokens as int)
}

/// Reads the plain chat reply: the content of the first choice, and the token counts as a
/// JSON object. A reply without choices is an internal error.
pub fn read_chat_response(resp: ChatCompletionResponse) -> (r: Result<LlmResponse, AppError>)
    ensures
        resp.choices@.len() == 0 ==> (r matches Err(AppError::Internal(m)) && m@
            == "No choices in LLM response"@),
        resp.choices@.len() > 0 ==> (r matches Ok(x) && x.content@ == resp.choices@[0].message.content@
            && (x.usage is Some <==> resp.usage is Some)),
        r matches Ok(x) ==> (x.usage matches Some(u) ==> (resp.usage matches Some(w) && is_usage_json(
            u,
            w,
        ))),
{
    if resp.choices.len() == 0 {
        return Err(internal("No choices in LLM response"));
    }
    let content = resp.choices[0].message.content.clone();
    let usage = match &resp.usage {
        Some(u) => {
            let mut members: Vec<(String, JsonValue)> = Vec::new();
            members.push((String::from_str("completion_tokens"), json_int(u.completion_tokens)));
            members.push((String::from_str("prompt_tokens"), json_int(u.prompt_tokens)));
            members.push((String::from_str("total_tokens"), json_int(u.total_tokens)));
            proof {
                reveal_strlit("completion_tokens");
                assert("completion_tokens"@.len() == 17);
                assert("completion_tokens"@[0] == 'c');
                reveal_strlit("prompt_tokens");
                assert("prompt_tokens"@.len() == 13);
                assert("prompt_tokens"@[0] == 'p');
                reveal_strlit("total_tokens");
                assert("total_tokens"@.len() == 12);
                assert("total_tokens"@[0] == 't');
                lemma_lookup_at(members@, "completion_tokens"@, 0);
                lemma_lookup_at(members@, "prompt_tokens"@, 1);
                lemma_lookup_at(members@, "total_tokens"@, 2);
            }
            Some(JsonValue::Object(members))
        },
        None => None,
    };
    Ok(LlmResponse { content, usage })
}

/// Whether `v` is the JSON of the tool call `c`: its id, its type, and its function's name
/// and arguments.
pub open spec fn is_tool_call_json(v: JsonValue, c: LlmToolCall) -> bool {
    &&& spec_get_str(v, "id"@) == Some(c.id@)
    &&& spec_get_str(v, "type"@) == Some(c.call_type@)
    &&& spec_get(v, "function"@) matches Some(f) && spec_get_str(f, "name"@) == Some(c.function.name@)
        && spec_get_str(f, "arguments"@) == Some(c.function.arguments@)
}

/// Whether `v` is the JSON of the message `m` in a streaming request: an object with its
/// role, its content or `null`, the id of the call it answers when it has one, and its tool
/// calls when it has them, and nothing else.
pub open spec fn is_message_json(v: JsonValue, m: LlmMessage) -> bool {
    &&& v matches JsonValue::Object(es) && es@.len() == 2 + (if m.tool_call_id is Some {
        1int
    } else {
        0int
    }) + (if m.tool_calls is Some {
        1int
    } else {
        0int
    })
    &&& spec_get_str(v, "role"@) == Some(m.role@)
    &&& m.content matches Some(c) ==> spec_get_str(v, "content"@) == Some(c@)
    &&& m.content is None ==> spec_get(v, "content"@) == Some(JsonValue::Null)
    &&& m.tool_calls is None ==> spec_get(v, "tool_calls"@) is None
    &&& m.tool_calls matches Some(tcs) ==> spec_get(v, "tool_calls"@) matches Some(a)
        && spec_as_array(a) matches Some(xs) && xs.len() == tcs@.len() && forall|i: int|
        0 <= i < xs.len() ==> is_tool_call_json(#[trigger] xs[i], tcs@[i])
    &&& spec_get_str(v, "tool_call_id"@) == opt_string_view(m.tool_call_id)
}

/// Whether `v` is exactly the JSON of a tool call with these parts: an object with the
/// members `function` (an object with `arguments` and `name`), `id` and `type`, and nothing
/// else.
pub open spec fn tool_call_json_is(
    v: JsonValue,
    id: Seq<char>,
    call_type: Seq<char>,
    name: Seq<char>,
    arguments: Seq<char>,
) -> bool {
    &&& v matches JsonValue::Object(es)
    &&& keys_are(es@, seq!["function"@, "id"@, "type"@])
    &&& es@[0].1 matches JsonValue::Object(fs)
    &&& keys_are(fs@, seq!["arguments"@, "name"@])
    &&& is_text(fs@[0].1, arguments)
    &&& is_text(fs@[1].1, name)
    &&& is_text(es@[1].1, id)
    &&& is_text(es@[2].1, call_type)
}

/// The JSON of a tool call as the chat protocol writes it.
pub fn tool_call_json(id: &str, call_type: &str, name: &str, arguments: &str) -> (v: JsonValue)
    ensures
        tool_call_json_is(v, id@, call_type@, name@, arguments@),
        spec_get_str(v, "id"@) == Some(id@),
        spec_get_str(v, "type"@) == Some(call_type@),
        spec_get(v, "function"@) matches Some(f) && spec_get_str(f, "name"@) == Some(name@)
            && spec_get_str(f, "arguments"@) == Some(arguments@) && (f matches JsonValue::Object(
            fes) && fes@.len() == 2),
        v matches JsonValue::Object(es) && es@.len() == 3,
{
    let mut function: Vec<(String, JsonValue)> = Vec::new();
    function.push((String::from_str("arguments"), json_string(arguments)));
    function.push((String::from_str("name"), json_string(name)));
    let ghost fs = function@;
    let function = JsonValue::Object(function);
    let mut members: Vec<(String, JsonValue)> = Vec::new();
    members.push((String::from_str("function"), function));
    members.push((String::from_str("id"), json_string(id)));
    members.push((String::from_str("type"), json_string(call_type)));
    let v = JsonValue::Object(members);
    proof {
        reveal_strlit("arguments");
        assert("arguments"@.len() == 9);
        assert("arguments"@[0] == 'a');
        reveal_strlit("name");
        assert("name"@.len() == 4);
        assert("name"@[0] == 'n');
        reveal_strlit("function");
        assert("function"@.len() == 8);
        assert("function"@[0] == 'f');
        reveal_strlit("id");
        assert("id"@.len() == 2);
        assert("id"@[0] == 'i');
        reveal_strlit("type");
        assert("type"@.len() == 4);
        assert("type"@[0] == 't');
        let es = members@;
        lemma_lookup_at(es, "function"@, 0);
        lemma_lookup_at(es, "id"@, 1);
        lemma_lookup_at(es, "type"@, 2);
        lemma_lookup_at(fs, "arguments"@, 0);
        lemma_lookup_at(fs, "name"@, 1);
    }
    v
}

/// The JSON of one message of a streaming request: its role, its content (or `null`), its
/// tool calls when it has them and the id of the call it answers when it is a tool result.
pub fn build_message_json(m: &LlmMessage) -> (v: JsonValue)
    ensures
        is_message_json(v, *m),
{
    let mut members: Vec<(String, JsonValue)> = Vec::new();
    let content = match &m.content {
        Some(c) => json_string(c.as_str()),
        None => JsonValue::Null,
    };
    members.push((String::from_str("content"), content));
    members.push((String::from_str("role"), json_string(m.role.as_str())));
    match &m.tool_call_id {
        Some(t) => members.push((String::from_str("tool_call_id"), json_string(t.as_str()))),
        None => {},
    }
    match &m.tool_calls {
        Some(tcs) => {
            let mut arr: Vec<JsonValue> = Vec::new();
            let mut i: usize = 0;
            while i < tcs.len()
                invariant
                    i <= tcs@.len(),
                    arr@.len() == i,
                    forall|k: int| 0 <= k < i ==> is_tool_call_json(#[trigger] arr@[k], tcs@[k]),
                decreases tcs@.len() - i,
            {
                let tc = &tcs[i];
                arr.push(
                    tool_call_json(
                        tc.id.as_str(),
                        tc.call_type.as_str(),
                        tc.function.name.as_str(),
                        tc.function.arguments.as_str(),
                    ),
                );
                i = i + 1;
            }
            members.push((String::from_str("tool_calls"), JsonValue::Array(arr)));
        },
        None => {},
    }
    let v = JsonValue::Object(members);
    proof {
        reveal_strlit("content");
        assert("content"@.len() == 7);
        assert("content"@[0] == 'c');
        reveal_strlit("role");
        assert("role"@.len() == 4);
        assert("role"@[0] == 'r');
        reveal_strlit("tool_call_id");
        assert("tool_call_id"@.len() == 12);
        assert("tool_call_id"@[0] == 't');
        reveal_strlit("tool_calls");
        assert("tool_calls"@.len() == 10);
        assert("tool_calls"@[0] == 't');
        let es = members@;
        lemma_lookup_at(es, "content"@, 0);
        lemma_lookup_at(es, "role"@, 1);
        if m.tool_call_id is Some {
            lemma_lookup_at(es, "tool_call_id"@, 2);
            if m.tool_calls is Some {
                lemma_lookup_at(es, "tool_calls"@, 3);
            } else {
                lemma_lookup_absent(es, "tool_calls"@);
            }
        } else {
            lemma_lookup_absent(es, "tool_call_id"@);
            if m.tool_calls is Some {
                lemma_lookup_at(es, "tool_calls"@, 2);
            } else {
                lemma_lookup_absent(es, "tool_calls"@);
            }
        }
    }
    v
}

/// The body of a streaming request: model, the system prompt then the messages, `stream`
/// set, and the tool schemas when there are any.
pub fn stream_request_body(
    model_identifier: &str,
    system_prompt: &str,
    messages: &Vec<LlmMessage>,
    tool_schemas: Vec<JsonValue>,
) -> (v: JsonValue)
    ensures
        spec_get_str(v, "model"@) == Some(model_identifier@),
        spec_get(v, "stream"@) == Some(JsonValue::Bool(true)),
        spec_get(v, "messages"@) matches Some(a) && spec_as_array(a) matches Some(xs) && xs.len()
            == messages@.len() + 1 && spec_get_str(xs[0], "role"@) == Some("system"@)
            && spec_get_str(xs[0], "content"@) == Some(system_prompt@) && forall|i: int|
            0 <= i < messages@.len() ==> is_message_json(#[trigger] xs[i + 1], messages@[i]),
        tool_schemas@.len() == 0 ==> spec_get(v, "tools"@) is None,
        tool_schemas@.len() > 0 ==> spec_get(v, "tools"@) == Some(JsonValue::Array(tool_schemas)),
        v matches JsonValue::Object(es) && es@.len() == (if tool_schemas@.len() > 0 {
            4int
        } else {
            3int
        }),
{
    let mut all: Vec<JsonValue> = Vec::new();
    let mut system: Vec<(String, JsonValue)> = Vec::new();
    system.push((String::from_str("content"), json_string(system_prompt)));
    system.push((String::from_str("role"), json_string("system")));
    all.push(JsonValue::Object(system));
    let mut i: usize = 0;
    while i < messages.len()
        invariant
            i <= messages@.len(),
            all@.len() == i + 1,
            all@[0] == JsonValue::Object(system),
            forall|k: int| 0 <= k < i ==> is_message_json(#[trigger] all@[k + 1], messages@[k]),
        decreases messages@.len() - i,
    {
        all.push(build_message_json(&messages[i]));
        i = i + 1;
    }
    let has_tools = tool_schemas.len() > 0;
    let mut members: Vec<(String, JsonValue)> = Vec::new();
    members.push((String::from_str("messages"), JsonValue::Array(all)));
    members.push((String::from_str("model"), json_string(model_identifier)));
    members.push((String::from_str("stream"), JsonValue::Bool(true)));
    if has_tools {
        members.push((String::from_str("tools"), JsonValue::Array(tool_schemas)));
    }
    let v = JsonValue::Object(members);
    proof {
        reveal_strlit("content");
        assert("content"@.len() == 7);
        assert("content"@[0] == 'c');
        reveal_strlit("role");
        assert("role"@.len() == 4);
        assert("role"@[0] == 'r');
        lemma_lookup_at(system@, "content"@, 0);
        lemma_lookup_at(system@, "role"@, 1);
        reveal_strlit("messages");
        assert("messages"@.len() == 8);
        assert("messages"@[0] == 'm');
        reveal_strlit("model");
        assert("model"@.len() == 5);
        assert("model"@[0] == 'm');
        reveal_strlit("stream");
        assert("stream"@.len() == 6);
        assert("stream"@[0] == 's');
        reveal_strlit("tools");
        assert("tools"@.len() == 5);
        assert("tools"@[0] == 't');
        let es = members@;
        lemma_lookup_at(es, "messages"@, 0);
        lemma_lookup_at(es, "model"@, 1);
        lemma_lookup_at(es, "stream"@, 2);
        if has_tools {
            lemma_lookup_at(es, "tools"@, 3);
        } else {
            lemma_lookup_absent(es, "tools"@);
        }
    }
    v
}

/// `spec_get` followed by `spec_as_array` and the first element.
pub open spec fn spec_first_of(v: JsonValue, key: Seq<char>) -> Option<JsonValue> {
    match spec_get(v, key) {
        Some(a) => match spec_as_array(a) {
            Some(xs) => if xs.len() > 0 {
                Some(xs[0])
            } else {
                None
            },
            None => None,
        },
        None => None,
    }
}

/// Law: the first element of a member is the element at position 0 of the array it holds,
/// and nothing when the member is missing, not an array, or an empty array.
pub proof fn law_first_of_is_element_zero(v: JsonValue, key: Seq<char>)
    ensures
        (spec_get(v, key) matches Some(JsonValue::Array(xs)) && xs@.len() > 0) ==> spec_first_of(v, key)
            == Some(spec_get(v, key)->0->Array_0@[0]),
        !(spec_get(v, key) matches Some(JsonValue::Array(xs)) && xs@.len() > 0) ==> spec_first_of(v, key)
            is None,
{
}

/// The chunk that the delta of one streamed choice carries: its non-empty content, else its
/// first tool-call fragment (index 0 when it gives none), else nothing.
pub open spec fn spec_delta_chunk(choice: JsonValue) -> Option<ChunkView> {
    match spec_get(choice, "delta"@) {
        None => None,
        Some(delta) => if spec_get_str(delta, "content"@) is Some && spec_get_str(delta, "content"@)->0.len() > 0 {
            Some(ChunkView::Token(spec_get_str(delta, "content"@)->0))
        } else {
            match spec_first_of(delta, "tool_calls"@) {
                None => None,
                Some(tc) => Some(
                    ChunkView::ToolCallDelta {
                        index: match spec_get(tc, "index"@) {
                            Some(n) => match spec_as_u64(n) {
                                Some(k) => k as usize,
                                None => 0,
                            },
                            None => 0,
                        },
                        id: spec_get_str(tc, "id"@),
                        name: match spec_get(tc, "function"@) {
                            Some(f) => spec_get_str(f, "name"@),
                            None => None,
                        },
                        arguments: match spec_get(tc, "function"@) {
                            Some(f) => spec_get_str(f, "arguments"@),
                            None => None,
                        },
                    },
                ),
            }
        },
    }
}

/// The chunk that the finish reason of one streamed choice gives, when it is non-empty.
pub open spec fn spec_finish_chunk(choice: JsonValue) -> Option<ChunkView> {
    match spec_get_str(choice, "finish_reason"@) {
        Some(r) => if r.len() > 0 {
            Some(ChunkView::FinishReason(r))
        } else {
            None
        },
        None => None,
    }
}

/// An optional chunk as a list of none or one.
pub open spec fn chunk_list(c: Option<ChunkView>) -> Seq<ChunkView> {
    match c {
        Some(x) => seq![x],
        None => Seq::empty(),
    }
}

/// The chunks that one streamed JSON event carries, in order: the chunk of the first choice's
/// delta, then its finish reason. An event without a choice carries none.
pub open spec fn spec_stream_chunks(v: JsonValue) -> Seq<ChunkView> {
    match spec_first_of(v, "choices"@) {
        None => Seq::empty(),
        Some(choice) => chunk_list(spec_delta_chunk(choice)) + chunk_list(spec_finish_chunk(choice)),
    }
}

fn first_of<'a>(v: &'a JsonValue, key: &str) -> (r: Option<&'a JsonValue>)
    ensures
        match r {
            Some(x) => spec_first_of(*v, key@) == Some(*x),
            None => spec_first_of(*v, key@) is None,
        },
{
    match v.get(key) {
        Some(a) => match a.as_array() {
            Some(xs) => if xs.len() > 0 {
                Some(&xs[0])
            } else {
                None
            },
            None => None,
        },
        None => None,
    }
}

/// The text that the tokens among `cs` make, in order.
pub open spec fn tokens_text(cs: Seq<ChunkView>) -> Seq<char>
    decreases cs.len(),
{
    if cs.len() == 0 {
        Seq::empty()
    } else {
        (match cs[0] {
            ChunkView::Token(t) => t,
            _ => Seq::empty(),
        }) + tokens_text(cs.drop_first())
    }
}

/// The content text that the delta of a streamed event's first choice carries: its
/// `content` member when that is a string, else nothing.
pub open spec fn delta_content(v: JsonValue) -> Seq<char> {
    match spec_first_of(v, "choices"@) {
        Some(choice) => match spec_get(choice, "delta"@) {
            Some(d) => match spec_get_str(d, "content"@) {
                Some(c) => c,
                None => Seq::empty(),
            },
            None => Seq::empty(),
        },
        None => Seq::empty(),
    }
}

/// Law: the tokens of two runs of chunks, one after the other, make the text of the first
/// followed by the text of the second.
pub proof fn law_tokens_text_concat(a: Seq<ChunkView>, b: Seq<ChunkView>)
    ensures
        tokens_text(a + b) == tokens_text(a) + tokens_text(b),
    decreases a.len(),
{
    if a.len() == 0 {
        assert(a + b =~= b);
    } else {
        assert((a + b).drop_first() =~= a.drop_first() + b);
        law_tokens_text_concat(a.drop_first(), b);
        let h = match a[0] {
            ChunkView::Token(t) => t,
            _ => Seq::<char>::empty(),
        };
        assert(h + (tokens_text(a.drop_first()) + tokens_text(b)) =~= h + tokens_text(a.drop_first())
            + tokens_text(b));
    }
}

proof fn lemma_tokens_text_one(c: ChunkView)
    ensures
        tokens_text(seq![c]) == (match c {
            ChunkView::Token(t) => t,
            _ => Seq::<char>::empty(),
        }),
{
    reveal_with_fuel(tokens_text, 2);
    assert(seq![c].drop_first() =~= Seq::<ChunkView>::empty());
    assert(seq![c][0] == c);
    let h = match c {
        ChunkView::Token(t) => t,
        _ => Seq::<char>::empty(),
    };
    assert(h + Seq::<char>::empty() =~= h);
}

/// Law: the text of a streamed answer is its deltas' content, character for character: the
/// tokens that an event gives make exactly the content text its delta carries, nothing
/// added, trimmed or dropped. So the tokens of a whole stream make the concatenation of the
/// contents of its events.
pub proof fn law_tokens_are_the_delta_content(v: JsonValue)
    ensures
        tokens_text(spec_stream_chunks(v)) == delta_content(v),
{
    reveal_with_fuel(tokens_text, 2);
    match spec_first_of(v, "choices"@) {
        None => {},
        Some(choice) => {
            let d = chunk_list(spec_delta_chunk(choice));
            let f = chunk_list(spec_finish_chunk(choice));
            law_tokens_text_concat(d, f);
            match spec_delta_chunk(choice) {
                Some(c) => lemma_tokens_text_one(c),
                None => {},
            }
            match spec_finish_chunk(choice) {
                Some(c) => lemma_tokens_text_one(c),
                None => {},
            }
            assert(tokens_text(d) + tokens_text(f) =~= tokens_text(d));
        },
    }
}

/// Law: a non-empty content in the delta of an event's first choice is the event's first
/// chunk, a token holding exactly that text.
pub proof fn law_delta_content_comes_first(v: JsonValue, c: Seq<char>)
    requires
        delta_content(v) == c,
        c.len() > 0,
    ensures
        spec_stream_chunks(v).len() >= 1,
        spec_stream_chunks(v)[0] == ChunkView::Token(c),
{
}

/// Law: a non-empty finish reason of an event's first choice is the event's last chunk, with
/// exactly that text.
pub proof fn law_finish_reason_comes_last(v: JsonValue, choice: JsonValue, r: Seq<char>)
    requires
        spec_first_of(v, "choices"@) == Some(choice),
        spec_get_str(choice, "finish_reason"@) == Some(r),
        r.len() > 0,
    ensures
        spec_stream_chunks(v).len() >= 1,
        spec_stream_chunks(v).last() == ChunkView::FinishReason(r),
{
}

/// Law: an event whose first choice gives no non-empty finish reason has no finish-reason
/// chunk.
pub proof fn law_no_finish_reason_without_one(v: JsonValue)
    requires
        spec_first_of(v, "choices"@) is None || spec_get_str(spec_first_of(v, "choices"@)->0, "finish_reason"@)
            is None || spec_get_str(spec_first_of(v, "choices"@)->0, "finish_reason"@)->0.len() == 0,
    ensures
        forall|i: int|
            0 <= i < spec_stream_chunks(v).len() ==> !(#[trigger] spec_stream_chunks(v)[i] is FinishReason),
{
}

/// Law: when the delta of an event's first choice carries no content text but tool-call
/// fragments, the event's first chunk is the first fragment, with its index (0 when it gives
/// none), its id, and its function's name and arguments exactly as given.
pub proof fn law_tool_fragment_as_given(v: JsonValue, choice: JsonValue, d: JsonValue, tc: JsonValue)
    requires
        spec_first_of(v, "choices"@) == Some(choice),
        spec_get(choice, "delta"@) == Some(d),
        delta_content(v).len() == 0,
        spec_first_of(d, "tool_calls"@) == Some(tc),
    ensures
        spec_stream_chunks(v).len() >= 1,
        spec_stream_chunks(v)[0] is ToolCallDelta,
        spec_stream_chunks(v)[0]->ToolCallDelta_id == spec_get_str(tc, "id"@),
        spec_get(tc, "index"@) is None ==> spec_stream_chunks(v)[0]->ToolCallDelta_index == 0,
        spec_get(tc, "function"@) is None ==> spec_stream_chunks(v)[0]->ToolCallDelta_name is None
            && spec_stream_chunks(v)[0]->ToolCallDelta_arguments is None,
        forall|fun: JsonValue|
            spec_get(tc, "function"@) == Some(fun) ==> spec_stream_chunks(v)[0]->ToolCallDelta_name
                == #[trigger] spec_get_str(fun, "name"@) && spec_stream_chunks(v)[0]->ToolCallDelta_arguments
                == spec_get_str(fun, "arguments"@),
{
}

fn delta_chunk(choice: &JsonValue) -> (r: Option<StreamChunk>)
    ensures
        match r {
            Some(c) => spec_delta_chunk(*choice) == Some(c.view()),
            None => spec_delta_chunk(*choice) is None,
        },
{
    let delta = match choice.get("delta") {
        Some(d) => d,
        None => return None,
    };
    match delta.get_str("content") {
        Some(content) => {
            if !content.as_str().is_empty() {
                return Some(StreamChunk::Token(content));
            }
        },
        None => {},
    }
    let tc = match first_of(delta, "tool_calls") {
        Some(t) => t,
        None => return None,
    };
    let index: usize = match tc.get("index") {
        Some(n) => match n.as_u64() {
            Some(k) => k as usize,
            None => 0,
        },
        None => 0,
    };
    let id = tc.get_str("id");
    let (name, arguments) = match tc.get("function") {
        Some(f) => (f.get_str("name"), f.get_str("arguments")),
        None => (None, None),
    };
    Some(StreamChunk::ToolCallDelta { index, id, name, arguments })
}

fn finish_chunk(choice: &JsonValue) -> (r: Option<StreamChunk>)
    ensures
        match r {
            Some(c) => spec_finish_chunk(*choice) == Some(c.view()),
            None => spec_finish_chunk(*choice) is None,
        },
{
    match choice.get_str("finish_reason") {
        Some(reason) => if reason.as_str().is_empty() {
            None
        } else {
            Some(StreamChunk::FinishReason(reason))
        },
        None => None,
    }
}

/// Reads one streamed JSON event of a chat answer: the chunk of its delta, then its finish
/// reason.
pub fn parse_stream_chunks(v: &JsonValue) -> (r: Vec<StreamChunk>)
    ensures
        chunk_views(r@) == spec_stream_chunks(*v),
{
    let mut out: Vec<StreamChunk> = Vec::new();
    let choice = match first_of(v, "choices") {
        Some(c) => c,
        None => {
            proof {
                assert(chunk_views(out@) =~= Seq::<ChunkView>::empty());
            }
            return out;
        },
    };
    let d = delta_chunk(choice);
    let f = finish_chunk(choice);
    let ghost dl = chunk_list(spec_delta_chunk(*choice));
    match d {
        Some(c) => {
            out.push(c);
        },
        None => {},
    }
    proof {
        assert(chunk_views(out@) =~= dl);
    }
    let ghost before = out@;
    match f {
        Some(c) => {
            out.push(c);
            proof {
                assert(chunk_views(out@) =~= chunk_views(before).push(c.view()));
            }
        },
        None => {},
    }
    proof {
        assert(chunk_views(out@) =~= dl + chunk_list(spec_finish_chunk(*choice)));
    }
    out
}

/// Text received from a streaming call that has not yet been split into lines.
#[derive(Debug)]
pub struct SseLineBuffer {
    buf: Vec<char>,
}

impl SseLineBuffer {
    /// The text received and not yet taken as lines.
    pub closed spec fn pending(&self) -> Seq<char> {
        self.buf@
    }

    /// An empty buffer.
    pub fn new() -> (r: Self)
        ensures
            r.pending() == Seq::<char>::empty(),
    {
        SseLineBuffer { buf: Vec::new() }
    }

    /// Appends received text. How the stream was cut into pieces makes no difference: the
    /// buffer holds the text received so far, in order.
    pub fn push_text(&mut self, text: &str)
        ensures
            final(self).pending() == old(self).pending() + text@,
    {
        let cs = chars_of(text);
        let mut i: usize = 0;
        let ghost start = self.buf@;
        while i < cs.len()
            invariant
                i <= cs@.len(),
                self.buf@ == start + cs@.subrange(0, i as int),
            decreases cs@.len() - i,
        {
            self.buf.push(cs[i]);
            assert(cs@.subrange(0, i + 1) == cs@.subrange(0, i as int).push(cs@[i as int]));
            i = i + 1;
        }
        assert(cs@.subrange(0, cs@.len() as int) == cs@);
    }

    /// Takes the next complete line (up to the first newline, which is dropped), if the
    /// pending text holds one.
    pub fn next_line(&mut self) -> (r: Option<Vec<char>>)
        ensures
            match first_index(old(self).pending(), '\n') {
                Some(p) => r matches Some(line) && line@ == old(self).pending().subrange(0, p)
                    && final(self).pending() == old(self).pending().subrange(
                    p + 1,
                    old(self).pending().len() as int,
                ),
                None => r is None && final(self).pending() == old(self).pending(),
            },
    {
        match find_char(self.buf.as_slice(), '\n') {
            None => None,
            Some(p) => {
                let mut line: Vec<char> = Vec::new();
                let mut rest: Vec<char> = Vec::new();
                let mut i: usize = 0;
                while i < self.buf.len()
                    invariant
                        p < self.buf@.len(),
                        i <= self.buf@.len(),
                        i <= p ==> line@ == self.buf@.subrange(0, i as int) && rest@.len() == 0,
                        i > p ==> line@ == self.buf@.subrange(0, p as int) && rest@
                            == self.buf@.subrange(p + 1, i as int),
                    decreases self.buf@.len() - i,
                {
                    if i < p {
                        line.push(self.buf[i]);
                        assert(self.buf@.subrange(0, i + 1) == self.buf@.subrange(0, i as int).push(
                            self.buf@[i as int],
                        ));
                    } else if i > p {
                        rest.push(self.buf[i]);
                        assert(self.buf@.subrange(p + 1, i + 1) == self.buf@.subrange(
                            p + 1,
                            i as int,
                        ).push(self.buf@[i as int]));
                    } else {
                        assert(rest@ == self.buf@.subrange(p + 1, p + 1));
                    }
                    i = i + 1;
                }
                self.buf = rest;
                Some(line)
            },
        }
    }
}

/// What one line of a server-sent-event stream means to the reader.
#[derive(Debug)]
pub enum SseLine {
    /// A blank line or a line that is not a `data:` line.
    Skip,
    /// The `data: [DONE]` line that ends the stream.
    Done,
    /// The payload of a `data:` line.
    Data(String),
}

/// The payload of a line: after trimming, a `data:` prefix, then the rest trimmed.
pub open spec fn spec_line_payload(line: Seq<char>) -> Option<Seq<char>> {
    let t = trim(line);
    if has_prefix(t, "data:"@) {
        Some(trim(t.subrange(5, t.len() as int)))
    } else {
        None
    }
}

/// Law: a `data:` line carries the text after `data:`, with the white space around it, and
/// only that, taken off.
pub proof fn law_data_line_payload(w: Seq<char>, p: Seq<char>)
    requires
        forall|i: int| 0 <= i < w.len() ==> crate::text::is_white_space(#[trigger] w[i]),
        p.len() == 0 || (!crate::text::is_white_space(p[0]) && !crate::text::is_white_space(p.last())),
    ensures
        spec_line_payload("data:"@ + w + p) == Some(p),
{
    let d = "data:"@;
    assert(d.len() == 5 && d[0] == 'd' && d[4] == ':') by {
        reveal_strlit("data:");
    }
    let line = d + w + p;
    let e = Seq::<char>::empty();
    let last = line.last();
    assert(!crate::text::is_white_space(line[0]));
    if p.len() == 0 {
        crate::text::law_trim_strips_only_white_space(e, d, w);
        assert(e + d + w =~= line);
    } else {
        assert(last == p.last());
        crate::text::law_trim_strips_only_white_space(e, line, e);
        assert(e + line + e =~= line);
    }
    let t = trim(line);
    if p.len() == 0 {
        assert(t == d);
        assert(t.subrange(0, 5) =~= d);
        assert(t.subrange(5, t.len() as int) =~= e);
        crate::text::law_trim_strips_only_white_space(e, e, e);
        assert(e + e + e =~= e);
    } else {
        assert(t.subrange(0, 5) =~= d);
        assert(t.subrange(5, t.len() as int) =~= w + p);
        crate::text::law_trim_strips_only_white_space(w, p, e);
        assert(w + p + e =~= w + p);
    }
    assert(has_prefix(t, d));
}

/// Law: what a `data:` line does: `[DONE]` ends the stream; JSON gives the chunks it carries;
/// other text fails the stream with the parser's message and the payload; a line that does
/// not begin with `data:` does nothing.
pub proof fn law_line_steps(w: Seq<char>, p: Seq<char>, other: Seq<char>)
    requires
        forall|i: int| 0 <= i < w.len() ==> crate::text::is_white_space(#[trigger] w[i]),
        p.len() == 0 || (!crate::text::is_white_space(p[0]) && !crate::text::is_white_space(p.last())),
    ensures
        line_step("data:"@ + w + p) == (if p == "[DONE]"@ {
            LineStep::Stop
        } else {
            match json_parse(p) {
                Err(m) => LineStep::Fail("Invalid SSE JSON from LLM: "@ + m + " | line="@ + p),
                Ok(v) => LineStep::Emit(spec_stream_chunks(v)),
            }
        }),
        !has_prefix(trim(other), "data:"@) ==> line_step(other) == LineStep::Skip,
{
    law_data_line_payload(w, p);
    reveal(line_step);
}

/// Reads one line of a server-sent-event stream.
pub fn classify_sse_line(line: &[char]) -> (r: SseLine)
    ensures
        match spec_line_payload(line@) {
            None => r is Skip,
            Some(d) => if d == "[DONE]"@ {
                r is Done
            } else {
                r matches SseLine::Data(x) && x@ == d
            },
        },
{
    let t = trim_chars(line);
    let prefix = chars_of("data:");
    proof {
        reveal_strlit("data:");
        assert("data:"@.len() == 5);
        assert("data:"@[0] == 'd');
    }
    if t.len() == 0 {
        assert(!has_prefix(t@, "data:"@));
        return SseLine::Skip;
    }
    if !starts_with_chars(t.as_slice(), prefix.as_slice()) {
        return SseLine::Skip;
    }
    let mut rest: Vec<char> = Vec::new();
    let mut i: usize = 5;
    while i < t.len()
        invariant
            5 <= i <= t@.len(),
            rest@ == t@.subrange(5, i as int),
        decreases t@.len() - i,
    {
        rest.push(t[i]);
        assert(t@.subrange(5, i + 1) == t@.subrange(5, i as int).push(t@[i as int]));
        i = i + 1;
    }
    let data = trim_chars(rest.as_slice());
    let text = string_from_chars(data.as_slice());
    if str_eq(text.as_str(), "[DONE]") {
        SseLine::Done
    } else {
        SseLine::Data(text)
    }
}

/// Reads the payload of a `data:` line: the chunks its JSON carries. Text that is not JSON is
/// an internal error that quotes the parser's message and the payload.
pub fn decode_sse_data(data: &str) -> (r: Result<Vec<StreamChunk>, AppError>)
    ensures
        match json_parse(data@) {
            Err(m) => r matches Err(AppError::Internal(x)) && x@ == "Invalid SSE JSON from LLM: "@ + m
                + " | line="@ + data@,
            Ok(v) => match r {
                Ok(cs) => chunk_views(cs@) == spec_stream_chunks(v),
                Err(_) => false,
            },
        },
{
    match parse_json(data) {
        Err(m) => {
            let msg = String::from_str("Invalid SSE JSON from LLM: ").concat(m.as_str()).concat(
                " | line=",
            ).concat(data);
            Err(AppError::Internal(msg))
        },
        Ok(v) => Ok(parse_stream_chunks(&v)),
    }
}

/// How reading the pending text of a stream ends.
pub enum DrainEnd {
    /// No complete line is left; this text waits for more.
    NeedMore(Seq<char>),
    /// The `[DONE]` line was read.
    Finished,
    /// A `data:` line did not hold JSON; the stream fails with this message.
    Failed(Seq<char>),
}

/// What one complete line of a stream does.
pub enum LineStep {
    /// Nothing: a blank line or another kind of line.
    Skip,
    /// `[DONE]`: the stream ends.
    Stop,
    /// A payload that is not JSON: the stream fails with this message.
    Fail(Seq<char>),
    /// The chunks of a JSON payload, in order; there may be none.
    Emit(Seq<ChunkView>),
}

/// What one complete line of a stream does: a `data:` payload of `[DONE]` ends the stream,
/// one that is not JSON fails it, and one that is JSON gives its chunks.
#[verifier::opaque]
pub open spec fn line_step(line: Seq<char>) -> LineStep {
    match spec_line_payload(line) {
        None => LineStep::Skip,
        Some(d) => if d == "[DONE]"@ {
            LineStep::Stop
        } else {
            match json_parse(d) {
                Err(m) => LineStep::Fail("Invalid SSE JSON from LLM: "@ + m + " | line="@ + d),
                Ok(v) => LineStep::Emit(spec_stream_chunks(v)),
            }
        },
    }
}

/// What reading one line does to the chunks and the end that the lines after it give.
pub open spec fn after_line(step: LineStep, tail: (Seq<ChunkView>, DrainEnd)) -> (Seq<ChunkView>, DrainEnd) {
    match step {
        LineStep::Skip => tail,
        LineStep::Stop => (seq![ChunkView::Done], DrainEnd::Finished),
        LineStep::Fail(m) => (Seq::empty(), DrainEnd::Failed(m)),
        LineStep::Emit(cs) => (cs + tail.0, tail.1),
    }
}

/// The chunks that the complete lines of `p` give, in order, and how reading them ends:
/// after `[DONE]` with a `Done` chunk, after a line that is not JSON with an error, or,
/// when no complete line is left, with the text that waits for more.
#[verifier::opaque]
pub open spec fn drain(p: Seq<char>) -> (Seq<ChunkView>, DrainEnd)
    decreases p.len(),
{
    match first_index(p, '\n') {
        None => (Seq::empty(), DrainEnd::NeedMore(p)),
        Some(i) => if 0 <= i < p.len() {
            after_line(line_step(p.subrange(0, i)), drain(p.subrange(i + 1, p.len() as int)))
        } else {
            (Seq::empty(), DrainEnd::NeedMore(p))
        },
    }
}

/// What reading the pending text gives when it holds no complete line.
proof fn lemma_drain_none(p: Seq<char>)
    requires
        first_index(p, '\n') is None,
    ensures
        drain(p) == (Seq::<ChunkView>::empty(), DrainEnd::NeedMore(p)),
{
    reveal(drain);
}

/// What reading the pending text gives when its first line ends at `i`.
proof fn lemma_drain_step(p: Seq<char>, i: int)
    requires
        first_index(p, '\n') == Some(i),
        0 <= i < p.len(),
    ensures
        drain(p) == after_line(line_step(p.subrange(0, i)), drain(p.subrange(i + 1, p.len() as int))),
{
    reveal(drain);
}

/// Reading `a` and reading `a + b` start with the same line when `a` holds a complete one.
proof fn lemma_drain_prefix_step(a: Seq<char>, b: Seq<char>)
    requires
        first_index(a, '\n') is Some,
    ensures
        ({
            let i = first_index(a, '\n')->0;
            let rest = a.subrange(i + 1, a.len() as int);
            &&& 0 <= i < a.len()
            &&& drain(a) == after_line(line_step(a.subrange(0, i)), drain(rest))
            &&& drain(a + b) == after_line(line_step(a.subrange(0, i)), drain(rest + b))
        }),
{
    lemma_first_index_prefix(a, b);
    let i = first_index(a, '\n')->0;
    let rest = a.subrange(i + 1, a.len() as int);
    assert((a + b).subrange(i + 1, (a + b).len() as int) =~= rest + b);
    assert((a + b).subrange(0, i) =~= a.subrange(0, i));
    lemma_drain_step(a, i);
    lemma_drain_step(a + b, i);
}

proof fn lemma_first_index_prefix(a: Seq<char>, b: Seq<char>)
    requires
        first_index(a, '\n') is Some,
    ensures
        first_index(a + b, '\n') == first_index(a, '\n'),
        0 <= first_index(a, '\n')->0 < a.len(),
{
    lemma_first_index(a, '\n');
    lemma_first_index(a + b, '\n');
    let i = first_index(a, '\n')->0;
    assert((a + b)[i] == '\n');
    let k = first_index(a + b, '\n')->0;
    if k < i {
        assert((a + b)[k] == a[k]);
    } else if k > i {
        assert((a + b)[i] == '\n');
    }
}

/// Law: the pending text is read a line at a time, in order: text with no newline waits for
/// more; otherwise the first line's step comes first: a line that does nothing leaves the
/// rest to be read, `[DONE]` ends with the `Done` chunk and reads no further, a line that is
/// not JSON ends with its error and no chunk, and the chunks of a JSON line come before
/// those of the lines after it.
pub proof fn law_drain_reads_lines_in_order(line: Seq<char>, rest: Seq<char>)
    requires
        first_index(line, '\n') is None,
    ensures
        drain(line) == (Seq::<ChunkView>::empty(), DrainEnd::NeedMore(line)),
        ({
            let all = line + seq!['\n'] + rest;
            match line_step(line) {
                LineStep::Skip => drain(all) == drain(rest),
                LineStep::Stop => drain(all) == (seq![ChunkView::Done], DrainEnd::Finished),
                LineStep::Fail(m) => drain(all) == (Seq::<ChunkView>::empty(), DrainEnd::Failed(m)),
                LineStep::Emit(cs) => drain(all).0 == cs + drain(rest).0 && drain(all).1 == drain(rest).1,
            }
        }),
{
    lemma_drain_none(line);
    let all = line + seq!['\n'] + rest;
    lemma_first_index(line, '\n');
    assert(all[line.len() as int] == '\n');
    lemma_first_index(all, '\n');
    let k = first_index(all, '\n')->0;
    if k < line.len() {
        assert(all[k] == line[k]);
    } else if k > line.len() {
        assert(all[line.len() as int] == '\n');
    }
    assert(all.subrange(0, line.len() as int) =~= line);
    assert(all.subrange((line.len() + 1) as int, all.len() as int) =~= rest);
    lemma_drain_step(all, line.len() as int);
}

/// Law: how the text of a stream is cut into pieces makes no difference. Reading `a`, then
/// the text it leaves waiting followed by `b`, gives the chunks, in order, and the end that
/// reading `a + b` at once gives.
pub proof fn law_stream_split_invariant(a: Seq<char>, b: Seq<char>)
    requires
        drain(a).1 is NeedMore,
    ensures
        drain(a).0 + drain(drain(a).1->NeedMore_0 + b).0 == drain(a + b).0,
        drain(drain(a).1->NeedMore_0 + b).1 == drain(a + b).1,
    decreases a.len(),
{
    if first_index(a, '\n') is None {
        lemma_drain_none(a);
        assert(drain(a).0 + drain(a + b).0 =~= drain(a + b).0);
    } else {
        lemma_drain_prefix_step(a, b);
        let i = first_index(a, '\n')->0;
        let rest = a.subrange(i + 1, a.len() as int);
        match line_step(a.subrange(0, i)) {
            LineStep::Skip => {
                law_stream_split_invariant(rest, b);
            },
            LineStep::Emit(cs) => {
                law_stream_split_invariant(rest, b);
                let w = drain(a).1->NeedMore_0;
                assert(cs + drain(rest).0 + drain(w + b).0 =~= cs + (drain(rest).0 + drain(
                    w + b,
                ).0));
            },
            _ => {},
        }
    }
}

/// The views of a list of chunks.
pub open spec fn chunk_views(cs: Seq<StreamChunk>) -> Seq<ChunkView> {
    cs.map_values(|c: StreamChunk| c.view())
}

/// Reads the server-sent events of a streaming call as the text arrives.
#[derive(Debug)]
pub struct SseDecoder {
    lines: SseLineBuffer,
    finished: bool,
}

impl SseDecoder {
    /// The text received and not yet read as lines.
    pub closed spec fn pending(&self) -> Seq<char> {
        self.lines.pending()
    }

    /// Whether the stream has ended, by `[DONE]` or by an error.
    pub closed spec fn is_finished(&self) -> bool {
        self.finished
    }

    /// A decoder before any text.
    pub fn new() -> (r: Self)
        ensures
            r.pending() == Seq::<char>::empty(),
            !r.is_finished(),
    {
        SseDecoder { lines: SseLineBuffer::new(), finished: false }
    }

    /// Whether the stream has ended.
    pub fn finished(&self) -> (b: bool)
        ensures
            b == self.is_finished(),
    {
        self.finished
    }

    /// Takes the next piece of received text and gives the chunks of the lines it completes,
    /// then the error that ended the stream, if one did.
    pub fn feed(&mut self, text: &str) -> (r: (Vec<StreamChunk>, Option<AppError>))
        requires
            !old(self).is_finished(),
        ensures
            chunk_views(r.0@) == drain(old(self).pending() + text@).0,
            match drain(old(self).pending() + text@).1 {
                DrainEnd::NeedMore(rest) => r.1 is None && !final(self).is_finished()
                    && final(self).pending() == rest,
                DrainEnd::Finished => r.1 is None && final(self).is_finished(),
                DrainEnd::Failed(m) => final(self).is_finished() && (r.1 matches Some(
                    AppError::Internal(x),
                ) && x@ == m),
            },
    {
        self.lines.push_text(text);
        let ghost all = self.lines.pending();
        let mut out: Vec<StreamChunk> = Vec::new();
        loop
            invariant
                !self.finished,
                all == old(self).pending() + text@,
                chunk_views(out@) + drain(self.lines.pending()).0 == drain(all).0,
                drain(self.lines.pending()).1 == drain(all).1,
            decreases self.lines.pending().len(),
        {
            let ghost before = self.lines.pending();
            let line = match self.lines.next_line() {
                None => {
                    proof {
                        lemma_drain_none(before);
                        assert(chunk_views(out@) =~= drain(all).0);
                    }
                    return (out, None);
                },
                Some(l) => l,
            };
            proof {
                lemma_first_index(before, '\n');
                lemma_drain_step(before, first_index(before, '\n')->0);
                reveal(line_step);
            }
            match classify_sse_line(line.as_slice()) {
                SseLine::Skip => {},
                SseLine::Done => {
                    self.finished = true;
                    let ghost prev = out@;
                    out.push(StreamChunk::Done);
                    proof {
                        assert(out@ == prev.push(StreamChunk::Done));
                        assert(chunk_views(out@) =~= chunk_views(prev).push(ChunkView::Done));
                        assert(chunk_views(out@) =~= drain(all).0);
                    }
                    return (out, None);
                },
                SseLine::Data(d) => {
                    match decode_sse_data(d.as_str()) {
                        Err(e) => {
                            self.finished = true;
                            proof {
                                assert(chunk_views(out@) =~= drain(all).0);
                            }
                            return (out, Some(e));
                        },
                        Ok(cs) => {
                            let ghost prev = out@;
                            let ghost cvs = chunk_views(cs@);
                            let mut more = cs;
                            out.append(&mut more);
                            proof {
                                assert(chunk_views(out@) =~= chunk_views(prev) + cvs);
                                let rest = self.lines.pending();
                                assert(chunk_views(prev) + cvs + drain(rest).0 =~= chunk_views(prev)
                                    + (cvs + drain(rest).0));
                            }
                        },
                    }
                },
            }
        }
    }
}

/// The error for a plain call that could not be made.
pub fn call_failed(detail: &str) -> (e: AppError)
    ensures
        e matches AppError::Internal(m) && m@ == "LLM API call failed: "@ + detail@,
{
    AppError::Internal(String::from_str("LLM API call failed: ").concat(detail))
}

/// The error for a plain call answered with a failure status; `status` is the status as
/// HTTP writes it, such as `401 Unauthorized`.
pub fn call_status_failed(status: &str, body: &str) -> (e: AppError)
    ensures
        e matches AppError::Internal(m) && m@ == "LLM API returned "@ + status@ + ": "@ + body@,
{
    AppError::Internal(String::from_str("LLM API returned ").concat(status).concat(": ").concat(body))
}

/// The error for a plain reply that could not be read.
pub fn reply_unreadable(detail: &str) -> (e: AppError)
    ensures
        e matches AppError::Internal(m) && m@ == "Failed to parse LLM response: "@ + detail@,
{
    AppError::Internal(String::from_str("Failed to parse LLM response: ").concat(detail))
}

/// The error for a streaming call that could not be made.
pub fn stream_failed(detail: &str) -> (e: AppError)
    ensures
        e matches AppError::Internal(m) && m@ == "LLM stream request failed: "@ + detail@,
{
    AppError::Internal(String::from_str("LLM stream request failed: ").concat(detail))
}

/// The error for a streaming call answered with a failure status.
pub fn stream_status_failed(status: &str, body: &str) -> (e: AppError)
    ensures
        e matches AppError::Internal(m) && m@ == "LLM API "@ + status@ + ": "@ + body@,
{
    AppError::Internal(String::from_str("LLM API ").concat(status).concat(": ").concat(body))
}

/// The error for a stream that broke while it was read.
pub fn stream_read_failed(detail: &str) -> (e: AppError)
    ensures
        e matches AppError::Internal(m) && m@ == "Stream read error: "@ + detail@,
{
    AppError::Internal(String::from_str("Stream read error: ").concat(detail))
}

} // verus!
