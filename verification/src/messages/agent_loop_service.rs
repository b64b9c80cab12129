//! The agentic loop: stream the model's answer, run the tools it calls, and go round
//! again until the model answers without tool calls or the round limit is reached.
use vstd::prelude::*;
use vstd::string::*;
use crate::json::{JsonValue, is_text, json_object1, json_string, keys_are, spec_as_array, spec_get, spec_get_str};
use crate::llm::llm_adapter::{ChunkView, LlmFunction, LlmMessage, LlmToolCall, StreamChunk};
use crate::text::opt_string_view;
use crate::llm::tool_registry::{BuiltinTool, ToolRegistry};
use crate::messages::message_service::{EventView, SseEvent};
use crate::messages::messages_db::{CreateMessageWithMetaRequest, Message};
use crate::messages::tool_call_service::{
    FragmentView, PartialCallView, ToolCallAccumulator, ToolRoundRun, feed_entries, lists_tool_calls,
};

verus! {

/// What the loop needs to call the model of a session's agent.
#[derive(Debug)]
pub struct AgentConfig {
    pub api_key: String,
    pub api_endpoint: String,
    pub model_identifier: String,
    pub system_prompt: String,
}

/// The API endpoint used when a provider names none.
pub open spec fn default_endpoint() -> Seq<char> {
    "https://api.openai.com/v1"@
}

/// The configuration of an agent's model: the provider's key and endpoint (the OpenAI
/// endpoint when the provider has none), the model's identifier and the agent's prompt.
pub fn agent_config(
    api_key: String,
    base_url: Option<String>,
    model_identifier: String,
    system_prompt: String,
) -> (c: AgentConfig)
    ensures
        c.api_key@ == api_key@,
        c.api_endpoint@ == match base_url {
            Some(u) => u@,
            None => default_endpoint(),
        },
        c.model_identifier@ == model_identifier@,
        c.system_prompt@ == system_prompt@,
{
    let api_endpoint = match base_url {
        Some(u) => u,
        None => String::from_str("https://api.openai.com/v1"),
    };
    AgentConfig { api_key, api_endpoint, model_identifier, system_prompt }
}

/// The text of a JSON string.
pub open spec fn str_of(v: JsonValue) -> Option<Seq<char>> {
    match v {
        JsonValue::String(s) => Some(s@),
        _ => None,
    }
}

/// The fields of a tool call's function read from JSON the way `serde` reads a struct: an
/// object with string members `name` and `arguments` (others are ignored), or an array of
/// exactly those two strings.
pub open spec fn spec_function(v: JsonValue) -> Option<(Seq<char>, Seq<char>)> {
    match v {
        JsonValue::Object(_) => match (spec_get_str(v, "name"@), spec_get_str(v, "arguments"@)) {
            (Some(n), Some(a)) => Some((n, a)),
            _ => None,
        },
        JsonValue::Array(xs) => if xs@.len() == 2 {
            match (str_of(xs@[0]), str_of(xs@[1])) {
                (Some(n), Some(a)) => Some((n, a)),
                _ => None,
            }
        } else {
            None
        },
        _ => None,
    }
}

/// The fields of a tool call read from JSON the way `serde` reads a struct: an object with
/// string members `id` and `type` and a function, or an array of exactly those three.
pub open spec fn spec_tool_call(v: JsonValue) -> Option<(Seq<char>, Seq<char>, Seq<char>, Seq<char>)> {
    match v {
        JsonValue::Object(_) => match (spec_get_str(v, "id"@), spec_get_str(v, "type"@), spec_get(v, "function"@)) {
            (Some(i), Some(t), Some(f)) => match spec_function(f) {
                Some((n, a)) => Some((i, t, n, a)),
                None => None,
            },
            _ => None,
        },
        JsonValue::Array(xs) => if xs@.len() == 3 {
            match (str_of(xs@[0]), str_of(xs@[1])) {
                (Some(i), Some(t)) => match spec_function(xs@[2]) {
                    Some((n, a)) => Some((i, t, n, a)),
                    None => None,
                },
                _ => None,
            }
        } else {
            None
        },
        _ => None,
    }
}

/// Whether `c` holds exactly the fields read.
pub open spec fn tool_call_is(c: LlmToolCall, f: (Seq<char>, Seq<char>, Seq<char>, Seq<char>)) -> bool {
    c.id@ == f.0 && c.call_type@ == f.1 && c.function.name@ == f.2 && c.function.arguments@ == f.3
}

/// Whether every element of `xs` reads as a tool call.
pub open spec fn all_tool_calls(xs: Seq<JsonValue>) -> bool {
    forall|i: int| 0 <= i < xs.len() ==> (#[trigger] spec_tool_call(xs[i])) is Some
}

fn string_of(v: &JsonValue) -> (r: Option<String>)
    ensures
        match r {
            Some(s) => str_of(*v) == Some(s@),
            None => str_of(*v) is None,
        },
{
    match v {
        JsonValue::String(s) => Some(s.clone()),
        _ => None,
    }
}

fn read_function(v: &JsonValue) -> (r: Option<LlmFunction>)
    ensures
        match r {
            Some(f) => spec_function(*v) == Some((f.name@, f.arguments@)),
            None => spec_function(*v) is None,
        },
{
    match v {
        JsonValue::Object(_) => match (v.get_str("name"), v.get_str("arguments")) {
            (Some(name), Some(arguments)) => Some(LlmFunction { name, arguments }),
            _ => None,
        },
        JsonValue::Array(xs) => {
            if xs.len() == 2 {
                match (string_of(&xs[0]), string_of(&xs[1])) {
                    (Some(name), Some(arguments)) => Some(LlmFunction { name, arguments }),
                    _ => None,
                }
            } else {
                None
            }
        },
        _ => None,
    }
}

fn read_tool_call(v: &JsonValue) -> (r: Option<LlmToolCall>)
    ensures
        match r {
            Some(c) => spec_tool_call(*v) matches Some(f) && tool_call_is(c, f),
            None => spec_tool_call(*v) is None,
        },
{
    match v {
        JsonValue::Object(_) => match (v.get_str("id"), v.get_str("type"), v.get("function")) {
            (Some(id), Some(call_type), Some(f)) => match read_function(f) {
                Some(function) => Some(LlmToolCall { id, call_type, function }),
                None => None,
            },
            _ => None,
        },
        JsonValue::Array(xs) => {
            if xs.len() == 3 {
                match (string_of(&xs[0]), string_of(&xs[1])) {
                    (Some(id), Some(call_type)) => match read_function(&xs[2]) {
                        Some(function) => Some(LlmToolCall { id, call_type, function }),
                        None => None,
                    },
                    _ => None,
                }
            } else {
                None
            }
        },
        _ => None,
    }
}

/// The tool calls that a message's metadata lists under `tool_calls`, read as
/// `serde_json::from_value::<Vec<LlmToolCall>>` reads them: an array every element of which
/// is a tool call; anything else lists none.
pub fn tool_calls_in(meta: &JsonValue) -> (r: Option<Vec<LlmToolCall>>)
    ensures
        match spec_get(*meta, "tool_calls"@) {
            Some(JsonValue::Array(xs)) => if all_tool_calls(xs@) {
                r matches Some(cs) && cs@.len() == xs@.len() && forall|i: int|
                    0 <= i < xs@.len() ==> (spec_tool_call(#[trigger] xs@[i]) matches Some(f)
                        && tool_call_is(cs@[i], f))
            } else {
                r is None
            },
            _ => r is None,
        },
{
    let xs = match meta.get("tool_calls") {
        Some(JsonValue::Array(xs)) => xs,
        _ => return None,
    };
    let mut out: Vec<LlmToolCall> = Vec::new();
    let mut i: usize = 0;
    while i < xs.len()
        invariant
            spec_get(*meta, "tool_calls"@) == Some(JsonValue::Array(*xs)),
            i <= xs@.len(),
            out@.len() == i,
            forall|k: int| 0 <= k < i ==> ((#[trigger] spec_tool_call(xs@[k])) matches Some(f) && tool_call_is(out@[k], f)),
        decreases xs@.len() - i,
    {
        match read_tool_call(&xs[i]) {
            Some(c) => out.push(c),
            None => {
                proof {
                    assert(spec_tool_call(xs@[i as int]) is None);
                    assert(!all_tool_calls(xs@));
                }
                return None;
            },
        }
        i = i + 1;
    }
    Some(out)
}

/// Whether `r` is the chat-protocol form of the stored message `m`: its role; the tool calls
/// that its metadata lists, when every listed one reads as a tool call; its content unless it
/// has tool calls; and the id of the call it answers, from its metadata.
pub open spec fn is_llm_message_of(r: LlmMessage, m: Message) -> bool {
    &&& r.role@ == m.role@
    &&& match m.metadata {
        Some(meta) => match spec_get(meta, "tool_calls"@) {
            Some(JsonValue::Array(xs)) => (all_tool_calls(xs@) <==> r.tool_calls is Some),
            _ => r.tool_calls is None,
        },
        None => r.tool_calls is None,
    }
    &&& r.tool_calls matches Some(cs) ==> (m.metadata matches Some(meta) && spec_get(meta, "tool_calls"@)
        matches Some(JsonValue::Array(xs)) && cs@.len() == xs@.len() && forall|i: int|
        0 <= i < xs@.len() ==> (spec_tool_call(#[trigger] xs@[i]) matches Some(f) && tool_call_is(
        cs@[i], f)))
    &&& r.content is None <==> r.tool_calls is Some
    &&& r.content matches Some(c) ==> c@ == m.content@
    &&& opt_string_view(r.tool_call_id) == match m.metadata {
        Some(meta) => spec_get_str(meta, "tool_call_id"@),
        None => None,
    }
}

/// The chat-protocol form of a stored message.
pub fn build_llm_message(m: &Message) -> (r: LlmMessage)
    ensures
        is_llm_message_of(r, *m),
{
    let (tool_calls, tool_call_id) = match &m.metadata {
        Some(meta) => (tool_calls_in(meta), meta.get_str("tool_call_id")),
        None => (None, None),
    };
    let content = if tool_calls.is_some() {
        None
    } else {
        Some(m.content.clone())
    };
    LlmMessage { role: m.role.clone(), content, tool_calls, tool_call_id }
}

/// The history sent to the model for a session's stored messages, in order.
pub fn build_llm_messages(records: &Vec<Message>) -> (r: Vec<LlmMessage>)
    ensures
        r@.len() == records@.len(),
        forall|i: int| 0 <= i < records@.len() ==> is_llm_message_of(#[trigger] r@[i], records@[i]),
{
    let mut out: Vec<LlmMessage> = Vec::new();
    let mut i: usize = 0;
    while i < records.len()
        invariant
            i <= records@.len(),
            out@.len() == i,
            forall|k: int| 0 <= k < i ==> is_llm_message_of(#[trigger] out@[k], records@[k]),
        decreases records@.len() - i,
    {
        out.push(build_llm_message(&records[i]));
        i = i + 1;
    }
    out
}

/// Law: the assistant message that a round of tool calls stores reads back, in the history
/// sent to the model, as exactly those calls, each of type `function`, and no content; and a
/// tool message that answers a call reads back with that call's id.
pub proof fn law_tool_round_reads_back(m: Message, r: LlmMessage, calls: Seq<PartialCallView>)
    requires
        is_llm_message_of(r, m),
    ensures
        (m.metadata matches Some(meta) && lists_tool_calls(meta, calls)) ==> {
            &&& r.tool_calls matches Some(cs) && cs@.len() == calls.len() && forall|i: int|
                0 <= i < calls.len() ==> {
                    &&& (#[trigger] cs@[i]).id@ == calls[i].id
                    &&& cs@[i].call_type@ == "function"@
                    &&& cs@[i].function.name@ == calls[i].name
                    &&& cs@[i].function.arguments@ == calls[i].arguments
                }
            &&& r.content is None
        },
        m.metadata matches Some(meta) ==> opt_string_view(r.tool_call_id) == spec_get_str(
            meta,
            "tool_call_id"@,
        ),
{
    if m.metadata matches Some(meta) && lists_tool_calls(meta, calls) {
        let meta = m.metadata->0;
        let xs = spec_as_array(spec_get(meta, "tool_calls"@)->0)->0;
        assert forall|i: int| 0 <= i < calls.len() implies #[trigger] spec_tool_call(xs[i]) == Some(
            (calls[i].id, "function"@, calls[i].name, calls[i].arguments),
        ) by {
            assert(xs[i] is Object);
            let f = spec_get(xs[i], "function"@)->0;
            assert(f is Object);
        }
        assert(all_tool_calls(xs));
        let cs = r.tool_calls->0;
        assert forall|i: int| 0 <= i < calls.len() implies {
            &&& (#[trigger] cs@[i]).id@ == calls[i].id
            &&& cs@[i].call_type@ == "function"@
            &&& cs@[i].function.name@ == calls[i].name
            &&& cs@[i].function.arguments@ == calls[i].arguments
        } by {
            assert(spec_tool_call(xs[i]) == Some((calls[i].id, "function"@, calls[i].name, calls[i].arguments)));
        }
    }
}

/// The most rounds that one answer may take.
pub const MAX_ROUNDS: u32 = 10;

/// Where the loop stands.
#[derive(Clone, Copy, PartialEq, Eq, Debug)]
pub enum LoopPhase {
    /// Between rounds: the next round may start.
    Idle,
    /// The model's answer is streaming in.
    Streaming,
    /// The final answer is being stored; its id is awaited.
    AwaitingFinalSave,
    /// The loop is over.
    Finished,
}

/// What the driver of the loop is to do next.
#[derive(Debug)]
pub enum LoopAction {
    /// Load the session's messages and stream the model's answer to them.
    StreamRound,
    /// Run a round of tool calls: store each message it hands out, in order, reporting each
    /// outcome back, until it hands out its events to send or ends with an error.
    RunToolRound(ToolRoundRun),
    /// Store a message.
    Persist(CreateMessageWithMetaRequest),
    /// Store the final answer and report its id.
    PersistFinal(CreateMessageWithMetaRequest),
    /// Send an event to the client.
    Emit(SseEvent),
    /// End the stream.
    Stop,
}

/// Whether `a` stores a message of the session with this role, content and metadata.
pub open spec fn stores(
    a: CreateMessageWithMetaRequest,
    session_id: u128,
    role: Seq<char>,
    content: Seq<char>,
) -> bool {
    a.session_id == session_id && a.role@ == role && a.content@ == content
}

/// Whether `actions` end the stream properly: nothing follows `Stop`, and `Stop` comes
/// right after a `Done` event.
pub open spec fn stop_follows_done(actions: Seq<LoopAction>) -> bool {
    forall|i: int|
        0 <= i < actions.len() && #[trigger] actions[i] is Stop ==> i == actions.len() - 1 && i >= 1
            && (actions[i - 1] matches LoopAction::Emit(e) && e.view() is Done)
}

/// The state of one streamed answer of an agent to a session.
#[derive(Debug)]
pub struct AgentLoop {
    session_id: u128,
    round: u32,
    content: String,
    acc: ToolCallAccumulator,
    finish: String,
    phase: LoopPhase,
    tools: ToolRegistry,
}

impl AgentLoop {
    pub closed spec fn session_id(&self) -> u128 {
        self.session_id
    }

    /// The rounds started so far.
    pub closed spec fn round(&self) -> nat {
        self.round as nat
    }

    /// The answer text streamed in this round.
    pub closed spec fn content(&self) -> Seq<char> {
        self.content@
    }

    /// The tool-call fragments of this round, assembled.
    pub closed spec fn calls(&self) -> Seq<(usize, PartialCallView)> {
        self.acc.entries()
    }

    /// The finish reason of this round, empty until the model gives one.
    pub closed spec fn finish_reason(&self) -> Seq<char> {
        self.finish@
    }

    pub closed spec fn spec_phase(&self) -> LoopPhase {
        self.phase
    }

    /// The tools that the model may call.
    pub closed spec fn tools(&self) -> Seq<BuiltinTool> {
        self.tools.tools()
    }

    #[verifier::type_invariant]
    spec fn inv(&self) -> bool {
        self.round <= MAX_ROUNDS
    }

    /// A loop for a session, before its first round.
    pub fn new(session_id: u128, tools: ToolRegistry) -> (r: Self)
        ensures
            r.session_id() == session_id,
            r.round() == 0,
            r.spec_phase() == LoopPhase::Idle,
            r.tools() == tools.tools(),
    {
        AgentLoop {
            session_id,
            round: 0,
            content: String::new(),
            acc: ToolCallAccumulator::new(),
            finish: String::new(),
            phase: LoopPhase::Idle,
            tools,
        }
    }

    /// Where the loop stands.
    pub fn phase(&self) -> (p: LoopPhase)
        ensures
            p == self.spec_phase(),
    {
        self.phase
    }

    /// Starts the next round, unless the round limit is reached: then the stream ends with an
    /// error and `Done` for no message.
    pub fn start_round(&mut self) -> (r: Vec<LoopAction>)
        requires
            old(self).spec_phase() == LoopPhase::Idle,
        ensures
            final(self).session_id() == old(self).session_id(),
            final(self).tools() == old(self).tools(),
            final(self).round() <= MAX_ROUNDS,
            old(self).round() < MAX_ROUNDS ==> {
                &&& final(self).round() == old(self).round() + 1
                &&& final(self).spec_phase() == LoopPhase::Streaming
                &&& final(self).content() == Seq::<char>::empty()
                &&& final(self).calls() == Seq::<(usize, PartialCallView)>::empty()
                &&& final(self).finish_reason() == Seq::<char>::empty()
                &&& r@.len() == 1
                &&& r@[0] is StreamRound
            },
            old(self).round() < 10 ==> final(self).spec_phase() == LoopPhase::Streaming,
            old(self).round() >= 10 ==> final(self).spec_phase() == LoopPhase::Finished,
            old(self).round() >= MAX_ROUNDS ==> {
                &&& final(self).round() == old(self).round()
                &&& final(self).spec_phase() == LoopPhase::Finished
                &&& r@.len() == 3
                &&& (r@[0] matches LoopAction::Emit(e) && e.view() == EventView::Error(
                    "max tool iterations reached"@,
                ))
                &&& (r@[1] matches LoopAction::Emit(e) && e.view() == EventView::Done(0))
                &&& r@[2] is Stop
            },
            stop_follows_done(r@),
    {
        proof {
            use_type_invariant(&*self);
        }
        let mut actions: Vec<LoopAction> = Vec::new();
        if self.round < MAX_ROUNDS {
            self.round = self.round + 1;
            self.content = String::new();
            self.acc = ToolCallAccumulator::new();
            self.finish = String::new();
            self.phase = LoopPhase::Streaming;
            actions.push(LoopAction::StreamRound);
        } else {
            self.phase = LoopPhase::Finished;
            actions.push(
                LoopAction::Emit(
                    SseEvent::Error { message: String::from_str("max tool iterations reached") },
                ),
            );
            actions.push(LoopAction::Emit(SseEvent::Done { message_id: 0 }));
            actions.push(LoopAction::Stop);
        }
        actions
    }

    /// Takes one chunk of the model's answer: a token is sent on and added to the answer; a
    /// tool-call fragment is assembled; a finish reason is kept; the end of the answer ends
    /// the round as [`AgentLoop::on_stream_end`] does.
    pub fn on_chunk(&mut self, chunk: StreamChunk) -> (r: Vec<LoopAction>)
        requires
            old(self).spec_phase() == LoopPhase::Streaming,
        ensures
            final(self).session_id() == old(self).session_id(),
            final(self).tools() == old(self).tools(),
            final(self).round() == old(self).round(),
            match chunk.view() {
                ChunkView::Token(d) => {
                    &&& final(self).content() == old(self).content() + d
                    &&& final(self).calls() == old(self).calls()
                    &&& final(self).finish_reason() == old(self).finish_reason()
                    &&& final(self).spec_phase() == LoopPhase::Streaming
                    &&& r@.len() == 1
                    &&& (r@[0] matches LoopAction::Emit(e) && e.view() == EventView::Token(d))
                },
                ChunkView::ToolCallDelta { index, id, name, arguments } => {
                    &&& final(self).content() == old(self).content()
                    &&& final(self).calls() == feed_entries(
                        old(self).calls(),
                        index,
                        FragmentView { id, name, arguments },
                    )
                    &&& final(self).finish_reason() == old(self).finish_reason()
                    &&& final(self).spec_phase() == LoopPhase::Streaming
                    &&& r@.len() == 0
                },
                ChunkView::FinishReason(reason) => {
                    &&& final(self).content() == old(self).content()
                    &&& final(self).calls() == old(self).calls()
                    &&& final(self).finish_reason() == reason
                    &&& final(self).spec_phase() == LoopPhase::Streaming
                    &&& r@.len() == 0
                },
                ChunkView::Done => old(self).ends_round_with(*final(self), r@),
            },
            stop_follows_done(r@),
    {
        proof {
            use_type_invariant(&*self);
        }
        match chunk {
            StreamChunk::Token(delta) => {
                let mut content = String::new();
                std::mem::swap(&mut content, &mut self.content);
                content.append(delta.as_str());
                self.content = content;
                let mut actions: Vec<LoopAction> = Vec::new();
                actions.push(LoopAction::Emit(SseEvent::Token { delta }));
                actions
            },
            StreamChunk::ToolCallDelta { index, id, name, arguments } => {
                let mut acc = ToolCallAccumulator::new();
                std::mem::swap(&mut acc, &mut self.acc);
                acc.feed(index, id, name, arguments);
                self.acc = acc;
                Vec::new()
            },
            StreamChunk::FinishReason(reason) => {
                self.finish = reason;
                Vec::new()
            },
            StreamChunk::Done => self.on_stream_end(),
        }
    }

    /// Whether `next` and `actions` are what ending the round gives: when the model asked
    /// for tool calls, the calls are run and the loop waits for the next round; otherwise the
    /// answer is stored as the final one.
    pub open spec fn ends_round_with(self, next: AgentLoop, actions: Seq<LoopAction>) -> bool {
        &&& next.session_id() == self.session_id()
        &&& next.tools() == self.tools()
        &&& next.round() == self.round()
        &&& if self.finish_reason() == "tool_calls"@ {
            &&& next.spec_phase() == LoopPhase::Idle
            &&& actions.len() == 1
            &&& (actions[0] matches LoopAction::RunToolRound(t) && t.wf() && t.session_id()
                == self.session_id() && t.calls() == self.calls().map_values(
                |e: (usize, PartialCallView)| e.1,
            ) && t.tools() == self.tools() && t.sent() == 0 && !t.is_done())
        } else {
            &&& next.spec_phase() == LoopPhase::AwaitingFinalSave
            &&& actions.len() == 1
            &&& (actions[0] matches LoopAction::PersistFinal(m) && stores(
                m,
                self.session_id(),
                "assistant"@,
                self.content(),
            ) && m.metadata is None)
        }
    }

    /// Ends the round when the model's answer is complete.
    pub fn on_stream_end(&mut self) -> (r: Vec<LoopAction>)
        requires
            old(self).spec_phase() == LoopPhase::Streaming,
        ensures
            old(self).ends_round_with(*final(self), r@),
            stop_follows_done(r@),
    {
        proof {
            use_type_invariant(&*self);
        }
        let mut actions: Vec<LoopAction> = Vec::new();
        if str_is(self.finish.as_str(), "tool_calls") {
            let mut acc = ToolCallAccumulator::new();
            std::mem::swap(&mut acc, &mut self.acc);
            let ghost entries = acc.entries();
            let calls = acc.finish();
            proof {
                let cv = crate::messages::tool_call_service::call_views(calls@);
                assert(cv =~= entries.map_values(|e: (usize, PartialCallView)| e.1));
            }
            let round = ToolRoundRun::new(self.session_id, calls, self.tools.duplicate());
            self.phase = LoopPhase::Idle;
            actions.push(LoopAction::RunToolRound(round));
        } else {
            self.phase = LoopPhase::AwaitingFinalSave;
            actions.push(
                LoopAction::PersistFinal(
                    CreateMessageWithMetaRequest {
                        session_id: self.session_id,
                        role: String::from_str("assistant"),
                        content: self.content.clone(),
                        metadata: None,
                    },
                ),
            );
        }
        actions
    }

    /// Ends the loop when the model's stream fails: the partial answer, if any, is stored with
    /// the error in its metadata; the error is sent, then `Done` for no message.
    pub fn on_stream_error(&mut self, message: String) -> (r: Vec<LoopAction>)
        requires
            old(self).spec_phase() == LoopPhase::Streaming,
        ensures
            final(self).spec_phase() == LoopPhase::Finished,
            final(self).round() == old(self).round(),
            final(self).session_id() == old(self).session_id(),
            final(self).tools() == old(self).tools(),
            old(self).content().len() > 0 ==> {
                &&& r@.len() == 4
                &&& (r@[0] matches LoopAction::Persist(m) && stores(
                    m,
                    old(self).session_id(),
                    "assistant"@,
                    old(self).content(),
                ) && (m.metadata matches Some(meta) && spec_get_str(meta, "error"@) == Some(message@))
                    && (m.metadata matches Some(JsonValue::Object(es)) && keys_are(es@, seq!["error"@])
                    && is_text(es@[0].1, message@)))
                &&& (r@[1] matches LoopAction::Emit(e) && e.view() == EventView::Error(message@))
                &&& (r@[2] matches LoopAction::Emit(e) && e.view() == EventView::Done(0))
                &&& r@[3] is Stop
            },
            old(self).content().len() == 0 ==> {
                &&& r@.len() == 3
                &&& (r@[0] matches LoopAction::Emit(e) && e.view() == EventView::Error(message@))
                &&& (r@[1] matches LoopAction::Emit(e) && e.view() == EventView::Done(0))
                &&& r@[2] is Stop
            },
            stop_follows_done(r@),
    {
        proof {
            use_type_invariant(&*self);
        }
        let mut actions: Vec<LoopAction> = Vec::new();
        if !self.content.as_str().is_empty() {
            let meta = json_object1("error", json_string(message.as_str()));
            actions.push(
                LoopAction::Persist(
                    CreateMessageWithMetaRequest {
                        session_id: self.session_id,
                        role: String::from_str("assistant"),
                        content: self.content.clone(),
                        metadata: Some(meta),
                    },
                ),
            );
        }
        self.phase = LoopPhase::Finished;
        actions.push(LoopAction::Emit(SseEvent::Error { message }));
        actions.push(LoopAction::Emit(SseEvent::Done { message_id: 0 }));
        actions.push(LoopAction::Stop);
        actions
    }

    /// Ends the loop once the final answer is stored under `message_id`: `Done` for it.
    pub fn on_final_saved(&mut self, message_id: u128) -> (r: Vec<LoopAction>)
        requires
            old(self).spec_phase() == LoopPhase::AwaitingFinalSave,
        ensures
            final(self).spec_phase() == LoopPhase::Finished,
            final(self).round() == old(self).round(),
            r@.len() == 2,
            (r@[0] matches LoopAction::Emit(e) && e.view() == EventView::Done(message_id)),
            r@[1] is Stop,
            stop_follows_done(r@),
    {
        proof {
            use_type_invariant(&*self);
        }
        self.phase = LoopPhase::Finished;
        let mut actions: Vec<LoopAction> = Vec::new();
        actions.push(LoopAction::Emit(SseEvent::Done { message_id }));
        actions.push(LoopAction::Stop);
        actions
    }
}

/// Whether a string slice holds exactly the given text.
fn str_is(s: &str, t: &str) -> (r: bool)
    ensures
        r == (s@ == t@),
{
    crate::text::str_eq(s, t)
}

} // verus!
