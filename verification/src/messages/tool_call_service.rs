//! Assembling streamed tool-call fragments into whole tool calls.
use vstd::prelude::*;
use vstd::string::*;
use crate::error::AppError;
use std::collections::HashMap;
use crate::json::{
    JsonValue, is_text, json_object1, json_string, keys_are, spec_as_array, spec_get, spec_get_str,
};
use crate::llm::llm_adapter::{tool_call_json, tool_call_json_is};
use crate::llm::tool_registry::{BuiltinTool, ToolCall, ToolRegistry, registry_output};
use crate::messages::message_service::{EventView, SseEvent};
use crate::messages::messages_db::CreateMessageWithMetaRequest;
use crate::text::opt_string_view;

verus! {

broadcast use vstd::std_specs::hash::group_hash_axioms;

/// What is known so far of one tool call: its id, its function name and the
/// concatenation of its argument fragments.
pub struct PartialCallView {
    pub id: Seq<char>,
    pub name: Seq<char>,
    pub arguments: Seq<char>,
}

/// One streamed fragment of a tool call: each part is absent when the chunk did not carry it.
pub struct FragmentView {
    pub id: Option<Seq<char>>,
    pub name: Option<Seq<char>>,
    pub arguments: Option<Seq<char>>,
}

/// A tool call of which nothing is known yet.
pub open spec fn empty_partial() -> PartialCallView {
    PartialCallView { id: Seq::empty(), name: Seq::empty(), arguments: Seq::empty() }
}

/// `p` after the fragment `f`: a given id or name replaces the old one, given arguments
/// are appended to the old ones.
pub open spec fn merge_fragment(p: PartialCallView, f: FragmentView) -> PartialCallView {
    PartialCallView {
        id: match f.id {
            Some(i) => i,
            None => p.id,
        },
        name: match f.name {
            Some(n) => n,
            None => p.name,
        },
        arguments: match f.arguments {
            Some(a) => p.arguments + a,
            None => p.arguments,
        },
    }
}

/// The entries of an accumulator: `(index, call)` pairs by strictly increasing index.
pub open spec fn sorted_entries(es: Seq<(usize, PartialCallView)>) -> bool {
    forall|i: int, j: int| 0 <= i < j < es.len() ==> es[i].0 < es[j].0
}

/// The entries after the fragment `f` for the call at `index`: the call is updated in
/// place when it is there, and added at its place in index order when it is not.
pub open spec fn feed_entries(es: Seq<(usize, PartialCallView)>, index: usize, f: FragmentView) -> Seq<
    (usize, PartialCallView),
>
    decreases es.len(),
{
    if es.len() == 0 {
        seq![(index, merge_fragment(empty_partial(), f))]
    } else if es[0].0 == index {
        es.update(0, (index, merge_fragment(es[0].1, f)))
    } else if index < es[0].0 {
        seq![(index, merge_fragment(empty_partial(), f))] + es
    } else {
        seq![es[0]] + feed_entries(es.drop_first(), index, f)
    }
}

/// The calls of a list of entries, keyed by their index.
pub open spec fn entries_map(es: Seq<(usize, PartialCallView)>) -> Map<usize, PartialCallView>
    decreases es.len(),
{
    if es.len() == 0 {
        Map::empty()
    } else {
        entries_map(es.drop_first()).insert(es[0].0, es[0].1)
    }
}

/// A call of the accumulator, in the making.
#[derive(Debug)]
pub struct PartialToolCall {
    pub id: String,
    pub name: String,
    pub arguments: String,
}

impl PartialToolCall {
    pub open spec fn view(&self) -> PartialCallView {
        PartialCallView { id: self.id@, name: self.name@, arguments: self.arguments@ }
    }
}

/// Collects the tool-call fragments of one streamed model answer, by call index. The calls
/// are kept by index; the indices are also kept in increasing order, which is the order in
/// which the calls come out.
#[derive(Debug)]
pub struct ToolCallAccumulator {
    calls: HashMap<usize, PartialToolCall>,
    order: Vec<usize>,
}

impl ToolCallAccumulator {
    /// The calls collected so far, by increasing index.
    pub closed spec fn entries(&self) -> Seq<(usize, PartialCallView)> {
        self.order@.map_values(|k: usize| (k, self.calls@[k].view()))
    }

    #[verifier::type_invariant]
    spec fn inv(&self) -> bool {
        &&& sorted_entries(self.entries())
        &&& forall|k: usize| #[trigger] self.calls@.contains_key(k) <==> self.order@.contains(k)
    }

    /// An accumulator with no calls.
    pub fn new() -> (r: Self)
        ensures
            r.entries() == Seq::<(usize, PartialCallView)>::empty(),
    {
        let r = ToolCallAccumulator { calls: HashMap::new(), order: Vec::new() };
        assert(r.entries() =~= Seq::<(usize, PartialCallView)>::empty());
        r
    }

    /// Adds one fragment of the call at `index`.
    pub fn feed(
        &mut self,
        index: usize,
        id: Option<String>,
        name: Option<String>,
        arguments: Option<String>,
    )
        ensures
            final(self).entries() == feed_entries(
                old(self).entries(),
                index,
                FragmentView {
                    id: opt_string_view(id),
                    name: opt_string_view(name),
                    arguments: opt_string_view(arguments),
                },
            ),
            sorted_entries(final(self).entries()),
    {
        proof {
            use_type_invariant(&*self);
        }
        let ghost es = self.entries();
        let ghost f = FragmentView {
            id: opt_string_view(id),
            name: opt_string_view(name),
            arguments: opt_string_view(arguments),
        };
        let mut taken = ToolCallAccumulator::new();
        std::mem::swap(&mut taken, self);
        let ToolCallAccumulator { mut calls, mut order } = taken;
        let ghost m0 = calls@;
        let ghost o0 = order@;
        assert(es == o0.map_values(|k: usize| (k, m0[k].view())));
        let mut p: usize = 0;
        while p < order.len() && order[p] < index
            invariant
                p <= order@.len(),
                order@ == o0,
                es == o0.map_values(|k: usize| (k, m0[k].view())),
                forall|i: int| 0 <= i < p ==> (#[trigger] es[i]).0 < index,
            decreases order@.len() - p,
        {
            p = p + 1;
        }
        proof {
            lemma_sorted_suffix(es, index, p as int);
            lemma_feed_at(es, index, f, p as int);
        }
        if p < order.len() && order[p] == index {
            let (new_id, new_name, new_args) = match calls.get(&index) {
                Some(old_entry) => {
                    let new_id = match id {
                        Some(s) => s,
                        None => old_entry.id.clone(),
                    };
                    let new_name = match name {
                        Some(s) => s,
                        None => old_entry.name.clone(),
                    };
                    let mut new_args = old_entry.arguments.clone();
                    match arguments {
                        Some(a) => new_args.append(a.as_str()),
                        None => {},
                    }
                    (new_id, new_name, new_args)
                },
                None => {
                    proof {
                        assert(o0.contains(index));
                    }
                    (String::new(), String::new(), String::new())
                },
            };
            let entry = PartialToolCall { id: new_id, name: new_name, arguments: new_args };
            assert(entry.view() == merge_fragment(es[p as int].1, f));
            calls.insert(index, entry);
            proof {
                assert forall|i: int| 0 <= i < o0.len() && i != p implies o0[i] != index by {
                    if i < p {
                        assert(es[i].0 < index);
                    } else {
                        assert(es[i].0 > index);
                    }
                }
                assert(order@.map_values(|k: usize| (k, calls@[k].view())) =~= es.update(
                    p as int,
                    (index, merge_fragment(es[p as int].1, f)),
                ));
                assert forall|k: usize| #[trigger] calls@.contains_key(k) <==> order@.contains(k) by {
                    if k == index {
                        assert(order@[p as int] == index);
                    }
                }
            }
        } else {
            let new_id = match id {
                Some(s) => s,
                None => String::new(),
            };
            let new_name = match name {
                Some(s) => s,
                None => String::new(),
            };
            let new_args = match arguments {
                Some(s) => s,
                None => String::new(),
            };
            let entry = PartialToolCall { id: new_id, name: new_name, arguments: new_args };
            assert(entry.view() == merge_fragment(empty_partial(), f));
            proof {
                assert(!o0.contains(index)) by {
                    if o0.contains(index) {
                        let i = choose|i: int| 0 <= i < o0.len() && o0[i] == index;
                        assert(es[i].0 == index);
                    }
                }
            }
            order.insert(p, index);
            calls.insert(index, entry);
            proof {
                assert forall|i: int| 0 <= i < o0.len() implies o0[i] != index by {
                    assert(o0.contains(o0[i]));
                }
                assert(order@.map_values(|k: usize| (k, calls@[k].view())) =~= es.insert(
                    p as int,
                    (index, merge_fragment(empty_partial(), f)),
                ));
                assert forall|k: usize| #[trigger] calls@.contains_key(k) <==> order@.contains(k) by {
                    if k == index {
                        assert(order@[p as int] == index);
                    } else if order@.contains(k) {
                        let i = choose|i: int| 0 <= i < order@.len() && order@[i] == k;
                        if i < p {
                            assert(o0[i] == k);
                        } else {
                            assert(o0[i - 1] == k);
                        }
                    } else if o0.contains(k) {
                        let i = choose|i: int| 0 <= i < o0.len() && o0[i] == k;
                        if i < p {
                            assert(order@[i] == k);
                        } else {
                            assert(order@[i + 1] == k);
                        }
                    }
                }
            }
        }
        proof {
            lemma_feed_sorted(es, index, f);
        }
        *self = ToolCallAccumulator { calls, order };
    }

    /// The whole calls, by increasing index.
    pub fn finish(self) -> (r: Vec<ToolCall>)
        ensures
            r@.len() == self.entries().len(),
            forall|i: int|
                0 <= i < r@.len() ==> {
                    &&& (#[trigger] r@[i]).id@ == self.entries()[i].1.id
                    &&& r@[i].name@ == self.entries()[i].1.name
                    &&& r@[i].arguments@ == self.entries()[i].1.arguments
                },
    {
        proof {
            use_type_invariant(&self);
        }
        let ghost es = self.entries();
        let ToolCallAccumulator { mut calls, order } = self;
        let ghost m0 = calls@;
        assert forall|a: int, b: int| 0 <= a < b < order@.len() implies order@[a] != order@[b] by {
            assert(es[a].0 < es[b].0);
        }
        let mut r: Vec<ToolCall> = Vec::new();
        let mut i: usize = 0;
        while i < order.len()
            invariant
                i <= order@.len(),
                r@.len() == i,
                es == order@.map_values(|k: usize| (k, m0[k].view())),
                forall|a: int, b: int| 0 <= a < b < order@.len() ==> order@[a] != order@[b],
                forall|j: int| i <= j < order@.len() ==> m0.contains_key(#[trigger] order@[j]),
                forall|j: int|
                    i <= j < order@.len() ==> calls@.contains_key(#[trigger] order@[j]) && calls@[order@[j]]
                        == m0[order@[j]],
                forall|k: int|
                    0 <= k < i ==> {
                        &&& (#[trigger] r@[k]).id@ == es[k].1.id
                        &&& r@[k].name@ == es[k].1.name
                        &&& r@[k].arguments@ == es[k].1.arguments
                    },
            decreases order@.len() - i,
        {
            let k = order[i];
            match calls.remove(&k) {
                Some(p) => {
                    r.push(ToolCall { id: p.id, name: p.name, arguments: p.arguments });
                },
                None => {},
            }
            proof {
                assert forall|j: int| i + 1 <= j < order@.len() implies calls@.contains_key(
                    #[trigger] order@[j],
                ) && calls@[order@[j]] == m0[order@[j]] by {
                    assert(order@[j] != order@[i as int]);
                }
            }
            i = i + 1;
        }
        r
    }
}

/// What one round of tool calls stores and sends: the assistant message that lists the
/// calls, then one tool message per call with its answer; and for each call a tool-call
/// event followed by a tool-result event.
#[derive(Debug)]
pub struct ToolRound {
    pub messages: Vec<CreateMessageWithMetaRequest>,
    pub events: Vec<SseEvent>,
}

/// The calls of a list of tool calls, by their characters.
pub open spec fn call_views(calls: Seq<ToolCall>) -> Seq<PartialCallView> {
    calls.map_values(|c: ToolCall| PartialCallView { id: c.id@, name: c.name@, arguments: c.arguments@ })
}

/// Whether `meta` is the metadata of an assistant message that lists `calls`: an object
/// whose one member, `tool_calls`, holds the JSON of each call in order, and nothing else.
pub open spec fn lists_tool_calls(meta: JsonValue, calls: Seq<PartialCallView>) -> bool {
    &&& meta matches JsonValue::Object(es) && keys_are(es@, seq!["tool_calls"@]) && (
    es@[0].1 matches JsonValue::Array(ys) && ys@.len() == calls.len() && forall|i: int|
        0 <= i < calls.len() ==> tool_call_json_is(
            #[trigger] ys@[i],
            calls[i].id,
            "function"@,
            calls[i].name,
            calls[i].arguments,
        ))
    &&& spec_get(meta, "tool_calls"@) matches Some(a) && spec_as_array(a) matches Some(xs) && xs.len()
        == calls.len() && forall|i: int|
        0 <= i < calls.len() ==> {
            &&& spec_get_str(#[trigger] xs[i], "id"@) == Some(calls[i].id)
            &&& spec_get_str(xs[i], "type"@) == Some("function"@)
            &&& spec_get(xs[i], "function"@) matches Some(f) && spec_get_str(f, "name"@) == Some(
                calls[i].name,
            ) && spec_get_str(f, "arguments"@) == Some(calls[i].arguments)
        }
}

/// Whether `m` is message `k` of the round that runs `calls` with `tools` for the session:
/// message 0 is the assistant message that lists the calls; message `k + 1` is the tool
/// message with the answer to call `k`, whose metadata is exactly the call's id.
pub open spec fn round_message_is(
    m: CreateMessageWithMetaRequest,
    session_id: u128,
    calls: Seq<PartialCallView>,
    tools: Seq<BuiltinTool>,
    k: int,
) -> bool {
    &&& m.session_id == session_id
    &&& if k == 0 {
        &&& m.role@ == "assistant"@
        &&& m.content@ == Seq::<char>::empty()
        &&& m.metadata matches Some(meta) && lists_tool_calls(meta, calls)
    } else {
        &&& m.role@ == "tool"@
        &&& m.content@ == registry_output(tools, calls[k - 1].name, calls[k - 1].arguments)
        &&& m.metadata matches Some(meta) && spec_get_str(meta, "tool_call_id"@) == Some(
            calls[k - 1].id,
        )
        &&& m.metadata matches Some(JsonValue::Object(es)) && keys_are(es@, seq!["tool_call_id"@])
            && is_text(es@[0].1, calls[k - 1].id)
    }
}

/// Law: a round stores first an assistant message with no content whose metadata is exactly
/// the list of the calls, each of type `function`, and then, for each call in order, a
/// `tool` message with the tool's answer whose metadata is exactly the call's id.
pub proof fn law_round_messages(
    m: CreateMessageWithMetaRequest,
    session_id: u128,
    calls: Seq<PartialCallView>,
    tools: Seq<BuiltinTool>,
    k: int,
)
    requires
        round_message_is(m, session_id, calls, tools, k),
        0 <= k <= calls.len(),
    ensures
        m.session_id == session_id,
        k == 0 ==> m.role@ == "assistant"@ && m.content@.len() == 0,
        k == 0 ==> (m.metadata matches Some(JsonValue::Object(es)) && es@.len() == 1 && es@[0].0@
            == "tool_calls"@ && es@[0].1 is Array && es@[0].1->Array_0@.len() == calls.len()),
        k == 0 ==> forall|i: int|
            0 <= i < calls.len() ==> spec_get_str(
                #[trigger] m.metadata->0->Object_0@[0].1->Array_0@[i],
                "type"@,
            ) == Some("function"@) && spec_get_str(m.metadata->0->Object_0@[0].1->Array_0@[i], "id"@)
                == Some(calls[i].id),
        k > 0 ==> m.role@ == "tool"@ && m.content@ == registry_output(tools, calls[k - 1].name, calls[k - 1].arguments),
        k > 0 ==> (m.metadata matches Some(JsonValue::Object(es)) && es@.len() == 1 && es@[0].0@
            == "tool_call_id"@ && es@[0].1 is String && es@[0].1->String_0@ == calls[k - 1].id),
{
    if k == 0 {
        let meta = m.metadata->0;
        let ys = meta->Object_0@[0].1->Array_0@;
        assert forall|i: int| 0 <= i < calls.len() implies spec_get_str(#[trigger] ys[i], "type"@) == Some(
            "function"@,
        ) && spec_get_str(ys[i], "id"@) == Some(calls[i].id) by {
            let xs = spec_as_array(spec_get(meta, "tool_calls"@)->0)->0;
            crate::json::lemma_lookup_at(meta->Object_0@, "tool_calls"@, 0);
            assert(xs == ys);
        }
    }
}

/// Whether `events` are what the round that runs `calls` with `tools` sends: for each call,
/// in order, a tool-call event and then a tool-result event with its answer.
pub open spec fn round_events_are(
    events: Seq<SseEvent>,
    calls: Seq<PartialCallView>,
    tools: Seq<BuiltinTool>,
) -> bool {
    &&& events.len() == 2 * calls.len()
    &&& forall|i: int|
        0 <= i < calls.len() ==> {
            &&& (#[trigger] events[2 * i]).view() == EventView::ToolCall(
                calls[i].id,
                calls[i].name,
                calls[i].arguments,
            )
            &&& events[2 * i + 1].view() == EventView::ToolResult(
                calls[i].id,
                registry_output(tools, calls[i].name, calls[i].arguments),
            )
        }
}

/// Whether `r` is what running `calls` with `tools` for the session stores and sends.
pub open spec fn is_tool_round(
    r: ToolRound,
    session_id: u128,
    calls: Seq<PartialCallView>,
    tools: Seq<BuiltinTool>,
) -> bool {
    &&& r.messages@.len() == calls.len() + 1
    &&& forall|k: int|
        0 <= k <= calls.len() ==> round_message_is(#[trigger] r.messages@[k], session_id, calls, tools, k)
    &&& round_events_are(r.events@, calls, tools)
}

/// The assistant message that opens a round: it lists the calls, with no content.
fn calls_message(session_id: u128, calls: &Vec<ToolCall>) -> (m: CreateMessageWithMetaRequest)
    ensures
        m.session_id == session_id,
        m.role@ == "assistant"@,
        m.content@ == Seq::<char>::empty(),
        m.metadata matches Some(meta) && lists_tool_calls(meta, call_views(calls@)),
{
    let mut listed: Vec<JsonValue> = Vec::new();
    let mut i: usize = 0;
    while i < calls.len()
        invariant
            i <= calls@.len(),
            listed@.len() == i,
            forall|k: int|
                0 <= k < i ==> {
                    &&& spec_get_str(#[trigger] listed@[k], "id"@) == Some(calls@[k].id@)
                    &&& spec_get_str(listed@[k], "type"@) == Some("function"@)
                    &&& spec_get(listed@[k], "function"@) matches Some(f) && spec_get_str(f, "name"@)
                        == Some(calls@[k].name@) && spec_get_str(f, "arguments"@) == Some(
                        calls@[k].arguments@,
                    )
                    &&& tool_call_json_is(
                        listed@[k],
                        calls@[k].id@,
                        "function"@,
                        calls@[k].name@,
                        calls@[k].arguments@,
                    )
                },
        decreases calls@.len() - i,
    {
        let c = &calls[i];
        listed.push(
            tool_call_json(c.id.as_str(), "function", c.name.as_str(), c.arguments.as_str()),
        );
        i = i + 1;
    }
    let meta = json_object1("tool_calls", JsonValue::Array(listed));
    CreateMessageWithMetaRequest {
        session_id,
        role: String::from_str("assistant"),
        content: String::new(),
        metadata: Some(meta),
    }
}

/// Runs the tool calls of one model answer with the registry's tools and says what to store
/// and what to send, in order.
pub fn execute_tool_calls(session_id: u128, calls: &Vec<ToolCall>, tools: &ToolRegistry) -> (r:
    ToolRound)
    ensures
        is_tool_round(r, session_id, call_views(calls@), tools.tools()),
{
    let mut messages: Vec<CreateMessageWithMetaRequest> = Vec::new();
    messages.push(calls_message(session_id, calls));
    let mut events: Vec<SseEvent> = Vec::new();
    let mut j: usize = 0;
    while j < calls.len()
        invariant
            j <= calls@.len(),
            messages@.len() == j + 1,
            events@.len() == 2 * j,
            forall|i: int| 0 <= i < messages@.len() ==> (#[trigger] messages@[i]).session_id == session_id,
            messages@[0].role@ == "assistant"@,
            messages@[0].content@ == Seq::<char>::empty(),
            messages@[0].metadata matches Some(meta) && lists_tool_calls(meta, call_views(calls@)),
            forall|i: int|
                0 <= i < j ==> {
                    &&& (#[trigger] messages@[i + 1]).role@ == "tool"@
                    &&& messages@[i + 1].content@ == registry_output(
                        tools.tools(),
                        calls@[i].name@,
                        calls@[i].arguments@,
                    )
                    &&& messages@[i + 1].metadata matches Some(meta) && spec_get_str(
                        meta,
                        "tool_call_id"@,
                    ) == Some(calls@[i].id@)
                    &&& messages@[i + 1].metadata matches Some(JsonValue::Object(es)) && keys_are(
                        es@,
                        seq!["tool_call_id"@],
                    ) && is_text(es@[0].1, calls@[i].id@)
                },
            forall|i: int|
                0 <= i < j ==> {
                    &&& (#[trigger] events@[2 * i]).view() == EventView::ToolCall(
                        calls@[i].id@,
                        calls@[i].name@,
                        calls@[i].arguments@,
                    )
                    &&& events@[2 * i + 1].view() == EventView::ToolResult(
                        calls@[i].id@,
                        registry_output(tools.tools(), calls@[i].name@, calls@[i].arguments@),
                    )
                },
        decreases calls@.len() - j,
    {
        let c = &calls[j];
        let ghost before = events@;
        events.push(
            SseEvent::ToolCall { id: c.id.clone(), name: c.name.clone(), arguments: c.arguments.clone() },
        );
        let result = tools.execute(c);
        messages.push(
            CreateMessageWithMetaRequest {
                session_id,
                role: String::from_str("tool"),
                content: result.output.clone(),
                metadata: Some(json_object1("tool_call_id", json_string(c.id.as_str()))),
            },
        );
        events.push(SseEvent::ToolResult { id: result.id, result: result.output });
        proof {
            assert(events@[2 * j as int].view() == EventView::ToolCall(
                calls@[j as int].id@,
                calls@[j as int].name@,
                calls@[j as int].arguments@,
            ));
            assert forall|i: int|
                0 <= i < j + 1 implies #[trigger] events@[2 * i].view() == EventView::ToolCall(
                calls@[i].id@,
                calls@[i].name@,
                calls@[i].arguments@,
            ) && events@[2 * i + 1].view() == EventView::ToolResult(
                calls@[i].id@,
                registry_output(tools.tools(), calls@[i].name@, calls@[i].arguments@),
            ) by {
                if i < j {
                    assert(events@[2 * i] == before[2 * i]);
                    assert(events@[2 * i + 1] == before[2 * i + 1]);
                }
            }
        }
        j = j + 1;
    }
    let r = ToolRound { messages, events };
    proof {
        let cv = call_views(calls@);
        assert forall|i: int| 0 <= i < calls@.len() implies cv[i] == PartialCallView {
            id: calls@[i].id@,
            name: calls@[i].name@,
            arguments: calls@[i].arguments@,
        } by {}
        assert forall|k: int| 0 <= k <= calls@.len() implies round_message_is(
            #[trigger] r.messages@[k],
            session_id,
            cv,
            tools.tools(),
            k,
        ) by {
            if k > 0 {
                let i = k - 1;
                assert(r.messages@[i + 1].role@ == "tool"@);
            }
        }
    }
    r
}

/// What to do next in a round of tool calls.
#[derive(Debug)]
pub enum RoundStep {
    /// Store this message, then report how that went.
    Store(CreateMessageWithMetaRequest),
    /// Every message of the round is stored: send these events, in order.
    Finished(Vec<SseEvent>),
}

/// A round of tool calls run one step at a time: each message is handed out to be stored,
/// and the next call runs only once the message before it is stored. The first store that
/// fails ends the round with its error, and no later call runs.
#[derive(Debug)]
pub struct ToolRoundRun {
    session_id: u128,
    calls: Vec<ToolCall>,
    tools: ToolRegistry,
    started: bool,
    outputs: Vec<String>,
    done: bool,
}

impl ToolRoundRun {
    /// The session whose round it is.
    pub closed spec fn session_id(&self) -> u128 {
        self.session_id
    }

    /// The calls of the round.
    pub closed spec fn calls(&self) -> Seq<PartialCallView> {
        call_views(self.calls@)
    }

    /// The tools that answer the calls.
    pub closed spec fn tools(&self) -> Seq<BuiltinTool> {
        self.tools.tools()
    }

    /// How many messages have been handed out to be stored; calls run so far are one fewer.
    pub closed spec fn sent(&self) -> nat {
        if self.started {
            self.outputs@.len() + 1
        } else {
            0
        }
    }

    /// Whether the round is over: finished, or ended by a failed store.
    pub closed spec fn is_done(&self) -> bool {
        self.done
    }

    /// Whether the state is consistent: the calls run so far, one per tool message handed
    /// out, have their answers kept in order.
    pub closed spec fn wf(&self) -> bool {
        &&& self.outputs@.len() <= self.calls@.len()
        &&& !self.started ==> self.outputs@.len() == 0
        &&& forall|i: int|
            0 <= i < self.outputs@.len() ==> (#[trigger] self.outputs@[i])@ == registry_output(
                self.tools.tools(),
                self.calls@[i].name@,
                self.calls@[i].arguments@,
            )
    }

    /// A round of `calls`, run with `tools`, before any step.
    pub fn new(session_id: u128, calls: Vec<ToolCall>, tools: ToolRegistry) -> (r: Self)
        ensures
            r.wf(),
            r.session_id() == session_id,
            r.calls() == call_views(calls@),
            r.tools() == tools.tools(),
            r.sent() == 0,
            !r.is_done(),
    {
        ToolRoundRun {
            session_id,
            calls,
            tools,
            started: false,
            outputs: Vec::new(),
            done: false,
        }
    }

    /// The first step: the assistant message that lists the calls, to be stored.
    pub fn start(&mut self) -> (m: CreateMessageWithMetaRequest)
        requires
            old(self).wf(),
            old(self).sent() == 0,
            !old(self).is_done(),
        ensures
            final(self).wf(),
            final(self).session_id() == old(self).session_id(),
            final(self).calls() == old(self).calls(),
            final(self).tools() == old(self).tools(),
            final(self).sent() == 1,
            !final(self).is_done(),
            round_message_is(m, old(self).session_id(), old(self).calls(), old(self).tools(), 0),
    {
        let m = calls_message(self.session_id, &self.calls);
        self.started = true;
        m
    }

    /// The message last handed out has been stored, or storing it failed. A failure ends the
    /// round with that error. Otherwise the next call runs and its tool message is handed
    /// out; after the last one, the round's events are.
    pub fn on_stored(&mut self, outcome: Result<(), AppError>) -> (r: Result<
        RoundStep,
        AppError,
    >)
        requires
            old(self).wf(),
            !old(self).is_done(),
            old(self).sent() >= 1,
        ensures
            final(self).wf(),
            final(self).session_id() == old(self).session_id(),
            final(self).calls() == old(self).calls(),
            final(self).tools() == old(self).tools(),
            match outcome {
                Err(e) => {
                    &&& r == Err::<RoundStep, AppError>(e)
                    &&& final(self).is_done()
                    &&& final(self).sent() == old(self).sent()
                },
                Ok(_) => if old(self).sent() <= old(self).calls().len() {
                    &&& r matches Ok(RoundStep::Store(m)) && round_message_is(
                        m,
                        old(self).session_id(),
                        old(self).calls(),
                        old(self).tools(),
                        old(self).sent() as int,
                    )
                    &&& final(self).sent() == old(self).sent() + 1
                    &&& !final(self).is_done()
                } else {
                    &&& r matches Ok(RoundStep::Finished(events)) && round_events_are(
                        events@,
                        old(self).calls(),
                        old(self).tools(),
                    )
                    &&& final(self).sent() == old(self).sent()
                    &&& final(self).is_done()
                },
            },
    {
        match outcome {
            Err(e) => {
                self.done = true;
                return Err(e);
            },
            Ok(()) => {},
        }
        let ghost cv = call_views(self.calls@);
        if self.outputs.len() < self.calls.len() {
            let k = self.outputs.len();
            let c = &self.calls[k];
            let result = self.tools.execute(c);
            let m = CreateMessageWithMetaRequest {
                session_id: self.session_id,
                role: String::from_str("tool"),
                content: result.output.clone(),
                metadata: Some(json_object1("tool_call_id", json_string(c.id.as_str()))),
            };
            proof {
                assert(cv[k as int] == PartialCallView {
                    id: self.calls@[k as int].id@,
                    name: self.calls@[k as int].name@,
                    arguments: self.calls@[k as int].arguments@,
                });
            }
            self.outputs.push(result.output);
            return Ok(RoundStep::Store(m));
        }
        let mut events: Vec<SseEvent> = Vec::new();
        let mut i: usize = 0;
        while i < self.calls.len()
            invariant
                self.wf(),
                self.started,
                self.outputs@.len() == self.calls@.len(),
                cv == call_views(self.calls@),
                i <= self.calls@.len(),
                events@.len() == 2 * i,
                forall|j: int|
                    0 <= j < i ==> {
                        &&& (#[trigger] events@[2 * j]).view() == EventView::ToolCall(
                            cv[j].id,
                            cv[j].name,
                            cv[j].arguments,
                        )
                        &&& events@[2 * j + 1].view() == EventView::ToolResult(
                            cv[j].id,
                            registry_output(self.tools.tools(), cv[j].name, cv[j].arguments),
                        )
                    },
            decreases self.calls@.len() - i,
        {
            let c = &self.calls[i];
            let ghost before = events@;
            events.push(
                SseEvent::ToolCall {
                    id: c.id.clone(),
                    name: c.name.clone(),
                    arguments: c.arguments.clone(),
                },
            );
            events.push(SseEvent::ToolResult { id: c.id.clone(), result: self.outputs[i].clone() });
            proof {
                assert(cv[i as int] == PartialCallView {
                    id: self.calls@[i as int].id@,
                    name: self.calls@[i as int].name@,
                    arguments: self.calls@[i as int].arguments@,
                });
                assert forall|j: int| 0 <= j < i + 1 implies {
                    &&& (#[trigger] events@[2 * j]).view() == EventView::ToolCall(
                        cv[j].id,
                        cv[j].name,
                        cv[j].arguments,
                    )
                    &&& events@[2 * j + 1].view() == EventView::ToolResult(
                        cv[j].id,
                        registry_output(self.tools.tools(), cv[j].name, cv[j].arguments),
                    )
                } by {
                    if j < i {
                        assert(events@[2 * j] == before[2 * j]);
                        assert(events@[2 * j + 1] == before[2 * j + 1]);
                    }
                }
            }
            i = i + 1;
        }
        self.done = true;
        Ok(RoundStep::Finished(events))
    }
}

proof fn lemma_sorted_suffix(es: Seq<(usize, PartialCallView)>, index: usize, p: int)
    requires
        sorted_entries(es),
        0 <= p <= es.len(),
        forall|i: int| 0 <= i < p ==> (#[trigger] es[i]).0 < index,
        p == es.len() || es[p].0 >= index,
    ensures
        forall|i: int| p <= i < es.len() ==> (#[trigger] es[i]).0 >= index,
        forall|i: int| p < i < es.len() ==> (#[trigger] es[i]).0 > index,
{
    assert forall|i: int| p <= i < es.len() implies (#[trigger] es[i]).0 >= index by {
        if i > p {
            assert(es[p].0 < es[i].0);
        }
    }
    assert forall|i: int| p < i < es.len() implies (#[trigger] es[i]).0 > index by {
        assert(es[p].0 < es[i].0);
    }
}

/// `feed_entries` updates or inserts at the first position whose index is not below `index`.
proof fn lemma_feed_at(es: Seq<(usize, PartialCallView)>, index: usize, f: FragmentView, p: int)
    requires
        sorted_entries(es),
        0 <= p <= es.len(),
        forall|i: int| 0 <= i < p ==> (#[trigger] es[i]).0 < index,
        p == es.len() || es[p].0 >= index,
    ensures
        feed_entries(es, index, f) == (if p < es.len() && es[p].0 == index {
            es.update(p, (index, merge_fragment(es[p].1, f)))
        } else {
            es.insert(p, (index, merge_fragment(empty_partial(), f)))
        }),
    decreases p,
{
    if p == 0 {
        if es.len() == 0 {
            assert(es.insert(0, (index, merge_fragment(empty_partial(), f))) =~= seq![
                (index, merge_fragment(empty_partial(), f)),
            ]);
        } else if es[0].0 == index {
        } else {
            assert(es.insert(0, (index, merge_fragment(empty_partial(), f))) =~= seq![
                (index, merge_fragment(empty_partial(), f)),
            ] + es);
        }
    } else {
        let rest = es.drop_first();
        assert(sorted_entries(rest)) by {
            assert forall|i: int, j: int| 0 <= i < j < rest.len() implies rest[i].0 < rest[j].0 by {
                assert(rest[i] == es[i + 1] && rest[j] == es[j + 1]);
            }
        }
        assert forall|i: int| 0 <= i < p - 1 implies (#[trigger] rest[i]).0 < index by {
            assert(rest[i] == es[i + 1]);
        }
        if p < es.len() {
            assert(rest[p - 1] == es[p]);
        }
        lemma_feed_at(rest, index, f, p - 1);
        assert(es[0].0 < index);
        if p < es.len() && es[p].0 == index {
            assert(seq![es[0]] + rest.update(p - 1, (index, merge_fragment(rest[p - 1].1, f)))
                =~= es.update(p, (index, merge_fragment(es[p].1, f))));
        } else {
            assert(seq![es[0]] + rest.insert(p - 1, (index, merge_fragment(empty_partial(), f)))
                =~= es.insert(p, (index, merge_fragment(empty_partial(), f))));
        }
    }
}

proof fn lemma_feed_keys(es: Seq<(usize, PartialCallView)>, index: usize, f: FragmentView)
    requires
        sorted_entries(es),
    ensures
        forall|k: int|
            0 <= k < feed_entries(es, index, f).len() ==> (#[trigger] feed_entries(es, index, f)[k]).0
                == index || exists|j: int| 0 <= j < es.len() && es[j].0 == feed_entries(es, index, f)[k].0,
        feed_entries(es, index, f).len() > 0,
        feed_entries(es, index, f)[0].0 == index || (es.len() > 0 && feed_entries(es, index, f)[0].0
            == es[0].0),
    decreases es.len(),
{
    let r = feed_entries(es, index, f);
    if es.len() == 0 {
    } else if es[0].0 == index {
        assert forall|k: int| 0 <= k < r.len() implies (#[trigger] r[k]).0 == index || exists|
            j: int,
        | 0 <= j < es.len() && es[j].0 == r[k].0 by {
            if k > 0 {
                assert(r[k] == es[k]);
            }
        }
    } else if index < es[0].0 {
        assert forall|k: int| 0 <= k < r.len() implies (#[trigger] r[k]).0 == index || exists|
            j: int,
        | 0 <= j < es.len() && es[j].0 == r[k].0 by {
            if k > 0 {
                assert(r[k] == es[k - 1]);
            }
        }
    } else {
        let rest = es.drop_first();
        assert(sorted_entries(rest)) by {
            assert forall|i: int, j: int| 0 <= i < j < rest.len() implies rest[i].0 < rest[j].0 by {
                assert(rest[i] == es[i + 1] && rest[j] == es[j + 1]);
            }
        }
        lemma_feed_keys(rest, index, f);
        let t = feed_entries(rest, index, f);
        assert forall|k: int| 0 <= k < r.len() implies (#[trigger] r[k]).0 == index || exists|
            j: int,
        | 0 <= j < es.len() && es[j].0 == r[k].0 by {
            if k == 0 {
                assert(es[0].0 == r[0].0);
            } else {
                assert(r[k] == t[k - 1]);
                if t[k - 1].0 != index {
                    let j = choose|j: int| 0 <= j < rest.len() && rest[j].0 == t[k - 1].0;
                    assert(es[j + 1] == rest[j]);
                }
            }
        }
    }
}

/// Feeding keeps the entries sorted.
proof fn lemma_feed_sorted(es: Seq<(usize, PartialCallView)>, index: usize, f: FragmentView)
    requires
        sorted_entries(es),
    ensures
        sorted_entries(feed_entries(es, index, f)),
    decreases es.len(),
{
    let r = feed_entries(es, index, f);
    if es.len() == 0 {
    } else if es[0].0 == index {
        assert forall|i: int, j: int| 0 <= i < j < r.len() implies r[i].0 < r[j].0 by {
            assert(r[j] == es[j]);
            if i > 0 {
                assert(r[i] == es[i]);
            }
        }
    } else if index < es[0].0 {
        assert forall|i: int, j: int| 0 <= i < j < r.len() implies r[i].0 < r[j].0 by {
            assert(r[j] == es[j - 1]);
            if i > 0 {
                assert(r[i] == es[i - 1]);
            } else if j - 1 > 0 {
                assert(es[0].0 < es[j - 1].0);
            }
        }
    } else {
        let rest = es.drop_first();
        assert(sorted_entries(rest)) by {
            assert forall|i: int, j: int| 0 <= i < j < rest.len() implies rest[i].0 < rest[j].0 by {
                assert(rest[i] == es[i + 1] && rest[j] == es[j + 1]);
            }
        }
        lemma_feed_sorted(rest, index, f);
        lemma_feed_keys(rest, index, f);
        let t = feed_entries(rest, index, f);
        assert forall|i: int, j: int| 0 <= i < j < r.len() implies r[i].0 < r[j].0 by {
            assert(r[j] == t[j - 1]);
            if i > 0 {
                assert(r[i] == t[i - 1]);
            } else {
                if t[j - 1].0 != index {
                    let m = choose|m: int| 0 <= m < rest.len() && rest[m].0 == t[j - 1].0;
                    assert(rest[m] == es[m + 1]);
                    assert(es[0].0 < es[m + 1].0);
                }
            }
        }
    }
}

proof fn lemma_sorted_rest(es: Seq<(usize, PartialCallView)>)
    requires
        sorted_entries(es),
        es.len() > 0,
    ensures
        sorted_entries(es.drop_first()),
{
    let rest = es.drop_first();
    assert forall|i: int, j: int| 0 <= i < j < rest.len() implies rest[i].0 < rest[j].0 by {
        assert(rest[i] == es[i + 1] && rest[j] == es[j + 1]);
    }
}

/// The keys of `entries_map` are exactly the indices of the entries, each with its call.
proof fn lemma_entries_map_index(es: Seq<(usize, PartialCallView)>)
    requires
        sorted_entries(es),
    ensures
        forall|j: int|
            0 <= j < es.len() ==> entries_map(es).contains_key((#[trigger] es[j]).0)
                && entries_map(es)[es[j].0] == es[j].1,
        forall|k: usize|
            #[trigger] entries_map(es).contains_key(k) ==> exists|j: int|
                0 <= j < es.len() && es[j].0 == k,
    decreases es.len(),
{
    if es.len() > 0 {
        let rest = es.drop_first();
        lemma_sorted_rest(es);
        lemma_entries_map_index(rest);
        assert forall|j: int|
            0 <= j < es.len() implies entries_map(es).contains_key((#[trigger] es[j]).0)
            && entries_map(es)[es[j].0] == es[j].1 by {
            if j > 0 {
                assert(es[j] == rest[j - 1]);
                assert(es[0].0 < es[j].0);
            }
        }
        assert forall|k: usize| #[trigger] entries_map(es).contains_key(k) implies exists|j: int|
            0 <= j < es.len() && es[j].0 == k by {
            if k != es[0].0 {
                assert(entries_map(rest).contains_key(k));
                let j = choose|j: int| 0 <= j < rest.len() && rest[j].0 == k;
                assert(es[j + 1] == rest[j]);
            }
        }
    }
}

/// The call that the entries hold at `index`, or a call of which nothing is known.
pub open spec fn call_at(m: Map<usize, PartialCallView>, index: usize) -> PartialCallView {
    if m.contains_key(index) {
        m[index]
    } else {
        empty_partial()
    }
}

proof fn lemma_feed_map(es: Seq<(usize, PartialCallView)>, index: usize, f: FragmentView)
    requires
        sorted_entries(es),
    ensures
        entries_map(feed_entries(es, index, f)) == entries_map(es).insert(
            index,
            merge_fragment(call_at(entries_map(es), index), f),
        ),
    decreases es.len(),
{
    let r = feed_entries(es, index, f);
    let m = entries_map(es);
    if es.len() == 0 {
        assert(r == seq![(index, merge_fragment(empty_partial(), f))]);
        assert(r.drop_first() =~= Seq::<(usize, PartialCallView)>::empty());
        assert(entries_map(r.drop_first()) == Map::<usize, PartialCallView>::empty());
        assert(m == Map::<usize, PartialCallView>::empty());
        assert(call_at(m, index) == empty_partial());
        assert(entries_map(r) =~= m.insert(index, merge_fragment(call_at(m, index), f)));
    } else {
        let rest = es.drop_first();
        lemma_sorted_rest(es);
        lemma_entries_map_index(es);
        lemma_entries_map_index(rest);
        if es[0].0 == index {
            assert(r.drop_first() =~= rest);
            assert(entries_map(r) =~= m.insert(index, merge_fragment(call_at(m, index), f)));
        } else if index < es[0].0 {
            assert(r.drop_first() =~= es);
            assert(!m.contains_key(index)) by {
                if m.contains_key(index) {
                    let j = choose|j: int| 0 <= j < es.len() && es[j].0 == index;
                    if j > 0 {
                        assert(es[0].0 < es[j].0);
                    }
                }
            }
            assert(entries_map(r) =~= m.insert(index, merge_fragment(call_at(m, index), f)));
        } else {
            let t = feed_entries(rest, index, f);
            lemma_feed_map(rest, index, f);
            assert(r.drop_first() =~= t);
            assert(call_at(entries_map(rest), index) == call_at(m, index));
            assert(entries_map(r) =~= m.insert(index, merge_fragment(call_at(m, index), f)));
        }
    }
}

proof fn lemma_map_without_first(es: Seq<(usize, PartialCallView)>)
    requires
        sorted_entries(es),
        es.len() > 0,
    ensures
        entries_map(es.drop_first()) == entries_map(es).remove(es[0].0),
{
    let rest = es.drop_first();
    lemma_sorted_rest(es);
    lemma_entries_map_index(rest);
    assert(!entries_map(rest).contains_key(es[0].0)) by {
        if entries_map(rest).contains_key(es[0].0) {
            let j = choose|j: int| 0 <= j < rest.len() && rest[j].0 == es[0].0;
            assert(rest[j] == es[j + 1]);
        }
    }
    assert(entries_map(rest) =~= entries_map(es).remove(es[0].0));
}

/// Sorted entries are determined by the calls they hold at each index.
proof fn lemma_entries_determined(a: Seq<(usize, PartialCallView)>, b: Seq<(usize, PartialCallView)>)
    requires
        sorted_entries(a),
        sorted_entries(b),
        entries_map(a) == entries_map(b),
    ensures
        a == b,
    decreases a.len() + b.len(),
{
    lemma_entries_map_index(a);
    lemma_entries_map_index(b);
    if a.len() == 0 || b.len() == 0 {
        if a.len() > 0 {
            assert(entries_map(b).contains_key(a[0].0));
        }
        if b.len() > 0 {
            assert(entries_map(a).contains_key(b[0].0));
        }
        assert(a =~= b);
    } else {
        let ja = choose|j: int| 0 <= j < b.len() && b[j].0 == a[0].0;
        let jb = choose|j: int| 0 <= j < a.len() && a[j].0 == b[0].0;
        if ja > 0 {
            assert(b[0].0 < b[ja].0);
        }
        if jb > 0 {
            assert(a[0].0 < a[jb].0);
        }
        assert(a[0].0 == b[0].0);
        assert(a[0] == b[0]);
        lemma_map_without_first(a);
        lemma_map_without_first(b);
        lemma_sorted_rest(a);
        lemma_sorted_rest(b);
        lemma_entries_determined(a.drop_first(), b.drop_first());
        assert(a =~= seq![a[0]] + a.drop_first());
        assert(b =~= seq![b[0]] + b.drop_first());
    }
}

/// The fragment whose effect is that of `f1` followed by `f2`.
pub open spec fn combine_fragments(f1: FragmentView, f2: FragmentView) -> FragmentView {
    FragmentView {
        id: match f2.id {
            Some(i) => Some(i),
            None => f1.id,
        },
        name: match f2.name {
            Some(n) => Some(n),
            None => f1.name,
        },
        arguments: match (f1.arguments, f2.arguments) {
            (Some(a), Some(b)) => Some(a + b),
            (Some(a), None) => Some(a),
            (None, b) => b,
        },
    }
}

/// The text of an optional fragment part; nothing when it is absent.
pub open spec fn part_text(p: Option<Seq<char>>) -> Seq<char> {
    match p {
        Some(t) => t,
        None => Seq::empty(),
    }
}

/// Law: a fragment of the call at `index` appends its argument text to the call's arguments
/// and replaces the call's id and name when it gives them; a call seen for the first time
/// starts with no id, name or arguments; every other call stays as it was.
pub proof fn law_fragment_updates_its_call(es: Seq<(usize, PartialCallView)>, index: usize, f: FragmentView)
    requires
        sorted_entries(es),
    ensures
        ({
            let before = entries_map(es);
            let after = entries_map(feed_entries(es, index, f));
            &&& after.contains_key(index)
            &&& before.contains_key(index) ==> {
                &&& after[index].arguments == before[index].arguments + part_text(f.arguments)
                &&& after[index].id == (if f.id is Some { f.id->0 } else { before[index].id })
                &&& after[index].name == (if f.name is Some { f.name->0 } else { before[index].name })
            }
            &&& !before.contains_key(index) ==> {
                &&& after[index].arguments == part_text(f.arguments)
                &&& after[index].id == part_text(f.id)
                &&& after[index].name == part_text(f.name)
            }
            &&& forall|k: usize|
                k != index ==> (#[trigger] after.contains_key(k) <==> before.contains_key(k)) && (
                before.contains_key(k) ==> after[k] == before[k])
        }),
{
    lemma_feed_map(es, index, f);
    let before = entries_map(es);
    let p = call_at(before, index);
    match f.arguments {
        Some(a) => {},
        None => {
            assert(p.arguments + Seq::<char>::empty() =~= p.arguments);
        },
    }
    if !before.contains_key(index) {
        match f.arguments {
            Some(a) => {
                assert(Seq::<char>::empty() + a =~= a);
            },
            None => {},
        }
    }
}

/// Law: two fragments of one call have the effect of one fragment that carries the
/// later id and name and the two argument texts one after the other, so a call's
/// arguments are the concatenation of its argument fragments in arrival order.
pub proof fn law_fragments_of_one_call_concatenate(
    es: Seq<(usize, PartialCallView)>,
    index: usize,
    f1: FragmentView,
    f2: FragmentView,
)
    requires
        sorted_entries(es),
    ensures
        feed_entries(feed_entries(es, index, f1), index, f2) == feed_entries(
            es,
            index,
            combine_fragments(f1, f2),
        ),
{
    let once = feed_entries(es, index, f1);
    lemma_feed_sorted(es, index, f1);
    lemma_feed_sorted(once, index, f2);
    lemma_feed_sorted(es, index, combine_fragments(f1, f2));
    lemma_feed_map(es, index, f1);
    lemma_feed_map(once, index, f2);
    lemma_feed_map(es, index, combine_fragments(f1, f2));
    let p = call_at(entries_map(es), index);
    let a = p.arguments;
    assert(merge_fragment(merge_fragment(p, f1), f2) == merge_fragment(p, combine_fragments(f1, f2))) by {
        match (f1.arguments, f2.arguments) {
            (Some(x), Some(y)) => {
                assert(a + x + y =~= a + (x + y));
            },
            _ => {},
        }
    }
    assert(entries_map(feed_entries(once, index, f2)) =~= entries_map(
        feed_entries(es, index, combine_fragments(f1, f2)),
    ));
    lemma_entries_determined(
        feed_entries(once, index, f2),
        feed_entries(es, index, combine_fragments(f1, f2)),
    );
}

/// Law: fragments of different calls may arrive interleaved in any order: feeding them
/// in either order gives the same entries.
pub proof fn law_fragments_of_different_calls_commute(
    es: Seq<(usize, PartialCallView)>,
    i: usize,
    fi: FragmentView,
    j: usize,
    fj: FragmentView,
)
    requires
        sorted_entries(es),
        i != j,
    ensures
        feed_entries(feed_entries(es, i, fi), j, fj) == feed_entries(feed_entries(es, j, fj), i, fi),
{
    let a = feed_entries(es, i, fi);
    let b = feed_entries(es, j, fj);
    lemma_feed_sorted(es, i, fi);
    lemma_feed_sorted(es, j, fj);
    lemma_feed_sorted(a, j, fj);
    lemma_feed_sorted(b, i, fi);
    lemma_feed_map(es, i, fi);
    lemma_feed_map(es, j, fj);
    lemma_feed_map(a, j, fj);
    lemma_feed_map(b, i, fi);
    assert(entries_map(feed_entries(a, j, fj)) =~= entries_map(feed_entries(b, i, fi)));
    lemma_entries_determined(feed_entries(a, j, fj), feed_entries(b, i, fi));
}

} // verus!
