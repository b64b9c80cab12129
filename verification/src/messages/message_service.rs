//! Sending messages and reading streamed answers.
use vstd::prelude::*;
use vstd::string::*;
use crate::error::{AppError, validation};
use crate::id_set::IdSet;
use crate::messages::messages_db::Message;

verus! {

/// A message as the API shows it.
#[derive(Debug)]
pub struct MessageResponse {
    pub id: u128,
    pub session_id: u128,
    pub role: String,
    pub content: String,
}

/// One event of a streamed answer, as the client receives it.
#[derive(Debug)]
pub enum SseEvent {
    Token { delta: String },
    ToolCall { id: String, name: String, arguments: String },
    ToolResult { id: String, result: String },
    Done { message_id: u128 },
    Error { message: String },
}

/// The characters of an event.
pub enum EventView {
    Token(Seq<char>),
    ToolCall(Seq<char>, Seq<char>, Seq<char>),
    ToolResult(Seq<char>, Seq<char>),
    Done(u128),
    Error(Seq<char>),
}

impl SseEvent {
    pub open spec fn view(&self) -> EventView {
        match self {
            SseEvent::Token { delta } => EventView::Token(delta@),
            SseEvent::ToolCall { id, name, arguments } => EventView::ToolCall(id@, name@, arguments@),
            SseEvent::ToolResult { id, result } => EventView::ToolResult(id@, result@),
            SseEvent::Done { message_id } => EventView::Done(*message_id),
            SseEvent::Error { message } => EventView::Error(message@),
        }
    }
}

/// Law: the view of an event holds exactly the text of each of its fields, in order.
pub proof fn law_event_view_holds_its_fields(e: SseEvent)
    ensures
        e matches SseEvent::Token { delta } ==> e.view() == EventView::Token(delta@),
        e matches SseEvent::ToolCall { id, name, arguments } ==> e.view() == EventView::ToolCall(
            id@,
            name@,
            arguments@,
        ),
        e matches SseEvent::ToolResult { id, result } ==> e.view() == EventView::ToolResult(id@, result@),
        e matches SseEvent::Done { message_id } ==> e.view() == EventView::Done(message_id),
        e matches SseEvent::Error { message } ==> e.view() == EventView::Error(message@),
{
}

/// The answer shown for a stored message.
pub fn to_response(m: Message) -> (r: MessageResponse)
    ensures
        r.id == m.id,
        r.session_id == m.session_id,
        r.role@ == m.role@,
        r.content@ == m.content@,
{
    MessageResponse { id: m.id, session_id: m.session_id, role: m.role, content: m.content }
}

/// Checks a message to send: its content is required, then its role.
pub fn validate_new_message(role: &str, content: &str) -> (r: Result<(), AppError>)
    ensures
        content@.len() == 0 ==> (r matches Err(AppError::Validation(m)) && m@ == "Content is required"@),
        content@.len() > 0 && role@.len() == 0 ==> (r matches Err(AppError::Validation(m)) && m@
            == "Role is required"@),
        content@.len() > 0 && role@.len() > 0 ==> r is Ok,
{
    if content.is_empty() {
        return Err(validation("Content is required"));
    }
    if role.is_empty() {
        return Err(validation("Role is required"));
    }
    Ok(())
}

/// The event sent when another answer is already streaming for the session.
pub fn session_busy_event() -> (e: SseEvent)
    ensures
        e.view() == EventView::Error("another stream is already active for this session"@),
{
    SseEvent::Error { message: String::from_str("another stream is already active for this session") }
}

/// Collects the text of a streamed answer, for clients that want the whole answer at once.
#[derive(Debug)]
pub struct TextCollector {
    text: String,
}

impl TextCollector {
    /// The text collected so far.
    pub closed spec fn text(&self) -> Seq<char> {
        self.text@
    }

    /// A collector with no text.
    pub fn new() -> (r: Self)
        ensures
            r.text() == Seq::<char>::empty(),
    {
        TextCollector { text: String::new() }
    }

    /// Takes one event: a token adds its text; `Done` ends with the text collected; an error
    /// ends with an internal error that carries its message; tool events are passed over.
    pub fn on_event(&mut self, event: SseEvent) -> (r: Option<Result<String, AppError>>)
        ensures
            match event.view() {
                EventView::Token(d) => r is None && final(self).text() == old(self).text() + d,
                EventView::Done(_) => (r matches Some(Ok(t)) && t@ == old(self).text()),
                EventView::Error(m) => (r matches Some(Err(AppError::Internal(x))) && x@ == m),
                _ => r is None && final(self).text() == old(self).text(),
            },
    {
        match event {
            SseEvent::Token { delta } => {
                self.text.append(delta.as_str());
                None
            },
            SseEvent::Done { .. } => Some(Ok(self.text.clone())),
            SseEvent::Error { message } => Some(Err(AppError::Internal(message))),
            SseEvent::ToolCall { .. } => None,
            SseEvent::ToolResult { .. } => None,
        }
    }

    /// The text collected when the stream ends without `Done`.
    pub fn finish(self) -> (r: String)
        ensures
            r@ == self.text(),
    {
        self.text
    }
}

/// Whether a response shows exactly the stored message.
pub open spec fn shows_message(r: MessageResponse, m: Message) -> bool {
    &&& r.id == m.id
    &&& r.session_id == m.session_id
    &&& r.role@ == m.role@
    &&& r.content@ == m.content@
}

/// Law: a response shows a stored message when its id, session, role and content hold what
/// the message holds.
pub proof fn law_message_shown_field_by_field(r: MessageResponse, m: Message)
    ensures
        shows_message(r, m) <==> (r.id == m.id && r.session_id == m.session_id && r.role@ == m.role@
            && r.content@ == m.content@),
{
}

/// Stored messages as the API lists them, in the same order.
pub fn message_responses(messages: Vec<Message>) -> (r: Vec<MessageResponse>)
    ensures
        r@.len() == messages@.len(),
        forall|i: int| 0 <= i < messages@.len() ==> shows_message(#[trigger] r@[i], messages@[i]),
{
    let mut out: Vec<MessageResponse> = Vec::new();
    let mut rest = messages;
    let ghost all = messages@;
    while rest.len() > 0
        invariant
            out@.len() + rest@.len() == all.len(),
            rest@ == all.subrange(out@.len() as int, all.len() as int),
            forall|i: int| 0 <= i < out@.len() ==> shows_message(#[trigger] out@[i], all[i]),
        decreases rest@.len(),
    {
        let m = rest.remove(0);
        out.push(to_response(m));
    }
    out
}

/// The sessions that have an answer streaming: at most one stream runs per session.
#[derive(Debug)]
pub struct SessionGuards {
    busy: IdSet,
}

impl SessionGuards {
    /// The sessions whose answer is streaming.
    pub closed spec fn view(&self) -> Set<u128> {
        self.busy@
    }

    /// No session is streaming.
    pub fn new() -> (r: Self)
        ensures
            r@ == Set::<u128>::empty(),
    {
        SessionGuards { busy: IdSet::new() }
    }

    /// Claims the session for a new stream: refused while another stream of it runs.
    pub fn try_acquire(&mut self, session_id: u128) -> (ok: bool)
        ensures
            ok == !old(self)@.contains(session_id),
            final(self)@ == old(self)@.insert(session_id),
    {
        self.busy.insert(session_id)
    }

    /// The session's stream has ended: another may start.
    pub fn release(&mut self, session_id: u128)
        ensures
            final(self)@ == old(self)@.remove(session_id),
    {
        self.busy.remove(session_id);
    }
}

/// Law: while a session's answer streams, a second stream of it is refused; once it ends,
/// the next is allowed.
pub proof fn law_one_stream_per_session(busy: Set<u128>, session_id: u128)
    ensures
        busy.insert(session_id).contains(session_id),
        !busy.insert(session_id).remove(session_id).contains(session_id),
{
}

} // verus!
