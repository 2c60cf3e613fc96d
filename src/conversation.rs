//! Messages of a conversation and the shape of a well-formed history.
use vstd::prelude::*;
use crate::tools::FunctionCall;

verus! {

/// Who speaks a message.
#[derive(Debug, Clone, Copy, PartialEq, Eq, Structural)]
pub enum Role {
    User,
    Assistant,
    Tool,
}

/// A tool invocation requested by the assistant, with its correlation id.
#[derive(Debug, Clone)]
pub struct ToolCall {
    pub id: String,
    pub tool_type: String,
    pub function: FunctionCall,
}

/// One turn of the conversation.
#[derive(Debug, Clone)]
pub struct Conversation {
    pub role: Role,
    pub tool_call_id: Option<String>,
    pub content: Option<String>,
    pub tool_calls: Option<Vec<ToolCall>>,
}

/// The ordered, append-only sequence of messages of one run.
#[derive(Debug, Clone)]
pub struct ConversationHistory(pub Vec<Conversation>);

/// The tool calls a message carries (none when it carries no list).
pub open spec fn calls_of(m: Conversation) -> Seq<ToolCall> {
    match m.tool_calls {
        Some(v) => v@,
        None => Seq::empty(),
    }
}

/// The message at `i` is a tool result for the call at position `i - j - 1`
/// of the assistant message at `j`, with only tool results in between.
pub open spec fn answers(h: Seq<Conversation>, i: int, j: int) -> bool {
    &&& 0 <= j < i < h.len()
    &&& h[j].role == Role::Assistant
    &&& forall|k: int| j < k < i ==> (#[trigger] h[k]).role == Role::Tool
    &&& i - j - 1 < calls_of(h[j]).len()
    &&& h[i].tool_call_id is Some
    &&& h[i].tool_call_id->Some_0@ == calls_of(h[j])[i - j - 1].id@
}

/// A history starts with the user's prompt, holds no other user message, and
/// each tool result answers, in order, a call of the assistant message that
/// opens its block.
pub open spec fn history_wf(h: Seq<Conversation>) -> bool {
    &&& h.len() >= 1
    &&& h[0].role == Role::User
    &&& forall|i: int| 1 <= i < h.len() ==> (#[trigger] h[i]).role != Role::User
    &&& forall|i: int|
        0 <= i < h.len() && (#[trigger] h[i]).role == Role::Tool ==> exists|j: int| answers(h, i, j)
}

impl View for ConversationHistory {
    type V = Seq<Conversation>;

    open spec fn view(&self) -> Seq<Conversation> {
        self.0@
    }
}

impl ConversationHistory {
    /// A history holding only the user's prompt.
    pub fn new(prompt: String) -> (r: ConversationHistory)
        ensures
            r@.len() == 1,
            r@[0].role == Role::User,
            r@[0].content == Some(prompt),
            r@[0].tool_call_id is None,
            r@[0].tool_calls is None,
            history_wf(r@),
    {
        let mut v: Vec<Conversation> = Vec::new();
        v.push(Conversation { role: Role::User, tool_call_id: None, content: Some(prompt), tool_calls: None });
        ConversationHistory(v)
    }

    /// Appends a message at the end.
    pub fn add_response(&mut self, conv: Conversation)
        ensures
            final(self)@ == old(self)@.push(conv),
    {
        self.0.push(conv);
    }

    pub fn len(&self) -> (r: usize)
        ensures
            r == self@.len(),
    {
        self.0.len()
    }
}

} // verus!
