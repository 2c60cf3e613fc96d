//! The conversation engine: decides, round by round, whether to send a request,
//! run a requested tool, or stop with an answer or an exhausted budget.
use vstd::prelude::*;
use crate::conversation::{answers, calls_of, history_wf, Conversation, ConversationHistory, Role, ToolCall};

verus! {

/// The largest number of request/response rounds of one run.
pub const MAX_ROUNDS: usize = 40;

/// Where the engine stands between two events.
#[derive(Debug, Clone, Copy, PartialEq, Eq, Structural)]
pub enum Phase {
    /// Waiting to send the next request (or out of rounds).
    Ready,
    /// Running the tool calls of the last assistant message, one by one.
    RunningTools,
    /// A plain reply ended the run.
    Finished,
}

/// What the driver of the engine must do next.
#[derive(Debug, Clone, Copy, PartialEq, Eq, Structural)]
pub enum Step {
    /// Send the history and the tool specs, then hand the reply to `receive`.
    Request,
    /// Execute `pending_call`, then hand its content to `record_tool_result`.
    RunTool,
    /// The run ended with the reply's text.
    Finished,
    /// The round budget ran out without a plain reply.
    Exhausted,
}

/// The engine's state as plain values.
pub struct AgentModel {
    pub history: Seq<Conversation>,
    pub rounds: nat,
    pub max_rounds: nat,
    pub phase: Phase,
    /// Index of the assistant message whose calls are being run.
    pub anchor: int,
    /// How many of those calls have their result recorded.
    pub next_call: nat,
}

/// The engine's invariant.
pub open spec fn model_wf(m: AgentModel) -> bool {
    &&& history_wf(m.history)
    &&& m.rounds <= m.max_rounds
    &&& m.phase == Phase::RunningTools ==> {
        &&& 0 <= m.anchor < m.history.len()
        &&& m.history[m.anchor].role == Role::Assistant
        &&& m.history.len() == m.anchor + 1 + m.next_call
        &&& m.next_call < calls_of(m.history[m.anchor]).len()
        &&& forall|k: int| m.anchor < k < m.history.len() ==> (#[trigger] m.history[k]).role == Role::Tool
    }
}

/// The step the engine asks for in state `m`.
pub open spec fn step_of(m: AgentModel) -> Step {
    match m.phase {
        Phase::RunningTools => Step::RunTool,
        Phase::Finished => Step::Finished,
        Phase::Ready => if m.rounds < m.max_rounds {
            Step::Request
        } else {
            Step::Exhausted
        },
    }
}

/// The assistant message that a reply with `content` and `calls` becomes.
pub open spec fn assistant_message(content: Option<String>, calls: Vec<ToolCall>) -> Conversation {
    Conversation {
        role: Role::Assistant,
        tool_call_id: None,
        content,
        tool_calls: if calls@.len() > 0 { Some(calls) } else { None },
    }
}

/// Appending an assistant message keeps a history well formed.
proof fn lemma_push_assistant(h0: Seq<Conversation>, m: Conversation)
    requires
        history_wf(h0),
        m.role == Role::Assistant,
    ensures
        history_wf(h0.push(m)),
{
    let h = h0.push(m);
    assert forall|i: int| 0 <= i < h.len() && (#[trigger] h[i]).role == Role::Tool implies exists|j: int| answers(h, i, j) by {
        assert(h[i] == h0[i]);
        let j = choose|j: int| answers(h0, i, j);
        assert forall|k: int| j < k < i implies (#[trigger] h[k]).role == Role::Tool by {
            assert(h[k] == h0[k]);
        }
        assert(h[j] == h0[j]);
        assert(answers(h, i, j));
    }
    assert forall|i: int| 1 <= i < h.len() implies (#[trigger] h[i]).role != Role::User by {
        if i < h0.len() { assert(h[i] == h0[i]); }
    }
}

/// One run of the request / tool-execution loop.
pub struct Agent {
    history: ConversationHistory,
    rounds: usize,
    max_rounds: usize,
    phase: Phase,
    anchor: usize,
    next_call: usize,
}

impl View for Agent {
    type V = AgentModel;

    closed spec fn view(&self) -> AgentModel {
        AgentModel {
            history: self.history@,
            rounds: self.rounds as nat,
            max_rounds: self.max_rounds as nat,
            phase: self.phase,
            anchor: self.anchor as int,
            next_call: self.next_call as nat,
        }
    }
}

impl Agent {
    pub open spec fn wf(&self) -> bool {
        model_wf(self@)
    }

    /// A run that starts from the user's prompt with a budget of `max_rounds`.
    pub fn new(prompt: String, max_rounds: usize) -> (r: Agent)
        ensures
            r.wf(),
            r@.history.len() == 1,
            r@.history[0].role == Role::User,
            r@.history[0].content == Some(prompt),
            r@.history[0].tool_call_id is None,
            r@.history[0].tool_calls is None,
            r@.rounds == 0,
            r@.max_rounds == max_rounds,
            r@.phase == Phase::Ready,
    {
        Agent {
            history: ConversationHistory::new(prompt),
            rounds: 0,
            max_rounds,
            phase: Phase::Ready,
            anchor: 0,
            next_call: 0,
        }
    }

    /// The messages so far, to be sent with the next request.
    pub fn history(&self) -> (r: &ConversationHistory)
        ensures
            r@ == self@.history,
    {
        &self.history
    }

    pub fn rounds(&self) -> (r: usize)
        ensures
            r == self@.rounds,
    {
        self.rounds
    }

    /// What the driver must do next.
    pub fn next_step(&self) -> (r: Step)
        ensures
            r == step_of(self@),
    {
        match self.phase {
            Phase::RunningTools => Step::RunTool,
            Phase::Finished => Step::Finished,
            Phase::Ready => if self.rounds < self.max_rounds {
                Step::Request
            } else {
                Step::Exhausted
            },
        }
    }

    /// Takes the service's reply to the request just sent. The reply is
    /// appended as an assistant message; if it asks for tools, they are run
    /// next, in the order given, else the run ends and its text is returned
    /// unchanged.
    pub fn receive(&mut self, content: Option<String>, tool_calls: Vec<ToolCall>) -> (r: Option<String>)
        requires
            old(self).wf(),
            step_of(old(self)@) == Step::Request,
        ensures
            final(self).wf(),
            final(self)@.rounds == old(self)@.rounds + 1,
            final(self)@.max_rounds == old(self)@.max_rounds,
            final(self)@.history == old(self)@.history.push(assistant_message(content, tool_calls)),
            tool_calls@.len() > 0 ==> final(self)@.phase == Phase::RunningTools && r is None
                && final(self)@.anchor == old(self)@.history.len() && final(self)@.next_call == 0,
            tool_calls@.len() == 0 ==> final(self)@.phase == Phase::Finished && r == content,
    {
        let ghost h0 = self.history@;
        let n = self.history.len();
        self.rounds = self.rounds + 1;
        if tool_calls.len() > 0 {
            let msg = Conversation { role: Role::Assistant, tool_call_id: None, content, tool_calls: Some(tool_calls) };
            let ghost msg_v = msg;
            self.history.add_response(msg);
            self.phase = Phase::RunningTools;
            self.anchor = n;
            self.next_call = 0;
            proof { lemma_push_assistant(h0, msg_v); }
            None
        } else {
            let answer = match &content {
                Some(s) => Some(s.clone()),
                None => None,
            };
            let msg = Conversation { role: Role::Assistant, tool_call_id: None, content, tool_calls: None };
            let ghost msg_v = msg;
            self.history.add_response(msg);
            self.phase = Phase::Finished;
            proof { lemma_push_assistant(h0, msg_v); }
            answer
        }
    }

    /// The tool call to execute now.
    pub fn pending_call(&self) -> (r: &ToolCall)
        requires
            self.wf(),
            step_of(self@) == Step::RunTool,
        ensures
            *r == calls_of(self@.history[self@.anchor])[self@.next_call as int],
    {
        let m = &self.history.0[self.anchor];
        let calls = m.tool_calls.as_ref().unwrap();
        &calls[self.next_call]
    }

    /// Records the result of the pending call as a tool message carrying the
    /// call's id; after the last call of the round the next request is due.
    pub fn record_tool_result(&mut self, content: String)
        requires
            old(self).wf(),
            step_of(old(self)@) == Step::RunTool,
        ensures
            final(self).wf(),
            final(self)@.rounds == old(self)@.rounds,
            final(self)@.max_rounds == old(self)@.max_rounds,
            final(self)@.anchor == old(self)@.anchor,
            final(self)@.history.len() == old(self)@.history.len() + 1,
            final(self)@.history.subrange(0, old(self)@.history.len() as int) == old(self)@.history,
            final(self)@.history.last().role == Role::Tool,
            final(self)@.history.last().content == Some(content),
            final(self)@.history.last().tool_calls is None,
            final(self)@.history.last().tool_call_id is Some,
            final(self)@.history.last().tool_call_id->Some_0@
                == calls_of(old(self)@.history[old(self)@.anchor])[old(self)@.next_call as int].id@,
            old(self)@.next_call + 1 < calls_of(old(self)@.history[old(self)@.anchor]).len() ==> final(self)@.phase
                == Phase::RunningTools && final(self)@.next_call == old(self)@.next_call + 1,
            old(self)@.next_call + 1 == calls_of(old(self)@.history[old(self)@.anchor]).len() ==> final(self)@.phase
                == Phase::Ready,
    {
        let ghost h0 = self.history@;
        let id = self.pending_call().id.clone();
        let ncalls = self.history.0[self.anchor].tool_calls.as_ref().unwrap().len();
        let msg = Conversation { role: Role::Tool, tool_call_id: Some(id), content: Some(content), tool_calls: None };
        self.history.add_response(msg);
        self.next_call = self.next_call + 1;
        if self.next_call == ncalls {
            self.phase = Phase::Ready;
        }
        proof {
            let h = self@.history;
            let a = self.anchor as int;
            assert(h[a] == h0[a]);
            assert forall|i: int| 0 <= i < h.len() && (#[trigger] h[i]).role == Role::Tool implies exists|j: int| answers(h, i, j) by {
                if i == h0.len() {
                    assert forall|k: int| a < k < i implies (#[trigger] h[k]).role == Role::Tool by {
                        assert(h[k] == h0[k]);
                    }
                    assert(answers(h, i, a));
                } else {
                    assert(h[i] == h0[i]);
                    let j = choose|j: int| answers(h0, i, j);
                    assert forall|k: int| j < k < i implies (#[trigger] h[k]).role == Role::Tool by {
                        assert(h[k] == h0[k]);
                    }
                    assert(h[j] == h0[j]);
                    assert(answers(h, i, j));
                }
            }
            assert forall|i: int| 1 <= i < h.len() implies (#[trigger] h[i]).role != Role::User by {
                if i < h0.len() { assert(h[i] == h0[i]); }
            }
            assert forall|k: int| a < k < h.len() implies (#[trigger] h[k]).role == Role::Tool by {
                if k < h0.len() { assert(h[k] == h0[k]); }
            }
        }
    }
}

/// Whether the tool call at position `k` of message `j` exists.
pub open spec fn is_call_at(h: Seq<Conversation>, j: int, k: int) -> bool {
    0 <= j < h.len() && 0 <= k < calls_of(h[j]).len()
}

/// No two tool calls of the history share an id.
pub open spec fn call_ids_distinct(h: Seq<Conversation>) -> bool {
    forall|j1: int, k1: int, j2: int, k2: int|
        is_call_at(h, j1, k1) && is_call_at(h, j2, k2) && (j1 != j2 || k1 != k2) ==> calls_of(h[j1])[k1].id@
            != calls_of(h[j2])[k2].id@
}

/// Every tool message of a run carries the id of a tool call made by an
/// earlier assistant message.
pub proof fn lemma_tool_ids_refer(a: Agent)
    requires
        a.wf(),
    ensures
        forall|i: int|
            0 <= i < a@.history.len() && (#[trigger] a@.history[i]).role == Role::Tool ==> {
                &&& a@.history[i].tool_call_id is Some
                &&& exists|j: int, k: int|
                    j < i && is_call_at(a@.history, j, k) && a@.history[i].tool_call_id->Some_0@
                        == calls_of(a@.history[j])[k].id@
            },
{
    let h = a@.history;
    assert forall|i: int| 0 <= i < h.len() && (#[trigger] h[i]).role == Role::Tool implies {
        &&& h[i].tool_call_id is Some
        &&& exists|j: int, k: int| j < i && is_call_at(h, j, k) && h[i].tool_call_id->Some_0@ == calls_of(h[j])[k].id@
    } by {
        let j = choose|j: int| answers(h, i, j);
        assert(is_call_at(h, j, i - j - 1));
    }
}

/// When the tool calls of a run have distinct ids, every tool message matches
/// exactly one preceding tool call.
pub proof fn lemma_tool_ids_refer_uniquely(a: Agent)
    requires
        a.wf(),
        call_ids_distinct(a@.history),
    ensures
        forall|i: int|
            0 <= i < a@.history.len() && (#[trigger] a@.history[i]).role == Role::Tool ==> exists|j: int, k: int|
                {
                    &&& j < i
                    &&& is_call_at(a@.history, j, k)
                    &&& a@.history[i].tool_call_id is Some
                    &&& a@.history[i].tool_call_id->Some_0@ == calls_of(a@.history[j])[k].id@
                    &&& forall|j2: int, k2: int|
                        j2 < i && is_call_at(a@.history, j2, k2) && a@.history[i].tool_call_id->Some_0@
                            == calls_of(a@.history[j2])[k2].id@ ==> j2 == j && k2 == k
                },
{
    let h = a@.history;
    assert forall|i: int| 0 <= i < h.len() && (#[trigger] h[i]).role == Role::Tool implies exists|j: int, k: int|
        {
            &&& j < i
            &&& is_call_at(h, j, k)
            &&& h[i].tool_call_id is Some
            &&& h[i].tool_call_id->Some_0@ == calls_of(h[j])[k].id@
            &&& forall|j2: int, k2: int|
                j2 < i && is_call_at(h, j2, k2) && h[i].tool_call_id->Some_0@ == calls_of(h[j2])[k2].id@ ==> j2 == j
                    && k2 == k
        } by {
        let j = choose|j: int| answers(h, i, j);
        let k = i - j - 1;
        assert(is_call_at(h, j, k));
    }
}

/// In a well-formed history whose tool calls have distinct ids, every tool
/// message carries the id of exactly one preceding tool call.
pub proof fn lemma_history_ids_refer_uniquely(h: ConversationHistory)
    requires
        history_wf(h@),
        call_ids_distinct(h@),
    ensures
        forall|i: int|
            0 <= i < h@.len() && (#[trigger] h@[i]).role == Role::Tool ==> exists|j: int, k: int|
                {
                    &&& j < i
                    &&& is_call_at(h@, j, k)
                    &&& h@[i].tool_call_id is Some
                    &&& h@[i].tool_call_id->Some_0@ == calls_of(h@[j])[k].id@
                    &&& forall|j2: int, k2: int|
                        j2 < i && is_call_at(h@, j2, k2) && h@[i].tool_call_id->Some_0@
                            == calls_of(h@[j2])[k2].id@ ==> j2 == j && k2 == k
                },
{
    let s = h@;
    assert forall|i: int| 0 <= i < s.len() && (#[trigger] s[i]).role == Role::Tool implies exists|j: int, k: int|
        {
            &&& j < i
            &&& is_call_at(s, j, k)
            &&& s[i].tool_call_id is Some
            &&& s[i].tool_call_id->Some_0@ == calls_of(s[j])[k].id@
            &&& forall|j2: int, k2: int|
                j2 < i && is_call_at(s, j2, k2) && s[i].tool_call_id->Some_0@ == calls_of(s[j2])[k2].id@ ==> j2 == j
                    && k2 == k
        } by {
        let j = choose|j: int| answers(s, i, j);
        assert(is_call_at(s, j, i - j - 1));
    }
}

/// The round count never exceeds the budget, and once the budget is spent no
/// further request is asked for.
pub proof fn lemma_round_budget(a: Agent)
    requires
        a.wf(),
    ensures
        a@.rounds <= a@.max_rounds,
        a@.rounds == a@.max_rounds ==> step_of(a@) != Step::Request,
        a@.rounds == a@.max_rounds && a@.phase == Phase::Ready ==> step_of(a@) == Step::Exhausted,
{
}

} // verus!
