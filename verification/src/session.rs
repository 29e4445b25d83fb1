//! The decisions of a conversation in which the model may call tools: after
//! each response the session either asks for tool calls to be run, sends the
//! conversation again, answers, or gives up. The caller performs the requests
//! and runs the tools, and hands each outcome back.
use vstd::prelude::*;

use crate::client::{
    answer, answer_of, assistant_message, calls_view, copy_call, copy_calls, copy_messages,
    messages_view, opening, opening_messages, tool_result_message, ChatMessage, ChatRequest,
    ChatResponse, MessageView, ReplyError, ToolCall, ToolCallView,
};

verus! {

/// The most requests that one session sends.
pub const MAX_TURNS: usize = 4;

/// What the session waits for.
#[derive(Debug, PartialEq, Eq, Structural, Clone, Copy)]
pub enum Phase {
    /// The response to the request built by `request`.
    AwaitingResponse,
    /// The output of the tool call last handed out.
    AwaitingTool,
    /// Nothing: the session answered or gave up.
    Finished,
}

/// What the caller does next.
pub enum Step {
    /// Send `request()` and hand the response to `on_response`.
    Send,
    /// Run this tool call and hand its output to `on_tool_output`.
    RunTool(ToolCall),
    /// The answer; the session is over.
    Answer(String),
    /// No answer can be had; the session is over.
    Fail(ReplyError),
}

/// The state of a tool-using conversation.
pub struct ToolSession {
    model: String,
    messages: Vec<ChatMessage>,
    turns: usize,
    pending: Vec<ToolCall>,
    next_tool: usize,
    phase: Phase,
}

/// The view of a session.
pub struct SessionView {
    /// The model asked.
    pub model: Seq<char>,
    /// The conversation so far.
    pub messages: Seq<MessageView>,
    /// How many requests were handed out.
    pub turns: nat,
    /// The tool calls of the last response.
    pub pending: Seq<ToolCallView>,
    /// The index in `pending` of the call whose output is awaited.
    pub next_tool: nat,
    pub phase: Phase,
}

impl SessionView {
    /// The states that a session can be in.
    pub open spec fn wf(self) -> bool {
        &&& 1 <= self.turns <= MAX_TURNS
        &&& self.phase == Phase::AwaitingTool ==> self.next_tool < self.pending.len()
    }
}

impl View for ToolSession {
    type V = SessionView;

    closed spec fn view(&self) -> SessionView {
        SessionView {
            model: self.model@,
            messages: messages_view(self.messages@),
            turns: self.turns as nat,
            pending: calls_view(self.pending@),
            next_tool: self.next_tool as nat,
            phase: self.phase,
        }
    }
}

/// The tool calls that a response's first choice asks for, if it asks for any.
pub open spec fn requested_calls(response: &ChatResponse) -> Option<Seq<ToolCallView>> {
    if response.choices@.len() > 0 {
        match response.choices@[0].message.tool_calls {
            Some(calls) => if calls@.len() > 0 { Some(calls_view(calls@)) } else { None },
            None => None,
        }
    } else {
        None
    }
}

/// A session in any of its states has sent at least one and at most four
/// requests.
pub proof fn law_at_most_four_requests(v: SessionView)
    requires
        v.wf(),
    ensures
        1 <= v.turns <= 4,
{
}

/// A response whose first choice lists tool calls asks for exactly those
/// calls, whatever text the message also holds: the calls are run before any
/// answer is given.
pub proof fn law_tool_calls_come_first(response: &ChatResponse)
    requires
        response.choices@.len() > 0,
        response.choices@[0].message.tool_calls is Some,
        response.choices@[0].message.tool_calls->0@.len() > 0,
    ensures
        requested_calls(response) == Some(
            calls_view(response.choices@[0].message.tool_calls->0@),
        ),
        requested_calls(response)->0.len() == response.choices@[0].message.tool_calls->0@.len(),
        forall|i: int|
            0 <= i < response.choices@[0].message.tool_calls->0@.len() ==> requested_calls(
                response,
            )->0[i] == (#[trigger] response.choices@[0].message.tool_calls->0@[i])@,
{
}

/// A response whose first choice lists no tool call asks for none.
pub proof fn law_no_tool_calls_no_request(response: &ChatResponse)
    requires
        response.choices@.len() == 0 || response.choices@[0].message.tool_calls is None || response.choices@[0].message.tool_calls->0@.len() == 0,
    ensures
        requested_calls(response) is None,
{
}

impl ToolSession {
    /// Whether the session is in one of its states.
    pub closed spec fn wf(&self) -> bool {
        &&& self@.wf()
        &&& self.turns <= MAX_TURNS
        &&& self.next_tool <= self.pending@.len()
    }

    /// A session about `prompt` with `model`; its first request awaits sending.
    pub fn new(model: &str, prompt: &str) -> (s: ToolSession)
        ensures
            s.wf(),
            s@.wf(),
            s@.model == model@,
            s@.messages == opening(prompt@),
            s@.turns == 1,
            s@.pending.len() == 0,
            s@.phase == Phase::AwaitingResponse,
    {
        ToolSession {
            model: model.to_owned(),
            messages: opening_messages(prompt),
            turns: 1,
            pending: Vec::new(),
            next_tool: 0,
            phase: Phase::AwaitingResponse,
        }
    }

    /// The request to send: the whole conversation so far, with the tools offered.
    pub fn request(&self) -> (r: ChatRequest)
        ensures
            r.model@ == self@.model,
            messages_view(r.messages@) == self@.messages,
            !r.stream,
            r.tools,
    {
        ChatRequest {
            model: self.model.clone(),
            messages: copy_messages(&self.messages),
            stream: false,
            tools: true,
        }
    }

    fn hand_out_call(&self) -> (c: ToolCall)
        requires
            self.wf(),
            self.next_tool < self.pending@.len(),
        ensures
            c@ == self@.pending[self@.next_tool as int],
    {
        copy_call(&self.pending[self.next_tool])
    }

    /// Takes the response to the last request. When its first choice asks
    /// for tool calls, the model's message joins the conversation and the
    /// first call is handed out; otherwise the session answers with the
    /// choice's trimmed text, or fails when there is no choice or no text.
    pub fn on_response(&mut self, response: &ChatResponse) -> (step: Step)
        requires
            old(self).wf(),
            old(self)@.phase == Phase::AwaitingResponse,
        ensures
            final(self).wf(),
            final(self)@.wf(),
            final(self)@.model == old(self)@.model,
            final(self)@.turns == old(self)@.turns,
            response.choices@.len() == 0 ==> {
                &&& step matches Step::Fail(e) && e == ReplyError::NoChoice
                &&& final(self)@.messages == old(self)@.messages
                &&& final(self)@.phase == Phase::Finished
            },
            requested_calls(response) matches Some(calls) ==> {
                &&& step matches Step::RunTool(c) && c@ == calls[0]
                &&& final(self)@.messages == old(self)@.messages.push(
                    assistant_message(&response.choices@[0].message),
                )
                &&& final(self)@.pending == calls
                &&& final(self)@.next_tool == 0
                &&& final(self)@.phase == Phase::AwaitingTool
            },
            response.choices@.len() > 0 && requested_calls(response) is None ==> {
                let text = answer_of(response.choices@[0].message.content);
                &&& text matches Some(t) ==> (step matches Step::Answer(a) && a@ == t)
                &&& text is None ==> (step matches Step::Fail(e) && e
                    == ReplyError::MissingContent)
                &&& final(self)@.messages == old(self)@.messages
                &&& final(self)@.phase == Phase::Finished
            },
    {
        if response.choices.len() == 0 {
            self.phase = Phase::Finished;
            return Step::Fail(ReplyError::NoChoice);
        }
        let message = &response.choices[0].message;
        let asks_for_tools = match &message.tool_calls {
            Some(calls) => calls.len() > 0,
            None => false,
        };
        if asks_for_tools {
            let record = ChatMessage::assistant_tool_call(message);
            let calls = match &message.tool_calls {
                Some(calls) => copy_calls(calls),
                None => Vec::new(),
            };
            self.messages.push(record);
            self.pending = calls;
            self.next_tool = 0;
            self.phase = Phase::AwaitingTool;
            assert(messages_view(self.messages@) == messages_view(old(self).messages@).push(
                assistant_message(message),
            ));
            Step::RunTool(self.hand_out_call())
        } else {
            self.phase = Phase::Finished;
            match answer(&message.content) {
                Ok(a) => Step::Answer(a),
                Err(e) => Step::Fail(e),
            }
        }
    }

    /// Takes the output of the tool call last handed out; it joins the
    /// conversation as that call's result. Then the next call of the same
    /// response is handed out; after the last one the conversation is sent
    /// again, unless `MAX_TURNS` requests were sent already, and then the
    /// session gives up.
    pub fn on_tool_output(&mut self, output: String) -> (step: Step)
        requires
            old(self).wf(),
            old(self)@.phase == Phase::AwaitingTool,
        ensures
            final(self).wf(),
            final(self)@.wf(),
            final(self)@.model == old(self)@.model,
            final(self)@.pending == old(self)@.pending,
            final(self)@.messages == old(self)@.messages.push(
                tool_result_message(old(self)@.pending[old(self)@.next_tool as int].id, output@),
            ),
            old(self)@.next_tool + 1 < old(self)@.pending.len() ==> {
                &&& step matches Step::RunTool(c) && c@ == old(self)@.pending[old(self)@.next_tool + 1int]
                &&& final(self)@.next_tool == old(self)@.next_tool + 1
                &&& final(self)@.turns == old(self)@.turns
                &&& final(self)@.phase == Phase::AwaitingTool
            },
            old(self)@.next_tool + 1 == old(self)@.pending.len() && old(self)@.turns
                < MAX_TURNS ==> {
                &&& step is Send
                &&& final(self)@.turns == old(self)@.turns + 1
                &&& final(self)@.phase == Phase::AwaitingResponse
            },
            old(self)@.next_tool + 1 == old(self)@.pending.len() && old(self)@.turns
                == MAX_TURNS ==> {
                &&& step matches Step::Fail(e) && e == ReplyError::TooManyTurns
                &&& final(self)@.turns == old(self)@.turns
                &&& final(self)@.phase == Phase::Finished
            },
    {
        assert(self@.wf());
        assert(self.next_tool < self.pending.len());
        let id = self.pending[self.next_tool].id.clone();
        self.messages.push(ChatMessage::tool_result(id.as_str(), output));
        assert(messages_view(self.messages@) == old(self)@.messages.push(
            tool_result_message(old(self)@.pending[old(self)@.next_tool as int].id, output@),
        ));
        self.next_tool = self.next_tool + 1;
        if self.next_tool < self.pending.len() {
            Step::RunTool(self.hand_out_call())
        } else if self.turns < MAX_TURNS {
            self.turns = self.turns + 1;
            self.phase = Phase::AwaitingResponse;
            Step::Send
        } else {
            self.phase = Phase::Finished;
            Step::Fail(ReplyError::TooManyTurns)
        }
    }

    /// The session's phase.
    pub fn phase(&self) -> (p: Phase)
        ensures
            p == self@.phase,
    {
        self.phase
    }
}

} // verus!
