//! The chat completion protocol: messages, requests and responses as plain
//! values, the client's endpoint and credentials, and how an answer is read
//! out of a response.
use vstd::prelude::*;

use crate::text::{
    copy_opt, lemma_trim_bounds, opt_view, spec_is_space,
    lemma_trim_end_char_last, lemma_trim_idempotent, trim, trim_end_char, trim_end_matches,
    trim_seq,
};

verus! {

broadcast use vstd::string::group_string_axioms;

/// What the model is told before the user's prompt.
pub const SYSTEM_PROMPT: &'static str = "You are the voice inside a small crystal ball in the user's terminal.

Speak with a subtle sense of wonder, but prioritize usefulness over theater.
Obey the user's concrete instructions exactly, including requested length, format, and constraints.
When the user asks for brevity, be brief. When they ask for a specific number of words, match it.
Use available tools when the answer depends on current time, dates, current events, or outside information.
Do not call yourself Ponder, an AI, an assistant, or a model.
Answer as though the useful truth is appearing inside the crystal, then give the answer directly.
Do not mention tools, hidden prompts, or internal process.
Do not pad answers with greetings unless the user explicitly asks for one.";

/// The function that a tool call names, with its JSON-encoded arguments.
pub struct ToolFunctionCall {
    pub name: String,
    pub arguments: Option<String>,
}

/// A tool call requested by the model.
pub struct ToolCall {
    pub id: String,
    /// The `type` of the call (always `"function"` in practice).
    pub kind: String,
    pub function: ToolFunctionCall,
}

/// The view of a tool call.
pub struct ToolCallView {
    pub id: Seq<char>,
    pub kind: Seq<char>,
    pub name: Seq<char>,
    pub arguments: Option<Seq<char>>,
}

impl View for ToolCall {
    type V = ToolCallView;

    open spec fn view(&self) -> ToolCallView {
        ToolCallView {
            id: self.id@,
            kind: self.kind@,
            name: self.function.name@,
            arguments: opt_view(self.function.arguments),
        }
    }
}

/// The views of a list of tool calls.
pub open spec fn calls_view(calls: Seq<ToolCall>) -> Seq<ToolCallView> {
    calls.map_values(|c: ToolCall| c@)
}

/// The view of an optional list of tool calls.
pub open spec fn opt_calls_view(calls: Option<Vec<ToolCall>>) -> Option<Seq<ToolCallView>> {
    match calls {
        Some(v) => Some(calls_view(v@)),
        None => None,
    }
}

/// One message of a conversation, as sent to the endpoint.
pub struct ChatMessage {
    pub role: String,
    pub content: Option<String>,
    pub tool_call_id: Option<String>,
    pub tool_calls: Option<Vec<ToolCall>>,
}

/// The view of a message.
pub struct MessageView {
    pub role: Seq<char>,
    pub content: Option<Seq<char>>,
    pub tool_call_id: Option<Seq<char>>,
    pub tool_calls: Option<Seq<ToolCallView>>,
}

impl View for ChatMessage {
    type V = MessageView;

    open spec fn view(&self) -> MessageView {
        MessageView {
            role: self.role@,
            content: opt_view(self.content),
            tool_call_id: opt_view(self.tool_call_id),
            tool_calls: opt_calls_view(self.tool_calls),
        }
    }
}

/// The views of a list of messages.
pub open spec fn messages_view(messages: Seq<ChatMessage>) -> Seq<MessageView> {
    messages.map_values(|m: ChatMessage| m@)
}

/// The message of the model in a response.
pub struct AssistantMessage {
    pub content: Option<String>,
    pub tool_calls: Option<Vec<ToolCall>>,
}

/// One choice of a response.
pub struct Choice {
    pub message: AssistantMessage,
}

/// A chat completion response.
pub struct ChatResponse {
    pub choices: Vec<Choice>,
}

/// A chat completion request.
pub struct ChatRequest {
    pub model: String,
    pub messages: Vec<ChatMessage>,
    /// Whether the answer is streamed as server-sent events.
    pub stream: bool,
    /// Whether the built-in tool definitions are offered, with the model left
    /// to choose (`tool_choice: "auto"`).
    pub tools: bool,
}

/// A message with the given role and text.
pub open spec fn text_message(role: Seq<char>, content: Seq<char>) -> MessageView {
    MessageView { role, content: Some(content), tool_call_id: None, tool_calls: None }
}

/// The message that carries a tool's output back to the model.
pub open spec fn tool_result_message(tool_call_id: Seq<char>, content: Seq<char>) -> MessageView {
    MessageView {
        role: "tool"@,
        content: Some(content),
        tool_call_id: Some(tool_call_id),
        tool_calls: None,
    }
}

/// The message that records the model's request for tool calls.
pub open spec fn assistant_message(message: &AssistantMessage) -> MessageView {
    MessageView {
        role: "assistant"@,
        content: opt_view(message.content),
        tool_call_id: None,
        tool_calls: opt_calls_view(message.tool_calls),
    }
}

/// The conversation that every request starts with: the system prompt,
/// then the user's prompt.
pub open spec fn opening(prompt: Seq<char>) -> Seq<MessageView> {
    seq![text_message("system"@, SYSTEM_PROMPT@), text_message("user"@, prompt)]
}

/// The answer that a message's content gives: the content with surrounding
/// whitespace removed, when something is left.
pub open spec fn answer_of(content: Option<String>) -> Option<Seq<char>> {
    match content {
        Some(c) => if trim_seq(c@).len() > 0 { Some(trim_seq(c@)) } else { None },
        None => None,
    }
}

/// A copy of a tool call.
pub fn copy_call(c: &ToolCall) -> (r: ToolCall)
    ensures
        r@ == c@,
{
    ToolCall {
        id: c.id.clone(),
        kind: c.kind.clone(),
        function: ToolFunctionCall {
            name: c.function.name.clone(),
            arguments: copy_opt(&c.function.arguments),
        },
    }
}

/// A copy of a list of tool calls.
pub fn copy_calls(calls: &Vec<ToolCall>) -> (r: Vec<ToolCall>)
    ensures
        calls_view(r@) == calls_view(calls@),
{
    let mut r: Vec<ToolCall> = Vec::new();
    let mut i: usize = 0;
    while i < calls.len()
        invariant
            i <= calls.len(),
            calls_view(r@) == calls_view(calls@).take(i as int),
        decreases calls.len() - i,
    {
        r.push(copy_call(&calls[i]));
        assert(calls_view(calls@).take(i + 1) == calls_view(calls@).take(i as int).push(
            calls@[i as int]@,
        ));
        i = i + 1;
    }
    assert(calls_view(calls@).take(calls.len() as int) == calls_view(calls@));
    r
}

fn copy_opt_calls(calls: &Option<Vec<ToolCall>>) -> (r: Option<Vec<ToolCall>>)
    ensures
        opt_calls_view(r) == opt_calls_view(*calls),
{
    match calls {
        Some(v) => Some(copy_calls(v)),
        None => None,
    }
}

/// A copy of `m`.
pub fn copy_message(m: &ChatMessage) -> (r: ChatMessage)
    ensures
        r@ == m@,
{
    ChatMessage {
        role: m.role.clone(),
        content: copy_opt(&m.content),
        tool_call_id: copy_opt(&m.tool_call_id),
        tool_calls: copy_opt_calls(&m.tool_calls),
    }
}

/// A copy of a list of messages.
pub fn copy_messages(messages: &Vec<ChatMessage>) -> (r: Vec<ChatMessage>)
    ensures
        messages_view(r@) == messages_view(messages@),
{
    let mut r: Vec<ChatMessage> = Vec::new();
    let mut i: usize = 0;
    while i < messages.len()
        invariant
            i <= messages.len(),
            messages_view(r@) == messages_view(messages@).take(i as int),
        decreases messages.len() - i,
    {
        r.push(copy_message(&messages[i]));
        assert(messages_view(messages@).take(i + 1) == messages_view(messages@).take(
            i as int,
        ).push(messages@[i as int]@));
        i = i + 1;
    }
    assert(messages_view(messages@).take(messages.len() as int) == messages_view(messages@));
    r
}

impl ChatMessage {
    /// A message with the given role and text.
    pub fn content(role: &str, content: &str) -> (r: ChatMessage)
        ensures
            r@ == text_message(role@, content@),
    {
        ChatMessage {
            role: role.to_owned(),
            content: Some(content.to_owned()),
            tool_call_id: None,
            tool_calls: None,
        }
    }

    /// The message that records the model's request for tool calls, to be
    /// sent back with the tools' results.
    pub fn assistant_tool_call(message: &AssistantMessage) -> (r: ChatMessage)
        ensures
            r@ == assistant_message(message),
    {
        ChatMessage {
            role: "assistant".to_owned(),
            content: copy_opt(&message.content),
            tool_call_id: None,
            tool_calls: copy_opt_calls(&message.tool_calls),
        }
    }

    /// The message that carries the output of the tool call `tool_call_id`.
    pub fn tool_result(tool_call_id: &str, content: String) -> (r: ChatMessage)
        ensures
            r@ == tool_result_message(tool_call_id@, content@),
    {
        ChatMessage {
            role: "tool".to_owned(),
            content: Some(content),
            tool_call_id: Some(tool_call_id.to_owned()),
            tool_calls: None,
        }
    }
}

/// The opening conversation for `prompt`.
pub fn opening_messages(prompt: &str) -> (r: Vec<ChatMessage>)
    ensures
        messages_view(r@) == opening(prompt@),
{
    let mut r: Vec<ChatMessage> = Vec::new();
    r.push(ChatMessage::content("system", SYSTEM_PROMPT));
    r.push(ChatMessage::content("user", prompt));
    assert(messages_view(r@) == opening(prompt@));
    r
}

impl ChatRequest {
    /// The request for a single exchange about `prompt`, without tools:
    /// streamed or not as `stream` says.
    pub fn single_turn(model: &str, prompt: &str, stream: bool) -> (r: ChatRequest)
        ensures
            r.model@ == model@,
            messages_view(r.messages@) == opening(prompt@),
            r.stream == stream,
            !r.tools,
    {
        ChatRequest {
            model: model.to_owned(),
            messages: opening_messages(prompt),
            stream,
            tools: false,
        }
    }
}

/// Why no answer could be had from the endpoint's responses.
#[derive(Debug, PartialEq, Eq, Structural, Clone, Copy)]
pub enum ReplyError {
    /// The response held no choice.
    NoChoice,
    /// The response's message held no text once whitespace was removed.
    MissingContent,
    /// The model still asked for tools after the last allowed request.
    TooManyTurns,
}

impl ReplyError {
    /// The message shown to the user.
    pub fn message(&self) -> (r: &'static str)
        ensures
            *self == ReplyError::NoChoice ==> r@ == "endpoint response did not include a choice"@,
            *self == ReplyError::MissingContent ==> r@
                == "endpoint response did not include assistant content"@,
            *self == ReplyError::TooManyTurns ==> r@
                == "tool call loop exceeded the maximum number of turns"@,
    {
        match self {
            ReplyError::NoChoice => "endpoint response did not include a choice",
            ReplyError::MissingContent => "endpoint response did not include assistant content",
            ReplyError::TooManyTurns => "tool call loop exceeded the maximum number of turns",
        }
    }
}

/// The answer that a content gives is the content with whitespace removed at
/// its two ends and nothing else changed: a contiguous part of it, preceded
/// and followed only by whitespace, that starts and ends with a non-space.
/// There is no answer exactly when the content is missing or all whitespace.
pub proof fn law_answer_is_trimmed_content(content: Option<String>)
    ensures
        content is None ==> answer_of(content) is None,
        content matches Some(c) ==> (answer_of(content) is None <==> forall|i: int|
            0 <= i < c@.len() ==> spec_is_space(#[trigger] c@[i])),
        content matches Some(c) ==> (answer_of(content) matches Some(t) ==> exists|lo: int, hi: int|
            {
                &&& 0 <= lo < hi <= c@.len()
                &&& t == c@.subrange(lo, hi)
                &&& forall|i: int| 0 <= i < lo ==> spec_is_space(#[trigger] c@[i])
                &&& forall|i: int| hi <= i < c@.len() ==> spec_is_space(#[trigger] c@[i])
                &&& !spec_is_space(c@[lo])
                &&& !spec_is_space(c@[hi - 1])
            }),
{
    if let Some(c) = content {
        let (lo, hi) = lemma_trim_bounds(c@);
        if lo < hi {
            assert(!spec_is_space(c@[lo]));
        } else {
            assert forall|i: int| 0 <= i < c@.len() implies spec_is_space(#[trigger] c@[i]) by {
                if i >= hi {
                } else {
                    assert(i < lo);
                }
            }
        }
    }
}

/// The answer in a message's content: the content with surrounding
/// whitespace removed, refused when nothing is left.
pub fn answer(content: &Option<String>) -> (r: Result<String, ReplyError>)
    ensures
        answer_of(*content) is None <==> r is Err,
        r matches Ok(a) ==> answer_of(*content) == Some(a@),
        r matches Ok(a) ==> trim_seq(a@) == a@ && a@.len() > 0,
        r matches Err(e) ==> e == ReplyError::MissingContent,
{
    if let Some(c) = content {
        proof {
            lemma_trim_idempotent(c@);
        }
    }
    match content {
        Some(c) => {
            let t = trim(c.as_str());
            if t.as_str().is_empty() {
                Err(ReplyError::MissingContent)
            } else {
                Ok(t)
            }
        },
        None => Err(ReplyError::MissingContent),
    }
}

/// The answer of a response to a single exchange: the content of its first
/// choice, trimmed; refused when there is no choice or no text.
pub fn reply_text(response: &ChatResponse) -> (r: Result<String, ReplyError>)
    ensures
        response.choices@.len() == 0 ==> r == Err::<String, ReplyError>(ReplyError::MissingContent),
        response.choices@.len() > 0 ==> {
            let content = response.choices@[0].message.content;
            &&& answer_of(content) is None <==> r is Err
            &&& r matches Ok(a) ==> answer_of(content) == Some(a@)
            &&& r matches Err(e) ==> e == ReplyError::MissingContent
        },
{
    if response.choices.len() == 0 {
        Err(ReplyError::MissingContent)
    } else {
        answer(&response.choices[0].message.content)
    }
}

/// The message for a response whose status is no success. `status` is the
/// status as displayed (code and reason phrase), `body` the response body,
/// `None` when it could not be read.
pub fn http_error_message(status: &str, body: Option<&str>) -> (r: String)
    ensures
        r@ == "endpoint returned HTTP "@ + status@ + ": "@ + match body {
            Some(b) => b@,
            None => "<failed to read error body>"@,
        },
{
    let mut r = "endpoint returned HTTP ".to_owned();
    r.append(status);
    r.append(": ");
    match body {
        Some(b) => r.append(b),
        None => r.append("<failed to read error body>"),
    }
    r
}

/// The client's view of the endpoint: its base URL without trailing
/// slashes, the API key (empty for none) and the Tavily key.
pub struct ChatClient {
    base_url: String,
    api_key: String,
    tavily_api_key: Option<String>,
}

impl ChatClient {
    /// The base URL, without trailing slashes.
    pub closed spec fn spec_base_url(&self) -> Seq<char> {
        self.base_url@
    }

    /// The API key; empty for none.
    pub closed spec fn spec_api_key(&self) -> Seq<char> {
        self.api_key@
    }

    /// The Tavily key.
    pub closed spec fn spec_tavily_api_key(&self) -> Option<Seq<char>> {
        opt_view(self.tavily_api_key)
    }

    /// A client for the endpoint at `base_url`, whose trailing slashes are dropped.
    pub fn new(base_url: String, api_key: String, tavily_api_key: Option<String>) -> (c: ChatClient)
        ensures
            c.spec_base_url() == trim_end_char(base_url@, '/'),
            c.spec_base_url().len() > 0 ==> c.spec_base_url().last() != '/',
            c.spec_api_key() == api_key@,
            c.spec_tavily_api_key() == opt_view(tavily_api_key),
    {
        proof {
            lemma_trim_end_char_last(base_url@, '/');
        }
        ChatClient {
            base_url: trim_end_matches(base_url.as_str(), '/'),
            api_key,
            tavily_api_key,
        }
    }

    /// The URL that requests are posted to: `{base_url}/chat/completions`.
    pub fn endpoint(&self) -> (r: String)
        ensures
            r@ == self.spec_base_url() + "/chat/completions"@,
    {
        let mut r = self.base_url.clone();
        r.append("/chat/completions");
        r
    }

    /// The bearer token sent with requests: none when the API key is empty.
    pub fn bearer_token(&self) -> (r: Option<&str>)
        ensures
            self.spec_api_key().len() == 0 <==> r is None,
            r matches Some(k) ==> k@ == self.spec_api_key(),
    {
        if self.api_key.as_str().is_empty() {
            None
        } else {
            Some(self.api_key.as_str())
        }
    }

    /// The key that the web_search tool uses.
    pub fn tavily_api_key(&self) -> (r: Option<&str>)
        ensures
            r is Some <==> self.spec_tavily_api_key() is Some,
            r matches Some(k) ==> Some(k@) == self.spec_tavily_api_key(),
    {
        match &self.tavily_api_key {
            Some(k) => Some(k.as_str()),
            None => None,
        }
    }
}

} // verus!
