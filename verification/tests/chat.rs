use ponder::client::{
    http_error_message, reply_text, AssistantMessage, ChatClient, ChatMessage, ChatRequest, ChatResponse, Choice,
    ReplyError, ToolCall, ToolFunctionCall, SYSTEM_PROMPT,
};
use ponder::session::{Phase, Step, ToolSession, MAX_TURNS};

fn s(x: &str) -> String {
    x.to_string()
}

fn call(id: &str, name: &str, arguments: Option<&str>) -> ToolCall {
    ToolCall {
        id: s(id),
        kind: s("function"),
        function: ToolFunctionCall { name: s(name), arguments: arguments.map(s) },
    }
}

fn text_response(content: Option<&str>) -> ChatResponse {
    ChatResponse {
        choices: vec![Choice {
            message: AssistantMessage { content: content.map(s), tool_calls: None },
        }],
    }
}

fn tool_response(calls: Vec<ToolCall>) -> ChatResponse {
    ChatResponse {
        choices: vec![Choice { message: AssistantMessage { content: None, tool_calls: Some(calls) } }],
    }
}

#[test]
fn client_drops_trailing_slashes_from_base_url() {
    let c = ChatClient::new(s("http://localhost:1234/v1//"), s(""), None);
    assert_eq!(c.endpoint(), "http://localhost:1234/v1/chat/completions");
    let c = ChatClient::new(s("http://192.168.1.40:8787/v1"), s("k"), Some(s("t")));
    assert_eq!(c.endpoint(), "http://192.168.1.40:8787/v1/chat/completions");
    assert_eq!(c.tavily_api_key(), Some("t"));
}

#[test]
fn bearer_token_only_with_a_key() {
    let c = ChatClient::new(s("u"), s(""), None);
    assert_eq!(c.bearer_token(), None);
    assert_eq!(c.tavily_api_key(), None);
    let c = ChatClient::new(s("u"), s("secret"), None);
    assert_eq!(c.bearer_token(), Some("secret"));
}

#[test]
fn message_constructors() {
    let m = ChatMessage::content("user", "hello");
    assert_eq!(m.role, "user");
    assert_eq!(m.content, Some(s("hello")));
    assert!(m.tool_call_id.is_none() && m.tool_calls.is_none());

    let m = ChatMessage::tool_result("call_1", s("{\"ok\":true}"));
    assert_eq!(m.role, "tool");
    assert_eq!(m.content, Some(s("{\"ok\":true}")));
    assert_eq!(m.tool_call_id, Some(s("call_1")));
    assert!(m.tool_calls.is_none());

    let a = AssistantMessage {
        content: Some(s("thinking")),
        tool_calls: Some(vec![call("c1", "current_time", Some("{}"))]),
    };
    let m = ChatMessage::assistant_tool_call(&a);
    assert_eq!(m.role, "assistant");
    assert_eq!(m.content, Some(s("thinking")));
    assert!(m.tool_call_id.is_none());
    let calls = m.tool_calls.unwrap();
    assert_eq!(calls.len(), 1);
    assert_eq!(calls[0].id, "c1");
    assert_eq!(calls[0].kind, "function");
    assert_eq!(calls[0].function.name, "current_time");
    assert_eq!(calls[0].function.arguments, Some(s("{}")));
}

#[test]
fn single_turn_request_opens_with_the_system_prompt() {
    let r = ChatRequest::single_turn("m", "why?", true);
    assert_eq!(r.model, "m");
    assert!(r.stream);
    assert!(!r.tools);
    assert_eq!(r.messages.len(), 2);
    assert_eq!(r.messages[0].role, "system");
    assert_eq!(r.messages[0].content, Some(s(SYSTEM_PROMPT)));
    assert!(SYSTEM_PROMPT.starts_with("You are the voice inside a small crystal ball"));
    assert_eq!(r.messages[1].role, "user");
    assert_eq!(r.messages[1].content, Some(s("why?")));
}

#[test]
fn reply_text_trims_and_refuses_empty_answers() {
    assert_eq!(reply_text(&text_response(Some("  the orb says yes \n"))), Ok(s("the orb says yes")));
    assert_eq!(reply_text(&text_response(Some("   "))), Err(ReplyError::MissingContent));
    assert_eq!(reply_text(&text_response(None)), Err(ReplyError::MissingContent));
    assert_eq!(reply_text(&ChatResponse { choices: vec![] }), Err(ReplyError::MissingContent));
}

#[test]
fn reply_error_messages() {
    assert_eq!(ReplyError::NoChoice.message(), "endpoint response did not include a choice");
    assert_eq!(
        ReplyError::MissingContent.message(),
        "endpoint response did not include assistant content"
    );
    assert_eq!(
        ReplyError::TooManyTurns.message(),
        "tool call loop exceeded the maximum number of turns"
    );
}

#[test]
fn session_answers_directly() {
    let mut session = ToolSession::new("m", "hi");
    assert_eq!(session.phase(), Phase::AwaitingResponse);
    let r = session.request();
    assert!(r.tools && !r.stream);
    assert_eq!(r.model, "m");
    assert_eq!(r.messages.len(), 2);
    match session.on_response(&text_response(Some(" hello there "))) {
        Step::Answer(a) => assert_eq!(a, "hello there"),
        _ => panic!("expected an answer"),
    }
    assert_eq!(session.phase(), Phase::Finished);
}

#[test]
fn session_fails_without_choice_or_text() {
    let mut session = ToolSession::new("m", "hi");
    match session.on_response(&ChatResponse { choices: vec![] }) {
        Step::Fail(e) => assert_eq!(e, ReplyError::NoChoice),
        _ => panic!("expected a failure"),
    }
    let mut session = ToolSession::new("m", "hi");
    match session.on_response(&text_response(Some("\n"))) {
        Step::Fail(e) => assert_eq!(e, ReplyError::MissingContent),
        _ => panic!("expected a failure"),
    }
    let mut session = ToolSession::new("m", "hi");
    match session.on_response(&tool_response(vec![])) {
        Step::Fail(e) => assert_eq!(e, ReplyError::MissingContent),
        _ => panic!("an empty list of tool calls is no request for tools"),
    }
}

#[test]
fn session_runs_each_tool_call_in_order_then_asks_again() {
    let mut session = ToolSession::new("m", "what time is it?");
    let step = session.on_response(&tool_response(vec![
        call("a", "current_time", Some("{}")),
        call("b", "web_search", Some("{\"query\":\"rust\"}")),
    ]));
    match step {
        Step::RunTool(c) => {
            assert_eq!(c.id, "a");
            assert_eq!(c.function.name, "current_time");
        },
        _ => panic!("expected a tool call"),
    }
    assert_eq!(session.phase(), Phase::AwaitingTool);
    match session.on_tool_output(s("noon")) {
        Step::RunTool(c) => {
            assert_eq!(c.id, "b");
            assert_eq!(c.function.arguments, Some(s("{\"query\":\"rust\"}")));
        },
        _ => panic!("expected the second tool call"),
    }
    match session.on_tool_output(s("results")) {
        Step::Send => {},
        _ => panic!("expected another request"),
    }
    let r = session.request();
    assert_eq!(r.messages.len(), 5);
    assert_eq!(r.messages[2].role, "assistant");
    assert_eq!(r.messages[2].tool_calls.as_ref().unwrap().len(), 2);
    assert_eq!(r.messages[3].role, "tool");
    assert_eq!(r.messages[3].tool_call_id, Some(s("a")));
    assert_eq!(r.messages[3].content, Some(s("noon")));
    assert_eq!(r.messages[4].tool_call_id, Some(s("b")));
    assert_eq!(r.messages[4].content, Some(s("results")));
    match session.on_response(&text_response(Some("It is noon."))) {
        Step::Answer(a) => assert_eq!(a, "It is noon."),
        _ => panic!("expected an answer"),
    }
}

#[test]
fn session_gives_up_after_four_requests() {
    assert_eq!(MAX_TURNS, 4);
    let mut session = ToolSession::new("m", "loop");
    let mut sends = 1;
    loop {
        match session.on_response(&tool_response(vec![call("x", "current_time", None)])) {
            Step::RunTool(_) => {},
            _ => panic!("expected a tool call"),
        }
        match session.on_tool_output(s("t")) {
            Step::Send => sends += 1,
            Step::Fail(e) => {
                assert_eq!(e, ReplyError::TooManyTurns);
                break;
            },
            _ => panic!("unexpected step"),
        }
    }
    assert_eq!(sends, 4);
    assert_eq!(session.phase(), Phase::Finished);
}

#[test]
fn http_error_message_names_status_and_body() {
    assert_eq!(
        http_error_message("404 Not Found", Some("no such model")),
        "endpoint returned HTTP 404 Not Found: no such model"
    );
    assert_eq!(
        http_error_message("500 Internal Server Error", None),
        "endpoint returned HTTP 500 Internal Server Error: <failed to read error body>"
    );
}
