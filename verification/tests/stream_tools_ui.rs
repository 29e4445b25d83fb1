use ponder::stream::{
    classify_stream_line, event_contents, StreamChoice, StreamDecoder, StreamDelta, StreamLine,
    StreamResponse,
};
use ponder::text::{join, same_text, strip_prefix, trim, trim_end_matches};
use ponder::tools::{
    check_search_results, max_results, prepare_web_search, select_tool, tool_specs, ParamKind,
    Tool, ToolError, WebSearchArgs, CURRENT_TIME, MAX_RESULTS, MIN_RESULTS, WEB_SEARCH,
};
use ponder::ui::{next_tick, wait_line};

fn s(x: &str) -> String {
    x.to_string()
}

#[test]
fn decoder_hands_out_complete_lines() {
    let mut d = StreamDecoder::new();
    assert_eq!(d.feed(b"data: {\"a\":1}\r\n\r\nda"), vec![s("data: {\"a\":1}"), s("")]);
    assert_eq!(d.feed(b"ta: [DO"), Vec::<String>::new());
    assert_eq!(d.feed(b"NE]\n"), vec![s("data: [DONE]")]);
    assert_eq!(d.finish(), None);
}

#[test]
fn decoder_chunk_boundaries_do_not_matter() {
    let body = "data: one\ndata: two\r\r\n: comment\ndata: tail";
    let mut whole = StreamDecoder::new();
    let all = whole.feed_text(body);
    for cut in 0..body.len() {
        if !body.is_char_boundary(cut) {
            continue;
        }
        let mut d = StreamDecoder::new();
        let mut lines = d.feed_text(&body[..cut]);
        lines.extend(d.feed_text(&body[cut..]));
        assert_eq!(lines, all);
        assert_eq!(d.finish(), whole.finish());
    }
    assert_eq!(all, vec![s("data: one"), s("data: two"), s(": comment")]);
    assert_eq!(whole.finish(), Some(s("data: tail")));
}

#[test]
fn decoder_reads_bytes_as_lossy_utf8() {
    let mut d = StreamDecoder::new();
    assert_eq!(d.feed(&[0x64, 0xff, 0x0a, 0xe2, 0x97, 0x8c, 0x0a]), vec![s("d\u{fffd}"), s("\u{25cc}")]);
    let mut d = StreamDecoder::new();
    assert_eq!(d.feed("caf\u{e9}\n".as_bytes()), vec![s("caf\u{e9}")]);
}

#[test]
fn decoder_byte_chunks_split_at_characters_do_not_matter() {
    let body = "data: caf\u{e9} \u{25cc}\r\ndata: [DONE]\n";
    let bytes = body.as_bytes();
    let mut whole = StreamDecoder::new();
    let all = whole.feed(bytes);
    assert_eq!(all, vec![s("data: caf\u{e9} \u{25cc}"), s("data: [DONE]")]);
    for cut in 0..=bytes.len() {
        if !body.is_char_boundary(cut) {
            continue;
        }
        let mut d = StreamDecoder::new();
        let mut lines = d.feed(&bytes[..cut]);
        lines.extend(d.feed(&bytes[cut..]));
        assert_eq!(lines, all);
        assert_eq!(d.finish(), None);
    }
}

#[test]
fn decoder_many_small_chunks_match_one_chunk() {
    let body = "data: {\"x\":1}\r\n\ndata: caf\u{e9}\ndata: [DONE]\nrest";
    let mut whole = StreamDecoder::new();
    let all = whole.feed(body.as_bytes());
    let mut d = StreamDecoder::new();
    let mut lines = Vec::new();
    for c in body.chars() {
        let mut buf = [0u8; 4];
        lines.extend(d.feed(c.encode_utf8(&mut buf).as_bytes()));
    }
    assert_eq!(lines, all);
    assert_eq!(d.finish(), Some(s("rest")));
    assert_eq!(whole.finish(), Some(s("rest")));
}

#[test]
fn decoder_finish_keeps_text_but_not_whitespace() {
    let mut d = StreamDecoder::new();
    assert!(d.feed_text("data: x\r\r").is_empty());
    assert_eq!(d.finish(), Some(s("data: x")));
    let mut d = StreamDecoder::new();
    assert!(d.feed_text("a\n  \r").len() == 1);
    assert_eq!(d.finish(), None);
}

#[test]
fn stream_lines_are_classified() {
    assert!(matches!(classify_stream_line("data: [DONE]"), StreamLine::Done));
    assert!(matches!(classify_stream_line("data:[DONE]  "), StreamLine::Done));
    assert!(matches!(classify_stream_line("data:   "), StreamLine::Ignore));
    assert!(matches!(classify_stream_line(": keep-alive"), StreamLine::Ignore));
    assert!(matches!(classify_stream_line("event: message"), StreamLine::Ignore));
    assert!(matches!(classify_stream_line(""), StreamLine::Ignore));
    match classify_stream_line("data:  {\"choices\":[]} ") {
        StreamLine::Data(d) => assert_eq!(d, "{\"choices\":[]}"),
        _ => panic!("expected data"),
    }
    match classify_stream_line("data: [DONE] later") {
        StreamLine::Data(d) => assert_eq!(d, "[DONE] later"),
        _ => panic!("expected data"),
    }
}

#[test]
fn event_contents_lists_choice_contents_in_order() {
    let choice = |c: Option<&str>| StreamChoice { delta: StreamDelta { content: c.map(s) } };
    let e = StreamResponse { choices: vec![choice(Some("Hel")), choice(None), choice(Some("lo"))] };
    assert_eq!(event_contents(&e), vec![s("Hel"), s("lo")]);
    let e = StreamResponse { choices: vec![choice(Some("")), choice(None)] };
    assert_eq!(event_contents(&e), vec![s("")]);
    assert_eq!(event_contents(&StreamResponse { choices: vec![] }), Vec::<String>::new());
}

#[test]
fn text_helpers() {
    assert_eq!(trim("\u{3000} a b \t\n"), "a b");
    assert_eq!(trim("\u{a0}\u{2003}"), "");
    assert_eq!(trim_end_matches("x///", '/'), "x");
    assert_eq!(trim_end_matches("/", '/'), "");
    assert!(same_text("abc", "abc"));
    assert!(!same_text("abc", "abd"));
    assert!(!same_text("ab", "abc"));
    assert_eq!(strip_prefix("data: x", "data:"), Some(s(" x")));
    assert_eq!(strip_prefix("dat", "data:"), None);
    assert_eq!(strip_prefix("date: x", "data:"), None);
    assert_eq!(join(&vec![s("a"), s("b"), s("c")], ", "), "a, b, c");
}

#[test]
fn tools_are_selected_by_name() {
    assert_eq!(CURRENT_TIME, "current_time");
    assert_eq!(WEB_SEARCH, "web_search");
    assert!(matches!(select_tool("current_time"), Ok(Tool::CurrentTime)));
    assert!(matches!(select_tool("web_search"), Ok(Tool::WebSearch)));
    match select_tool("launch_rockets") {
        Err(e) => {
            assert!(matches!(e, ToolError::Unknown(ref n) if n == "launch_rockets"));
            assert_eq!(e.message(), "unknown tool requested: launch_rockets");
        },
        Ok(_) => panic!("unknown tool accepted"),
    }
    assert_eq!(Tool::CurrentTime.name(), "current_time");
    assert_eq!(Tool::WebSearch.name(), "web_search");
}

#[test]
fn tool_specs_describe_both_tools() {
    let specs = tool_specs();
    assert_eq!(specs.len(), 2);
    assert_eq!(specs[0].tool, Tool::CurrentTime);
    assert_eq!(specs[0].name, "current_time");
    assert_eq!(specs[0].description, "Get the current local date and time for the machine running ponder.");
    assert!(specs[0].params.is_empty());
    assert_eq!(specs[1].tool, Tool::WebSearch);
    assert_eq!(specs[1].name, "web_search");
    let p = &specs[1].params;
    assert_eq!(p.len(), 2);
    assert_eq!((p[0].name.as_str(), p[0].kind, p[0].required), ("query", ParamKind::Text, true));
    assert_eq!((p[0].minimum, p[0].maximum), (None, None));
    assert_eq!((p[1].name.as_str(), p[1].kind, p[1].required), ("max_results", ParamKind::Integer, false));
    assert_eq!((p[1].minimum, p[1].maximum), (Some(1), Some(5)));
    assert_eq!((MIN_RESULTS, MAX_RESULTS), (1, 5));
    for spec in &specs {
        assert!(matches!(select_tool(&spec.name), Ok(t) if t == spec.tool));
    }
}

#[test]
fn search_results_are_clamped_between_one_and_five() {
    assert_eq!(max_results(None), 5);
    assert_eq!(max_results(Some(0)), 1);
    assert_eq!(max_results(Some(3)), 3);
    assert_eq!(max_results(Some(50)), 5);
}

#[test]
fn web_search_checks_key_then_arguments_then_query() {
    let args = |q: &str, n: Option<usize>| WebSearchArgs { query: s(q), max_results: n };
    let e = prepare_web_search(None, "not json", None).err().unwrap();
    assert!(matches!(e, ToolError::MissingTavilyKey));
    assert_eq!(
        e.message(),
        "web_search requires a Tavily API key. Set TAVILY_API_KEY or tavily_api_key in ~/.config/ponder/config.toml"
    );
    let e = prepare_web_search(Some("k"), "not json", None).err().unwrap();
    assert!(matches!(e, ToolError::InvalidArguments(ref a) if a == "not json"));
    assert_eq!(e.message(), "invalid web_search arguments: not json");
    let e = prepare_web_search(Some("k"), "{\"query\":\"  \"}", Some(args("  ", None))).err().unwrap();
    assert!(matches!(e, ToolError::EmptyQuery));
    assert_eq!(e.message(), "web_search query cannot be empty");
    let r = prepare_web_search(Some("k"), "{}", Some(args("  latest rust release ", Some(9)))).ok().unwrap();
    assert_eq!(r.api_key, "k");
    assert_eq!(r.query, "latest rust release");
    assert_eq!(r.search_depth, "basic");
    assert_eq!(r.max_results, 5);
    assert!(!r.include_answer && !r.include_raw_content);
}

#[test]
fn empty_search_results_are_refused() {
    assert!(check_search_results(2).is_ok());
    let e = check_search_results(0).err().unwrap();
    assert!(matches!(e, ToolError::NoResults));
    assert_eq!(e.message(), "web_search did not find any results");
}

#[test]
fn wait_line_frames_and_messages() {
    assert_eq!(wait_line(0, true, true), "\u{2726} \u{25cc} \u{b7}  consulting the hidden lattice...");
    assert_eq!(wait_line(3, true, false), "* \u{25c9}    pondering...");
    assert_eq!(wait_line(10, false, true), "tracing luminous threads...");
    assert_eq!(wait_line(59, false, true), "asking the orb to blink twice...");
    assert_eq!(wait_line(60, true, true), wait_line(0, true, true));
    assert_eq!(wait_line(5, false, false), "pondering...");
    assert_eq!(wait_line(4, true, true), "\u{2da} \u{25ce} \u{2726}  consulting the hidden lattice...");
}

#[test]
fn ticks_wrap_around() {
    assert_eq!(next_tick(0), 1);
    assert_eq!(next_tick(usize::MAX), 0);
}
