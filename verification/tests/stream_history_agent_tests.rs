use sharp::agent::{
    decide_reply, new_user_message, newest_start_of, out_of_turns_error, strip_images, AgentRun, AssistantReply,
    ChatMessage, Content, ContentPart, Conversation, ReplyAction, ToolCallRequest, SYSTEM_PROMPT,
};
use sharp::history::{ConversationRecord, HistoryStore};
use sharp::sse::{stream_token, token_of_delta, SseDecoder, SseEvent};
use sharp::tools::{ToolRequest, ToolResult};

fn data(s: &str) -> SseEvent<String> {
    SseEvent::Data(s.to_string())
}

fn same(a: &[SseEvent<String>], b: &[SseEvent<String>]) -> bool {
    format!("{:?}", a) == format!("{:?}", b)
}

#[test]
fn stream_lines_across_chunks() {
    let mut d = SseDecoder::new();
    let first = d.feed("data: {\"a\":1}\r\n\n: comment\ndata: par");
    assert!(same(&first, &[data("{\"a\":1}")]));
    let second = d.feed("tial\ndata: [DO");
    assert!(same(&second, &[data("partial")]));
    let third = d.feed("NE]\ndata: after\n");
    assert!(same(&third, &[SseEvent::Done]));
    assert!(d.is_done());
    assert!(d.feed("data: more\n").is_empty());
}

#[test]
fn stream_chunking_does_not_matter() {
    let text = "data: one\n\ndata: two\r\r\nevent: x\ndata: [DONE]\ndata: three\n";
    let mut whole = SseDecoder::new();
    let all = whole.feed(text);
    for cut in 0..text.len() {
        if !text.is_char_boundary(cut) {
            continue;
        }
        let mut d = SseDecoder::new();
        let mut got = d.feed(&text[..cut]);
        got.extend(d.feed(&text[cut..]));
        assert!(same(&got, &all), "cut at {}", cut);
    }
    assert!(same(&all, &[data("one"), data("two"), SseEvent::Done]));
}

fn record(id: &str) -> ConversationRecord {
    ConversationRecord {
        id: id.to_string(),
        timestamp: 1,
        transcript: format!("t{}", id),
        response: String::new(),
        screenshot_path: None,
        tool_calls: vec![],
    }
}

#[test]
fn history_keeps_twenty_newest_first() {
    let mut h = HistoryStore::from_records(vec![]);
    for i in 0..25 {
        h.save(record(&i.to_string()));
    }
    let all = h.all();
    assert_eq!(all.len(), 20);
    assert_eq!(all[0].id, "24");
    assert_eq!(all[19].id, "5");
    assert_eq!(h.find("24").map(|r| r.transcript.clone()), Some("t24".to_string()));
    assert!(h.find("3").is_none());
}

#[test]
fn history_from_disk_is_kept_as_is() {
    let h = HistoryStore::from_records((0..22).map(|i| record(&i.to_string())).collect());
    assert_eq!(h.all().len(), 22);
    let mut h = h;
    h.save(record("new"));
    assert_eq!(h.all().len(), 20);
    assert_eq!(h.all()[1].id, "0");
}

fn reply(reason: Option<&str>, content: Option<&str>, calls: Vec<ToolCallRequest>) -> AssistantReply {
    AssistantReply {
        finish_reason: reason.map(|s| s.to_string()),
        content: content.map(|s| s.to_string()),
        tool_calls: calls,
    }
}

#[test]
fn reply_decisions() {
    assert!(matches!(decide_reply(&reply(None, Some("done"), vec![])), ReplyAction::Finish(t) if t == "done"));
    assert!(matches!(decide_reply(&reply(Some("end_turn"), None, vec![])), ReplyAction::Finish(t) if t.is_empty()));
    assert!(matches!(decide_reply(&reply(Some("length"), Some("x"), vec![])), ReplyAction::Continue));
    let call = ToolCallRequest {
        id: Some("c1".to_string()),
        name: Some("key_combo".to_string()),
        arguments: Some("{\"keys\": \"ctrl+c\", \"x\": 1.5}".to_string()),
    };
    let nameless = ToolCallRequest { id: None, name: None, arguments: None };
    match decide_reply(&reply(Some("tool_calls"), None, vec![call, nameless])) {
        ReplyAction::RunTools(calls) => {
            assert_eq!(calls.len(), 2);
            assert_eq!(calls[0].call_id, "c1");
            assert!(matches!(&calls[0].request, ToolRequest::KeyCombo { keys } if keys == "ctrl+c"));
            assert_eq!(calls[1].call_id, "");
            assert!(matches!(&calls[1].request, ToolRequest::Unknown { name } if name.is_empty()));
        }
        other => panic!("{:?}", other),
    }
}

fn user_parts() -> ChatMessage {
    ChatMessage::User(Content::Parts(vec![
        ContentPart::Image { url: "data:x".to_string(), detail: Some("low".to_string()) },
        ContentPart::Text("look".to_string()),
    ]))
}

#[test]
fn images_before_the_cut_are_left_out() {
    let msgs = vec![
        user_parts(),
        ChatMessage::User(Content::Parts(vec![ContentPart::Image { url: "u".to_string(), detail: None }])),
        ChatMessage::Tool { call_id: "c".to_string(), content: "ok".to_string() },
    ];
    let out = strip_images(&msgs, 3);
    match &out[0] {
        ChatMessage::User(Content::Parts(p)) => {
            assert_eq!(p.len(), 1);
            assert!(matches!(&p[0], ContentPart::Text(t) if t == "look"));
        }
        other => panic!("{:?}", other),
    }
    assert!(matches!(&out[1], ChatMessage::User(Content::Text(t)) if t == "[screenshot]"));
    assert!(matches!(&out[2], ChatMessage::Tool { content, .. } if content == "ok"));
}

#[test]
fn images_from_the_cut_on_are_kept() {
    let msgs = vec![user_parts(), ChatMessage::Assistant("{}".to_string()), user_parts()];
    let out = strip_images(&msgs, 2);
    assert!(matches!(&out[0], ChatMessage::User(Content::Parts(p)) if p.len() == 1));
    assert_eq!(format!("{:?}", out[2]), format!("{:?}", user_parts()));
    assert_eq!(newest_start_of(&msgs), 2);
    assert_eq!(newest_start_of(&vec![user_parts()]), 0);
    assert_eq!(newest_start_of(&vec![]), 0);
}

#[test]
fn the_newest_screenshot_reaches_the_model() {
    // The user's message with the activation screenshot is sent whole.
    let mut run = AgentRun::new(vec![new_user_message("hi".to_string(), Some(b"png".to_vec()))], 3);
    let req = run.start_turn().unwrap();
    match &req[1] {
        ChatMessage::User(Content::Parts(p)) => {
            assert!(matches!(&p[0], ContentPart::Image { url, .. } if url == "data:image/png;base64,cG5n"));
            assert!(matches!(&p[1], ContentPart::Text(t) if t == "hi"));
        }
        other => panic!("{:?}", other),
    }
    // After a reply and a tool's screenshot, the new screenshot is sent whole
    // and the older one is left out.
    run.on_reply("{}".to_string(), &reply(Some("tool_calls"), None, vec![]));
    run.record_tool_result("c1".to_string(), ToolResult::Screenshot("/tmp/s.png".to_string()));
    run.record_screenshot(Ok(b"hi".to_vec()));
    let req = run.start_turn().unwrap();
    assert_eq!(req.len(), 5);
    assert!(matches!(&req[1], ChatMessage::User(Content::Parts(p)) if p.len() == 1));
    match &req[4] {
        ChatMessage::User(Content::Parts(p)) => {
            assert!(matches!(&p[0], ContentPart::Image { url, .. } if url == "data:image/png;base64,aGk="));
        }
        other => panic!("{:?}", other),
    }
}

#[test]
fn turn_budget_is_kept() {
    let mut run = AgentRun::new(vec![user_parts()], 2);
    let first = run.start_turn().expect("first turn");
    assert_eq!(first.len(), 2);
    assert!(matches!(&first[0], ChatMessage::System(s) if s == SYSTEM_PROMPT));
    assert!(run.start_turn().is_some());
    assert!(run.start_turn().is_none());
    assert_eq!(out_of_turns_error(), "Max turns reached");
}

#[test]
fn tool_results_and_screenshots_join_the_conversation() {
    let mut run = AgentRun::new(vec![], 5);
    let action = run.on_reply("{\"role\":\"assistant\"}".to_string(), &reply(Some("tool_calls"), None, vec![]));
    assert!(matches!(action, ReplyAction::RunTools(c) if c.is_empty()));
    run.record_tool_result("c1".to_string(), ToolResult::Screenshot("/tmp/s.png".to_string()));
    run.record_tool_result("c2".to_string(), ToolResult::Text("done".to_string()));
    assert_eq!(run.take_screenshots(), vec!["/tmp/s.png".to_string()]);
    assert!(run.take_screenshots().is_empty());
    run.record_screenshot(Ok(b"hi".to_vec()));
    run.record_screenshot(Err("gone".to_string()));
    let h = run.into_history();
    assert_eq!(h.len(), 5);
    assert!(matches!(&h[0], ChatMessage::Assistant(j) if j == "{\"role\":\"assistant\"}"));
    assert!(matches!(&h[1], ChatMessage::Tool { call_id, content } if call_id == "c1" && content == "Screenshot captured."));
    assert!(matches!(&h[2], ChatMessage::Tool { content, .. } if content == "done"));
    match &h[3] {
        ChatMessage::User(Content::Parts(p)) => {
            assert!(matches!(&p[0], ContentPart::Image { url, detail: Some(d) } if url == "data:image/png;base64,aGk=" && d == "low"));
            assert!(matches!(&p[1], ContentPart::Text(t) if t == "Current screen state. Continue based on what you see."));
        }
        other => panic!("{:?}", other),
    }
    assert!(matches!(&h[4], ChatMessage::User(Content::Text(t)) if t == "Screenshot read error: gone"));
}

#[test]
fn conversation_keeps_committed_runs_only() {
    let mut c = Conversation::new();
    let run = c.begin_run(new_user_message("hello".to_string(), None), 25);
    c.commit(run);
    let run2 = c.begin_run(new_user_message("again".to_string(), Some(b"png".to_vec())), 25);
    // An abandoned run leaves the conversation as it was.
    drop(run2);
    let mut run3 = c.begin_run(new_user_message("third".to_string(), None), 1);
    let req = run3.start_turn().unwrap();
    assert_eq!(req.len(), 3);
    assert!(matches!(&req[1], ChatMessage::User(Content::Text(t)) if t == "hello"));
    assert!(matches!(&req[2], ChatMessage::User(Content::Text(t)) if t == "third"));
    c.clear();
    let mut run4 = c.begin_run(new_user_message("x".to_string(), None), 1);
    assert_eq!(run4.start_turn().unwrap().len(), 2);
}

#[test]
fn stripping_twice_is_stripping_once() {
    let msgs = vec![
        user_parts(),
        ChatMessage::User(Content::Parts(vec![ContentPart::Image { url: "u".to_string(), detail: None }])),
        ChatMessage::Assistant("{}".to_string()),
    ];
    let once = strip_images(&msgs, 3);
    let twice = strip_images(&once, 3);
    assert_eq!(format!("{:?}", once), format!("{:?}", twice));
}

#[test]
fn tool_call_arguments_are_read_from_their_json_text() {
    let call = |args: Option<&str>| ToolCallRequest {
        id: Some("m".to_string()),
        name: Some("mouse_move".to_string()),
        arguments: args.map(|a| a.to_string()),
    };
    let moves = |args: Option<&str>| match decide_reply(&reply(Some("tool_calls"), None, vec![call(args)])) {
        ReplyAction::RunTools(calls) => match &calls[0].request {
            ToolRequest::MouseMove { x, y } => (*x, *y),
            other => panic!("{:?}", other),
        },
        other => panic!("{:?}", other),
    };
    assert_eq!(moves(Some("{\"x\": 10, \"y\": -4}")), (10, -4));
    // A number that is no integer, a string, broken JSON and no text at all read as 0.
    assert_eq!(moves(Some("{\"x\": 2.5, \"y\": \"3\"}")), (0, 0));
    assert_eq!(moves(Some("{\"x\": 10")), (0, 0));
    assert_eq!(moves(Some("[1, 2]")), (0, 0));
    assert_eq!(moves(None), (0, 0));
}

#[test]
fn stream_tokens_come_from_the_first_choice_delta() {
    assert_eq!(stream_token("{\"choices\":[{\"delta\":{\"content\":\"Hi\"}}]}"), Some("Hi".to_string()));
    assert_eq!(stream_token("{\"choices\":[{\"delta\":{\"content\":\"\"}}]}"), None);
    assert_eq!(stream_token("{\"choices\":[{\"delta\":{\"role\":\"assistant\"}}]}"), None);
    assert_eq!(stream_token("{\"choices\":[]}"), None);
    assert_eq!(stream_token("not json"), None);
    assert_eq!(token_of_delta(Some("a".to_string())), Some("a".to_string()));
    assert_eq!(token_of_delta(Some(String::new())), None);
    assert_eq!(token_of_delta(None), None);
}
