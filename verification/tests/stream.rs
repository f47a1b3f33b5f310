use codr::json::Json;
use codr::openai::{
    Choice, FunctionCall, Message, Role, StreamChannelChunk, StreamChunk, ToolCall,
};
use codr::stream::{Reassembler, StreamEvent};

fn text_line(content: &str) -> String {
    format!(
        "data: {{\"object\":\"chat.completion.chunk\",\"created\":1,\"model\":\"m\",\"choices\":[{{\"index\":0,\"delta\":{{\"content\":{}}},\"finish_reason\":null}}]}}\n",
        Json::string(content).to_text()
    )
}

fn finish_line(reason: &str) -> String {
    format!(
        "data: {{\"object\":\"chat.completion.chunk\",\"created\":1,\"model\":\"m\",\"choices\":[{{\"index\":0,\"delta\":{{}},\"finish_reason\":\"{}\"}}]}}\n",
        reason
    )
}

fn fragment_line(id: Option<&str>, name: Option<&str>, arguments: &str) -> String {
    let mut function = vec![("arguments".to_string(), Json::string(arguments))];
    if let Some(n) = name {
        function.push(("name".to_string(), Json::string(n)));
    }
    let mut call = vec![("function".to_string(), Json::Object(function)), ("index".to_string(), Json::Uint(0))];
    if let Some(i) = id {
        call.push(("id".to_string(), Json::string(i)));
        call.push(("type".to_string(), Json::string("function")));
    }
    format!(
        "data: {{\"object\":\"chat.completion.chunk\",\"created\":1,\"model\":\"m\",\"choices\":[{{\"index\":0,\"delta\":{{\"tool_calls\":[{}]}},\"finish_reason\":null}}]}}\n",
        Json::Object(call).to_text()
    )
}

fn feed_whole(bytes: &[u8]) -> (Vec<StreamEvent>, Reassembler) {
    let mut engine = Reassembler::new();
    let events = engine.feed(bytes);
    (events, engine)
}

fn sample_stream() -> String {
    let mut s = String::new();
    s.push_str(": keep-alive\n");
    s.push_str(&text_line("Hel"));
    s.push_str("\n");
    s.push_str("data: not json at all\r\n");
    s.push_str(&text_line("lo \u{1F600}"));
    s.push_str("data: [DONE]\n");
    s.push_str(&text_line("!").replace('\n', "\r\n"));
    s.push_str(&finish_line("stop"));
    s.push_str(&text_line("after the end"));
    s
}

#[test]
fn whole_stream_gives_text_deltas_then_finished() {
    let (events, engine) = feed_whole(sample_stream().as_bytes());
    assert_eq!(
        events,
        vec![
            StreamEvent::TextDelta("Hel".to_string()),
            StreamEvent::TextDelta("lo \u{1F600}".to_string()),
            StreamEvent::TextDelta("!".to_string()),
            StreamEvent::Finished("Hello \u{1F600}!".to_string()),
        ]
    );
    assert!(engine.done);
    assert!(engine.pending.is_empty());
    assert_eq!(engine.content, "Hello \u{1F600}!");
}

#[test]
fn events_do_not_depend_on_where_the_stream_is_cut() {
    let stream = sample_stream();
    let bytes = stream.as_bytes();
    let (whole, end) = feed_whole(bytes);
    for cut in 0..=bytes.len() {
        let mut engine = Reassembler::new();
        let mut events = engine.feed(&bytes[..cut]);
        events.extend(engine.feed(&bytes[cut..]));
        assert_eq!(events, whole);
        assert_eq!(engine.content, end.content);
        assert_eq!(engine.pending, end.pending);
        assert_eq!(engine.done, end.done);
    }
}

#[test]
fn events_do_not_depend_on_the_chunk_size() {
    let stream = sample_stream();
    let bytes = stream.as_bytes();
    let (whole, _) = feed_whole(bytes);
    for size in [1usize, 2, 3, 7, 64] {
        let mut engine = Reassembler::new();
        let mut events = Vec::new();
        for chunk in bytes.chunks(size) {
            events.extend(engine.feed(chunk));
        }
        assert_eq!(events, whole);
    }
}

#[test]
fn incomplete_line_waits_for_its_line_feed() {
    let line = text_line("Hi");
    let bytes = line.as_bytes();
    let mut engine = Reassembler::new();
    assert_eq!(engine.feed(&bytes[..bytes.len() - 1]), vec![]);
    assert_eq!(engine.pending, bytes[..bytes.len() - 1].to_vec());
    assert_eq!(engine.feed(b"\n"), vec![StreamEvent::TextDelta("Hi".to_string())]);
    assert!(engine.pending.is_empty());
}

#[test]
fn line_without_line_feed_at_the_end_is_never_read() {
    let line = text_line("Hi");
    let (events, engine) = feed_whole(line.trim_end().as_bytes());
    assert_eq!(events, vec![]);
    assert_eq!(engine.content, "");
}

#[test]
fn fragments_of_a_tool_call_are_joined_in_order() {
    let whole = "{\"folder_path\": \"./src\"}";
    for first in 0..=whole.len() {
        for second in first..=whole.len() {
            let mut engine = Reassembler::new();
            let mut events = Vec::new();
            events.extend(engine.feed(
                fragment_line(Some("call_1"), Some("get_folder_files"), &whole[..first]).as_bytes(),
            ));
            events.extend(engine.feed(fragment_line(None, None, &whole[first..second]).as_bytes()));
            events.extend(engine.feed(fragment_line(None, None, &whole[second..]).as_bytes()));
            events.extend(engine.feed(finish_line("tool_calls").as_bytes()));
            assert_eq!(events.len(), 4);
            let joined = ToolCall {
                id: Some("call_1".to_string()),
                index: Some(0),
                tool_type: Some("function".to_string()),
                function: FunctionCall {
                    name: Some("get_folder_files".to_string()),
                    arguments: whole.to_string(),
                },
            };
            assert_eq!(events[3], StreamEvent::ToolCallsReady(vec![joined]));
            match &events[3] {
                StreamEvent::ToolCallsReady(calls) => {
                    assert_eq!(
                        Json::parse_text(&calls[0].function.arguments),
                        Json::parse_text(whole)
                    );
                }
                _ => unreachable!(),
            }
            assert!(engine.done);
        }
    }
}

#[test]
fn each_fragment_is_handed_on_as_it_arrived() {
    let mut engine = Reassembler::new();
    let events = engine.feed(fragment_line(Some("c"), Some("n"), "{\"a\"").as_bytes());
    assert_eq!(
        events,
        vec![StreamEvent::ToolCallDelta(ToolCall {
            id: Some("c".to_string()),
            index: Some(0),
            tool_type: Some("function".to_string()),
            function: FunctionCall { name: Some("n".to_string()), arguments: "{\"a\"".to_string() },
        })]
    );
    let events = engine.feed(fragment_line(None, None, ":1}").as_bytes());
    assert_eq!(
        events,
        vec![StreamEvent::ToolCallDelta(ToolCall {
            id: None,
            index: Some(0),
            tool_type: None,
            function: FunctionCall { name: None, arguments: ":1}".to_string() },
        })]
    );
    assert_eq!(engine.call.as_ref().unwrap().function.arguments, "{\"a\":1}");
}

#[test]
fn text_is_not_taken_while_a_tool_call_is_joined() {
    let mut engine = Reassembler::new();
    let mut events = engine.feed(text_line("before").as_bytes());
    events.extend(engine.feed(fragment_line(Some("c"), Some("n"), "{}").as_bytes()));
    events.extend(engine.feed(text_line("during").as_bytes()));
    assert_eq!(events.len(), 2);
    assert_eq!(events[0], StreamEvent::TextDelta("before".to_string()));
    assert_eq!(engine.content, "before");
}

#[test]
fn tool_calls_finish_without_a_call_gives_an_empty_list() {
    let (events, engine) = feed_whole(finish_line("tool_calls").as_bytes());
    assert_eq!(events, vec![StreamEvent::ToolCallsReady(vec![])]);
    assert!(engine.done);
}

#[test]
fn text_of_the_finishing_choice_is_handed_on_before_the_end() {
    let line = "data: {\"object\":\"o\",\"created\":1,\"model\":\"m\",\"choices\":[{\"delta\":{\"content\":\"done\"},\"finish_reason\":\"stop\"}]}\n";
    let (events, _) = feed_whole(line.as_bytes());
    assert_eq!(
        events,
        vec![
            StreamEvent::TextDelta("done".to_string()),
            StreamEvent::Finished("done".to_string())
        ]
    );
}

#[test]
fn another_finish_reason_ends_the_delta_only() {
    let line = "data: {\"object\":\"o\",\"created\":1,\"model\":\"m\",\"choices\":[{\"delta\":{\"content\":\"a\"},\"finish_reason\":\"length\"},{\"delta\":{\"content\":\"skipped\"}}]}\n";
    let mut engine = Reassembler::new();
    assert_eq!(engine.feed(line.as_bytes()), vec![StreamEvent::TextDelta("a".to_string())]);
    assert!(!engine.done);
    assert_eq!(engine.feed(text_line("b").as_bytes()), vec![StreamEvent::TextDelta("b".to_string())]);
    assert_eq!(engine.content, "ab");
}

#[test]
fn choices_of_one_delta_are_applied_in_order() {
    let line = "data: {\"object\":\"o\",\"created\":1,\"model\":\"m\",\"choices\":[{\"delta\":{\"content\":\"a\"}},{\"delta\":{\"content\":\"b\"}},{\"delta\":null}]}\n";
    let (events, engine) = feed_whole(line.as_bytes());
    assert_eq!(
        events,
        vec![StreamEvent::TextDelta("a".to_string()), StreamEvent::TextDelta("b".to_string())]
    );
    assert_eq!(engine.content, "ab");
}

#[test]
fn only_the_first_fragment_of_a_delta_is_taken() {
    let line = "data: {\"object\":\"o\",\"created\":1,\"model\":\"m\",\"choices\":[{\"delta\":{\"tool_calls\":[{\"function\":{\"arguments\":\"A\"}},{\"function\":{\"arguments\":\"B\"}}]}}]}\n";
    let (events, engine) = feed_whole(line.as_bytes());
    assert_eq!(events.len(), 1);
    assert_eq!(engine.call.unwrap().function.arguments, "A");
}

#[test]
fn lines_that_carry_no_event_change_nothing() {
    let lines = [
        "\n",
        "\r\n",
        "event: ping\n",
        "data:{\"no\":\"space after the colon\"}\n",
        "data: [DONE]\n",
        "data: [DONE]\r\n",
        "data: {\"choices\": []}\n",
        "data: {broken\n",
        "data: \n",
        "data: data: [DONE]\n",
        " data: [DONE]\n",
    ];
    for line in lines {
        let (events, engine) = feed_whole(line.as_bytes());
        assert_eq!(events, vec![]);
        assert!(!engine.done);
        assert!(engine.pending.is_empty());
        assert_eq!(engine.content, "");
    }
}

#[test]
fn nothing_is_read_after_a_terminal_event() {
    let mut engine = Reassembler::new();
    let mut bytes = finish_line("stop").into_bytes();
    bytes.extend_from_slice(text_line("late").as_bytes());
    bytes.extend_from_slice(b"data: half a line");
    assert_eq!(engine.feed(&bytes), vec![StreamEvent::Finished(String::new())]);
    assert!(engine.pending.is_empty());
    assert_eq!(engine.feed(text_line("later").as_bytes()), vec![]);
    assert_eq!(engine.content, "");
    assert!(engine.pending.is_empty());
}

#[test]
fn feed_line_reads_one_line_without_its_line_feed() {
    let mut engine = Reassembler::new();
    let line = text_line("x");
    assert_eq!(
        engine.feed_line(line.trim_end().as_bytes()),
        vec![StreamEvent::TextDelta("x".to_string())]
    );
}

#[test]
fn apply_delta_takes_a_parsed_event() {
    let mut engine = Reassembler::new();
    let chunk = StreamChunk {
        object: "o".to_string(),
        created: 0,
        model: "m".to_string(),
        choices: vec![Choice {
            message: None,
            delta: Some(Message {
                role: Some(Role::Assistant),
                content: Some("hi".to_string()),
                tool_calls: None,
                tool_call_id: None,
            }),
            finish_reason: Some("stop".to_string()),
        }],
    };
    assert_eq!(
        engine.apply_delta(&chunk),
        vec![StreamEvent::TextDelta("hi".to_string()), StreamEvent::Finished("hi".to_string())]
    );
}

#[test]
fn channel_chunks_have_the_three_shapes() {
    let text = StreamEvent::TextDelta("t".to_string()).to_channel_chunk().unwrap();
    assert_eq!(
        text,
        StreamChannelChunk {
            finished: false,
            final_content: None,
            choices: vec![Choice {
                message: None,
                delta: Some(Message {
                    role: None,
                    content: Some("t".to_string()),
                    tool_calls: None,
                    tool_call_id: None
                }),
                finish_reason: None,
            }],
        }
    );
    let end = StreamEvent::Finished("all".to_string()).to_channel_chunk().unwrap();
    assert_eq!(
        end,
        StreamChannelChunk { finished: true, final_content: Some("all".to_string()), choices: vec![] }
    );
    let call = ToolCall {
        id: Some("c".to_string()),
        index: None,
        tool_type: None,
        function: FunctionCall { name: Some("n".to_string()), arguments: "{}".to_string() },
    };
    let ready = StreamEvent::ToolCallsReady(vec![call.clone()]).to_channel_chunk().unwrap();
    assert!(!ready.finished);
    assert_eq!(ready.final_content, None);
    assert_eq!(ready.choices.len(), 1);
    assert_eq!(
        ready.choices[0].delta,
        Some(Message {
            role: Some(Role::Assistant),
            content: None,
            tool_calls: Some(vec![call.clone()]),
            tool_call_id: None
        })
    );
    assert_eq!(StreamEvent::ToolCallDelta(call).to_channel_chunk(), None);
}
