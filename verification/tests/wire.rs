use codr::json::Json;
use codr::openai::{
    simple_message, tool_call_result, ChatCompletion, Choice, Function, FunctionCall, Message,
    Role, StreamChunk, Tool, ToolCall,
};
use codr::wire::{messages_to_json, same_text, tool_calls_from_json, tools_to_json};

fn call(id: Option<&str>, index: Option<usize>, name: Option<&str>, arguments: &str) -> ToolCall {
    ToolCall {
        id: id.map(|s| s.to_string()),
        index,
        tool_type: Some("function".to_string()),
        function: FunctionCall {
            name: name.map(|s| s.to_string()),
            arguments: arguments.to_string(),
        },
    }
}

fn asking(calls: Vec<ToolCall>) -> Message {
    Message { role: Some(Role::Assistant), content: None, tool_calls: Some(calls), tool_call_id: None }
}

#[test]
fn simple_message_sets_role_and_content_only() {
    let m = simple_message("Hello".to_string(), Role::User);
    assert_eq!(
        m,
        Message {
            role: Some(Role::User),
            content: Some("Hello".to_string()),
            tool_calls: None,
            tool_call_id: None
        }
    );
}

#[test]
fn tool_call_result_is_a_tool_message_under_the_call_id() {
    let m = tool_call_result("call_1".to_string(), "{}".to_string());
    assert_eq!(
        m,
        Message {
            role: Some(Role::Tool),
            content: Some("{}".to_string()),
            tool_calls: None,
            tool_call_id: Some("call_1".to_string())
        }
    );
}

#[test]
fn role_names_are_the_wire_names() {
    assert_eq!(Role::System.name(), "system");
    assert_eq!(Role::User.name(), "user");
    assert_eq!(Role::Assistant.name(), "assistant");
    assert_eq!(Role::Tool.name(), "tool");
    assert_eq!(Role::from_name("system"), Some(Role::System));
    assert_eq!(Role::from_name("user"), Some(Role::User));
    assert_eq!(Role::from_name("assistant"), Some(Role::Assistant));
    assert_eq!(Role::from_name("tool"), Some(Role::Tool));
    assert_eq!(Role::from_name("User"), None);
    assert_eq!(Role::from_name(""), None);
}

#[test]
fn same_text_compares_characters() {
    assert!(same_text("stop", "stop"));
    assert!(!same_text("stop", "stop "));
    assert!(same_text("", ""));
}

#[test]
fn message_document_holds_no_member_for_an_unset_field() {
    let m = simple_message("Hello".to_string(), Role::User);
    assert_eq!(m.to_json().to_text(), "{\"content\":\"Hello\",\"role\":\"user\"}");
    let empty = Message { role: None, content: None, tool_calls: None, tool_call_id: None };
    assert_eq!(empty.to_json(), Json::Object(vec![]));
    assert_eq!(empty.to_json().to_text(), "{}");
}

#[test]
fn message_document_lists_members_in_field_order() {
    let m = Message {
        role: Some(Role::Tool),
        content: Some("r".to_string()),
        tool_calls: Some(vec![]),
        tool_call_id: Some("id".to_string()),
    };
    assert_eq!(
        m.to_json(),
        Json::Object(vec![
            ("role".to_string(), Json::Str("tool".to_string())),
            ("content".to_string(), Json::Str("r".to_string())),
            ("tool_calls".to_string(), Json::Array(vec![])),
            ("tool_call_id".to_string(), Json::Str("id".to_string())),
        ])
    );
}

#[test]
fn tool_call_document_has_the_wire_shape() {
    let c = call(Some("call_1"), Some(0), Some("read_file"), "{\"file_path\":\"a\"}");
    assert_eq!(
        c.to_json().to_text(),
        "{\"function\":{\"arguments\":\"{\\\"file_path\\\":\\\"a\\\"}\",\"name\":\"read_file\"},\"id\":\"call_1\",\"index\":0,\"type\":\"function\"}"
    );
    let bare = ToolCall {
        id: None,
        index: None,
        tool_type: None,
        function: FunctionCall { name: None, arguments: String::new() },
    };
    assert_eq!(bare.to_json().to_text(), "{\"function\":{\"arguments\":\"\"}}");
}

#[test]
fn message_round_trip_keeps_every_field() {
    let messages = vec![
        simple_message("You are helpful".to_string(), Role::System),
        simple_message("List files".to_string(), Role::User),
        asking(vec![
            call(Some("call_1"), Some(0), Some("get_folder_files"), "{\"folder_path\": \"./src\"}"),
            call(None, None, None, ""),
        ]),
        asking(vec![]),
        tool_call_result("call_1".to_string(), "{\"files\":[]}".to_string()),
        Message { role: None, content: None, tool_calls: None, tool_call_id: None },
        Message { role: None, content: Some(String::new()), tool_calls: None, tool_call_id: None },
    ];
    for m in messages {
        assert_eq!(Message::from_json(&m.to_json()), Some(m.clone()));
        let text = m.to_json().to_text();
        assert!(!text.contains("null"));
        let reread = Json::parse_text(&text).unwrap();
        assert_eq!(Message::from_json(&reread), Some(m));
    }
}

#[test]
fn tool_call_round_trip_keeps_the_largest_index() {
    let c = call(Some("x"), Some(usize::MAX), Some("n"), "{}");
    assert_eq!(ToolCall::from_json(&c.to_json()), Some(c));
}

#[test]
fn function_call_round_trip() {
    let f = FunctionCall { name: Some("n".to_string()), arguments: "{\"a\":1}".to_string() };
    assert_eq!(FunctionCall::from_json(&f.to_json()), Some(f));
}

#[test]
fn message_reads_null_and_missing_members_as_unset() {
    let j = Json::parse_text(
        "{\"role\": null, \"content\": null, \"tool_calls\": null, \"refusal\": null, \"extra\": 1}",
    )
    .unwrap();
    assert_eq!(
        Message::from_json(&j),
        Some(Message { role: None, content: None, tool_calls: None, tool_call_id: None })
    );
}

#[test]
fn message_rejects_members_of_the_wrong_kind() {
    let cases = [
        "[]",
        "\"text\"",
        "{\"role\": \"robot\"}",
        "{\"role\": 1}",
        "{\"content\": 5}",
        "{\"tool_calls\": {}}",
        "{\"tool_calls\": [{\"id\": \"x\"}]}",
        "{\"tool_call_id\": []}",
    ];
    for text in cases {
        let j = Json::parse_text(text).unwrap();
        assert_eq!(Message::from_json(&j), None);
    }
}

#[test]
fn tool_call_needs_a_function_with_arguments() {
    let cases = [
        "{}",
        "{\"function\": null}",
        "{\"function\": {\"name\": \"n\"}}",
        "{\"function\": {\"arguments\": null}}",
        "{\"function\": {\"arguments\": \"\"}, \"index\": -1}",
        "{\"function\": {\"arguments\": \"\"}, \"index\": 1.5}",
        "{\"function\": {\"arguments\": \"\"}, \"id\": 3}",
        "{\"function\": {\"arguments\": \"\", \"name\": 3}}",
    ];
    for text in cases {
        let j = Json::parse_text(text).unwrap();
        assert_eq!(ToolCall::from_json(&j), None);
    }
    let ok = Json::parse_text("{\"function\": {\"arguments\": \"{\"}, \"index\": 2}").unwrap();
    assert_eq!(ToolCall::from_json(&ok), Some(ToolCall {
        id: None,
        index: Some(2),
        tool_type: None,
        function: FunctionCall { name: None, arguments: "{".to_string() },
    }));
}

#[test]
fn tool_calls_from_json_reads_all_or_nothing() {
    let good = call(Some("a"), None, Some("n"), "{}");
    assert_eq!(
        tool_calls_from_json(&vec![good.to_json(), good.to_json()]),
        Some(vec![good.clone(), good.clone()])
    );
    assert_eq!(tool_calls_from_json(&vec![good.to_json(), Json::Null]), None);
    assert_eq!(tool_calls_from_json(&vec![]), Some(vec![]));
}

#[test]
fn choice_reads_message_delta_and_finish_reason() {
    let j = Json::parse_text(
        "{\"index\": 0, \"delta\": {\"content\": \"Hi\"}, \"finish_reason\": \"stop\"}",
    )
    .unwrap();
    assert_eq!(
        Choice::from_json(&j),
        Some(Choice {
            message: None,
            delta: Some(Message {
                role: None,
                content: Some("Hi".to_string()),
                tool_calls: None,
                tool_call_id: None
            }),
            finish_reason: Some("stop".to_string()),
        })
    );
    let bad = Json::parse_text("{\"message\": 3}").unwrap();
    assert_eq!(Choice::from_json(&bad), None);
    let bad_reason = Json::parse_text("{\"finish_reason\": 3}").unwrap();
    assert_eq!(Choice::from_json(&bad_reason), None);
}

#[test]
fn completion_needs_a_list_of_choices() {
    let j = Json::parse_text(
        "{\"id\": \"x\", \"choices\": [{\"message\": {\"role\": \"assistant\", \"content\": \"Hi\"}}]}",
    )
    .unwrap();
    let read = ChatCompletion::from_json(&j).unwrap();
    assert_eq!(read.choices.len(), 1);
    assert_eq!(
        read.choices[0].message,
        Some(simple_message("Hi".to_string(), Role::Assistant))
    );
    assert_eq!(
        ChatCompletion::from_json(&Json::parse_text("{\"choices\": []}").unwrap()),
        Some(ChatCompletion { choices: vec![] })
    );
    for text in ["{}", "{\"choices\": null}", "{\"choices\": {}}", "{\"choices\": [1]}", "[]"] {
        assert_eq!(ChatCompletion::from_json(&Json::parse_text(text).unwrap()), None);
    }
}

#[test]
fn stream_chunk_needs_object_created_model_and_choices() {
    let j = Json::parse_text(
        "{\"object\": \"chat.completion.chunk\", \"created\": 1700000000, \"model\": \"m\", \"choices\": []}",
    )
    .unwrap();
    assert_eq!(
        StreamChunk::from_json(&j),
        Some(StreamChunk {
            object: "chat.completion.chunk".to_string(),
            created: 1700000000,
            model: "m".to_string(),
            choices: vec![],
        })
    );
    let negative =
        Json::parse_text("{\"object\": \"o\", \"created\": -5, \"model\": \"m\", \"choices\": []}")
            .unwrap();
    assert_eq!(StreamChunk::from_json(&negative).map(|c| c.created), Some(-5));
    let cases = [
        "{\"created\": 1, \"model\": \"m\", \"choices\": []}",
        "{\"object\": \"o\", \"model\": \"m\", \"choices\": []}",
        "{\"object\": \"o\", \"created\": 1, \"choices\": []}",
        "{\"object\": \"o\", \"created\": 1, \"model\": \"m\"}",
        "{\"object\": \"o\", \"created\": 9223372036854775808, \"model\": \"m\", \"choices\": []}",
        "{\"object\": \"o\", \"created\": 1.0, \"model\": \"m\", \"choices\": []}",
    ];
    for text in cases {
        assert_eq!(StreamChunk::from_json(&Json::parse_text(text).unwrap()), None);
    }
}

#[test]
fn conversation_and_tools_documents_are_lists() {
    let messages = vec![simple_message("a".to_string(), Role::User)];
    assert_eq!(
        messages_to_json(&messages).to_text(),
        "[{\"content\":\"a\",\"role\":\"user\"}]"
    );
    let tools = vec![Tool {
        tool_type: "function".to_string(),
        function: Function {
            name: "get_weather".to_string(),
            description: "Get the current weather at the location".to_string(),
            parameters: Json::Object(vec![("type".to_string(), Json::Str("object".to_string()))]),
        },
    }];
    assert_eq!(
        tools_to_json(&tools).to_text(),
        "[{\"function\":{\"description\":\"Get the current weather at the location\",\"name\":\"get_weather\",\"parameters\":{\"type\":\"object\"}},\"type\":\"function\"}]"
    );
}
