use codr::client::{open_stream, read_completion, status_is_success, OpenAIClient, Reply};
use codr::error::Error;
use codr::json::Json;
use codr::openai::{simple_message, Function, Role, Tool};

fn client() -> OpenAIClient {
    OpenAIClient::new(
        "https://api.example.com/v1/".to_string(),
        "SECRET".to_string(),
        "model-x".to_string(),
    )
}

fn weather_tool() -> Tool {
    Tool {
        tool_type: "function".to_string(),
        function: Function {
            name: "get_weather".to_string(),
            description: "Get the current weather at the location".to_string(),
            parameters: Json::parse_text(
                "{\"type\":\"object\",\"properties\":{\"location\":{\"type\":\"string\",\"description\":\"The location to get the weather for\"}}}",
            )
            .unwrap(),
        },
    }
}

#[test]
fn new_drops_the_slashes_at_the_end_of_the_address() {
    let cases = [
        ("https://h/v1", "https://h/v1"),
        ("https://h/v1/", "https://h/v1"),
        ("https://h/v1///", "https://h/v1"),
        ("/", ""),
        ("//", ""),
        ("", ""),
        ("caf\u{e9}/", "caf\u{e9}"),
        ("a/b", "a/b"),
    ];
    for (given, kept) in cases {
        let c = OpenAIClient::new(given.to_string(), "k".to_string(), "m".to_string());
        assert_eq!(c.base_url, kept);
        assert_eq!(c.api_key, "k");
        assert_eq!(c.model, "m");
    }
}

#[test]
fn buffered_request_posts_model_and_messages() {
    let messages = vec![
        simple_message("Hello, how are you?".to_string(), Role::User),
        simple_message("I'm fine, thank you!".to_string(), Role::Assistant),
    ];
    let request = client().chat_completion(&messages, None);
    assert_eq!(request.url, "https://api.example.com/v1/chat/completions");
    assert_eq!(request.authorization, "Bearer SECRET");
    assert_eq!(
        request.body.to_text(),
        "{\"messages\":[{\"content\":\"Hello, how are you?\",\"role\":\"user\"},{\"content\":\"I'm fine, thank you!\",\"role\":\"assistant\"}],\"model\":\"model-x\"}"
    );
    assert_eq!(request.body.get("tools"), None);
    assert_eq!(request.body.get("stream"), None);
}

#[test]
fn request_offers_the_tools() {
    let messages = vec![simple_message("What is the weather in London?".to_string(), Role::User)];
    let request = client().chat_completion(&messages, Some(Box::new(vec![weather_tool()])));
    let tools = request.body.get("tools").unwrap();
    assert_eq!(
        tools.to_text(),
        "[{\"function\":{\"description\":\"Get the current weather at the location\",\"name\":\"get_weather\",\"parameters\":{\"properties\":{\"location\":{\"description\":\"The location to get the weather for\",\"type\":\"string\"}},\"type\":\"object\"}},\"type\":\"function\"}]"
    );
}

#[test]
fn streamed_request_sets_the_stream_flag() {
    let messages = vec![simple_message("Hello, how are you?".to_string(), Role::User)];
    let request = client().chat_completion_stream(&messages, None);
    assert_eq!(request.url, "https://api.example.com/v1/chat/completions");
    assert_eq!(request.authorization, "Bearer SECRET");
    assert_eq!(request.body.get("stream"), Some(&Json::Bool(true)));
    assert_eq!(
        request.body,
        Json::Object(vec![
            ("model".to_string(), Json::Str("model-x".to_string())),
            (
                "messages".to_string(),
                Json::Array(vec![Json::Object(vec![
                    ("role".to_string(), Json::Str("user".to_string())),
                    ("content".to_string(), Json::Str("Hello, how are you?".to_string())),
                ])])
            ),
            ("stream".to_string(), Json::Bool(true)),
        ])
    );
}

#[test]
fn success_is_a_status_from_200_to_299() {
    assert!(!status_is_success(199));
    assert!(status_is_success(200));
    assert!(status_is_success(204));
    assert!(status_is_success(299));
    assert!(!status_is_success(300));
    assert!(!status_is_success(404));
    assert!(!status_is_success(0));
    assert!(!status_is_success(u16::MAX));
}

#[test]
fn reply_of_the_right_shape_is_the_answer() {
    let reply = Reply::Answered {
        status: 200,
        body: "{\"choices\":[{\"message\":{\"role\":\"assistant\",\"content\":\"Hi\"}}]}".to_string(),
    };
    let answer = read_completion(reply).unwrap();
    assert!(!answer.choices.is_empty());
    assert_eq!(
        answer.choices[0].message,
        Some(simple_message("Hi".to_string(), Role::Assistant))
    );
}

#[test]
fn reply_with_a_tool_call_is_read() {
    let reply = Reply::Answered {
        status: 200,
        body: "{\"choices\":[{\"message\":{\"role\":\"assistant\",\"content\":null,\"tool_calls\":[{\"id\":\"call_1\",\"type\":\"function\",\"function\":{\"name\":\"get_weather\",\"arguments\":\"{\\\"location\\\":\\\"london\\\"}\"}}]}}]}".to_string(),
    };
    let answer = read_completion(reply).unwrap();
    let calls = answer.choices[0].message.clone().unwrap().tool_calls.unwrap();
    assert_eq!(calls.len(), 1);
    assert_eq!(calls[0].function.name, Some("get_weather".to_string()));
    assert_eq!(calls[0].function.arguments, "{\"location\":\"london\"}");
}

#[test]
fn unreachable_endpoint_is_a_transport_failure() {
    assert_eq!(read_completion(Reply::Unreachable), Err(Error::Transport));
}

#[test]
fn status_outside_success_is_a_remote_failure_with_the_body() {
    for status in [199u16, 300, 401, 404, 500] {
        let reply = Reply::Answered { status, body: "{\"choices\":[]}".to_string() };
        assert_eq!(
            read_completion(reply),
            Err(Error::Remote { status, body: "{\"choices\":[]}".to_string() })
        );
    }
}

#[test]
fn body_of_another_shape_is_a_decode_failure() {
    for body in ["", "not json", "{}", "{\"choices\": 1}", "{\"choices\": [{\"message\": 1}]}"] {
        let reply = Reply::Answered { status: 200, body: body.to_string() };
        assert_eq!(read_completion(reply), Err(Error::Decode));
    }
}

#[test]
fn stream_opens_on_success_only() {
    let engine = open_stream(Reply::Answered { status: 200, body: String::new() }).unwrap();
    assert!(engine.pending.is_empty());
    assert_eq!(engine.content, "");
    assert!(engine.call.is_none());
    assert!(!engine.done);
    assert_eq!(open_stream(Reply::Unreachable).err(), Some(Error::Transport));
    assert_eq!(
        open_stream(Reply::Answered { status: 429, body: "slow down".to_string() }).err(),
        Some(Error::Remote { status: 429, body: "slow down".to_string() })
    );
}

#[test]
fn failures_in_words() {
    assert_eq!(Error::Transport.message(), "Request failed");
    assert_eq!(Error::Decode.message(), "Failed to parse response");
    assert_eq!(Error::EmptyResponse.message(), "No choices returned from API");
    assert_eq!(
        Error::Remote { status: 500, body: "boom".to_string() }.message(),
        "boom"
    );
    assert_eq!(
        Error::ToolArgument("expected value at line 1 column 16".to_string()).message(),
        "Failed to parse arguments: expected value at line 1 column 16"
    );
    assert_eq!(Error::ToolExecution("Tool not found".to_string()).message(), "Tool not found");
}

#[test]
fn only_tool_failures_do_not_end_the_turn() {
    assert!(Error::Transport.is_fatal());
    assert!(Error::Remote { status: 500, body: String::new() }.is_fatal());
    assert!(Error::Decode.is_fatal());
    assert!(Error::EmptyResponse.is_fatal());
    assert!(!Error::ToolArgument(String::new()).is_fatal());
    assert!(!Error::ToolExecution(String::new()).is_fatal());
}
