use deepseek_adapter::client::ClientBuilder;
use deepseek_adapter::completion::CompletionModel;
use deepseek_adapter::completion::CompletionRequest;
use deepseek_adapter::completion::ToolDefinition;
use deepseek_adapter::completion::DEEPSEEK_CHAT;
use deepseek_adapter::json::Json;

fn chat_model() -> CompletionModel {
    ClientBuilder::new("test-key").build().completion_model(DEEPSEEK_CHAT)
}

fn plain_request(prompt: &str) -> CompletionRequest {
    CompletionRequest {
        chat_history: Vec::new(),
        prompt: prompt.to_string(),
        temperature: None,
        max_tokens: None,
        tools: Vec::new(),
        additional_params: None,
    }
}

fn obj(entries: Vec<(&str, Json)>) -> Json {
    Json::Obj(entries.into_iter().map(|(k, v)| (k.to_string(), v)).collect())
}

#[test]
fn basic_request_scenario() {
    let model = chat_model();
    let mut request = plain_request("Hello, who are you?");
    request.max_tokens = Some(50);
    request.temperature = serde_json::Number::from_f64(0.5);
    let body = model.build_request_body(request);
    let expected = obj(vec![
        ("model", Json::Str("deepseek-chat".to_string())),
        (
            "messages",
            Json::Arr(vec![obj(vec![
                ("role", Json::Str("user".to_string())),
                ("content", Json::Str("Hello, who are you?".to_string())),
            ])]),
        ),
        ("max_tokens", Json::Int(50)),
        (
            "temperature",
            Json::Num(serde_json::Number::from_f64(0.5).unwrap()),
        ),
    ]);
    assert_eq!(body, expected);
    assert!(body.get("tools").is_none());
}

#[test]
fn empty_tool_set_omits_tools_key() {
    let body = chat_model().build_request_body(plain_request("hi"));
    assert!(body.get("tools").is_none());
}

#[test]
fn nonempty_tool_set_emits_tools_array() {
    let mut request = plain_request("hi");
    request.tools = vec![ToolDefinition {
        name: "lookup".to_string(),
        description: "look a thing up".to_string(),
        parameters: obj(vec![("type", Json::Str("object".to_string()))]),
    }];
    let body = chat_model().build_request_body(request);
    let tools = body.get("tools").expect("tools key must be present");
    let expected = Json::Arr(vec![obj(vec![
        ("type", Json::Str("function".to_string())),
        (
            "function",
            obj(vec![
                ("name", Json::Str("lookup".to_string())),
                ("description", Json::Str("look a thing up".to_string())),
                ("parameters", obj(vec![("type", Json::Str("object".to_string()))])),
            ]),
        ),
    ])]);
    assert_eq!(*tools, expected);
}

#[test]
fn max_tokens_defaults_to_2048() {
    let body = chat_model().build_request_body(plain_request("hi"));
    assert_eq!(body.get("max_tokens"), Some(&Json::Int(2048)));
}

#[test]
fn unset_temperature_is_absent() {
    let body = chat_model().build_request_body(plain_request("hi"));
    assert!(body.get("temperature").is_none());
}

#[test]
fn chat_history_keeps_order_and_prompt_is_last() {
    let mut request = plain_request("latest question");
    request.chat_history = vec![
        deepseek_adapter::completion::Message {
            role: "user".to_string(),
            content: "first".to_string(),
        },
        deepseek_adapter::completion::Message {
            role: "assistant".to_string(),
            content: "second".to_string(),
        },
    ];
    let body = chat_model().build_request_body(request);
    let expected = Json::Arr(vec![
        obj(vec![
            ("role", Json::Str("user".to_string())),
            ("content", Json::Str("first".to_string())),
        ]),
        obj(vec![
            ("role", Json::Str("assistant".to_string())),
            ("content", Json::Str("second".to_string())),
        ]),
        obj(vec![
            ("role", Json::Str("user".to_string())),
            ("content", Json::Str("latest question".to_string())),
        ]),
    ]);
    assert_eq!(body.get("messages"), Some(&expected));
}

#[test]
fn override_wins_on_key_conflict() {
    let mut request = plain_request("hi");
    request.additional_params = Some(obj(vec![("max_tokens", Json::Int(99))]));
    let body = chat_model().build_request_body(request);
    assert_eq!(body.get("max_tokens"), Some(&Json::Int(99)));
}

#[test]
fn override_adds_fresh_keys() {
    let mut request = plain_request("hi");
    request.additional_params = Some(obj(vec![("top_p", Json::Num(
        serde_json::Number::from_f64(0.9).unwrap(),
    ))]));
    let body = chat_model().build_request_body(request);
    assert_eq!(
        body.get("top_p"),
        Some(&Json::Num(serde_json::Number::from_f64(0.9).unwrap()))
    );
    assert_eq!(body.get("max_tokens"), Some(&Json::Int(2048)));
}
