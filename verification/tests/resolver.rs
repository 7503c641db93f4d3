use deepseek_adapter::completion::resolve_api_response;
use deepseek_adapter::completion::resolve_response;
use deepseek_adapter::completion::ApiErrorResponse;
use deepseek_adapter::completion::ApiResponse;
use deepseek_adapter::completion::ChoiceMessage;
use deepseek_adapter::completion::ChoiceObject;
use deepseek_adapter::completion::CompletionError;
use deepseek_adapter::completion::CompletionResponse;
use deepseek_adapter::completion::ModelChoice;
use deepseek_adapter::completion::ToolUse;
use deepseek_adapter::json::Json;

fn response_with(message: ChoiceMessage) -> CompletionResponse {
    CompletionResponse {
        id: "resp-1".to_string(),
        model: "deepseek-chat".to_string(),
        choices: vec![ChoiceObject { message, finish_reason: None, index: 0 }],
    }
}

fn lookup_call() -> ToolUse {
    ToolUse {
        id: "1".to_string(),
        name: "lookup".to_string(),
        arguments: Json::Obj(vec![("q".to_string(), Json::Str("x".to_string()))]),
    }
}

#[test]
fn tool_call_scenario() {
    let resp = response_with(ChoiceMessage { content: None, tool_calls: Some(vec![lookup_call()]) });
    let outcome = resolve_response(resp).expect("tool call must resolve");
    match outcome.choice {
        ModelChoice::ToolCall(name, arguments) => {
            assert_eq!(name, "lookup");
            assert_eq!(
                arguments,
                Json::Obj(vec![("q".to_string(), Json::Str("x".to_string()))])
            );
        }
        ModelChoice::Message(text) => panic!("expected a tool call, got message {text}"),
    }
}

#[test]
fn tool_call_wins_over_content() {
    let resp = response_with(ChoiceMessage {
        content: Some("ignored text".to_string()),
        tool_calls: Some(vec![lookup_call()]),
    });
    let outcome = resolve_response(resp).expect("tool call must resolve");
    assert!(matches!(outcome.choice, ModelChoice::ToolCall(_, _)));
}

#[test]
fn first_tool_call_is_selected() {
    let second = ToolUse {
        id: "2".to_string(),
        name: "other".to_string(),
        arguments: Json::Null,
    };
    let resp = response_with(ChoiceMessage {
        content: None,
        tool_calls: Some(vec![lookup_call(), second]),
    });
    let outcome = resolve_response(resp).expect("tool call must resolve");
    match outcome.choice {
        ModelChoice::ToolCall(name, _) => assert_eq!(name, "lookup"),
        ModelChoice::Message(_) => panic!("expected a tool call"),
    }
}

#[test]
fn plain_text_resolves_to_message() {
    let resp = response_with(ChoiceMessage {
        content: Some("hello there".to_string()),
        tool_calls: None,
    });
    let outcome = resolve_response(resp).expect("text must resolve");
    match outcome.choice {
        ModelChoice::Message(text) => assert_eq!(text, "hello there"),
        ModelChoice::ToolCall(_, _) => panic!("expected a message"),
    }
}

#[test]
fn empty_tool_call_list_falls_back_to_content() {
    let resp = response_with(ChoiceMessage {
        content: Some("still text".to_string()),
        tool_calls: Some(Vec::new()),
    });
    let outcome = resolve_response(resp).expect("text must resolve");
    assert!(matches!(outcome.choice, ModelChoice::Message(_)));
}

#[test]
fn empty_choices_scenario() {
    let resp = CompletionResponse {
        id: "resp-1".to_string(),
        model: "deepseek-chat".to_string(),
        choices: Vec::new(),
    };
    match resolve_response(resp) {
        Err(CompletionError::ResponseError(msg)) => assert_eq!(msg, "No choices found"),
        other => panic!("expected a response error, got {:?}", other.is_ok()),
    }
}

#[test]
fn neither_content_nor_tool_call_is_an_error() {
    let resp = response_with(ChoiceMessage { content: None, tool_calls: None });
    match resolve_response(resp) {
        Err(CompletionError::ResponseError(msg)) => {
            assert_eq!(msg, "No content or tool call in response")
        }
        other => panic!("expected a response error, got {:?}", other.is_ok()),
    }
}

#[test]
fn raw_response_is_kept() {
    let resp = response_with(ChoiceMessage {
        content: Some("hello".to_string()),
        tool_calls: None,
    });
    let outcome = resolve_response(resp).expect("text must resolve");
    assert_eq!(outcome.raw_response.id, "resp-1");
    assert_eq!(outcome.raw_response.model, "deepseek-chat");
}

#[test]
fn vendor_error_maps_to_provider_error() {
    let api: ApiResponse<CompletionResponse> =
        ApiResponse::Error(ApiErrorResponse { message: "quota exceeded".to_string() });
    match resolve_api_response(api) {
        Err(CompletionError::ProviderError(msg)) => assert_eq!(msg, "quota exceeded"),
        other => panic!("expected a provider error, got {:?}", other.is_ok()),
    }
}

#[test]
fn success_envelope_resolves_payload() {
    let api = ApiResponse::Success(response_with(ChoiceMessage {
        content: Some("hi".to_string()),
        tool_calls: None,
    }));
    let outcome = resolve_api_response(api).expect("payload must resolve");
    assert!(matches!(outcome.choice, ModelChoice::Message(_)));
}
