use rusty_cli::msg::{FunctionCall, Message, ToolCall};
use rusty_cli::wire::{encode_call_params, encode_completion_body, encode_request_line};

fn user(text: &str) -> Message {
    Message {
        role: "user".to_string(),
        content: Some(text.to_string()),
        tool_calls: None,
        tool_call_id: None,
    }
}

#[test]
fn completion_body_plain() {
    let model = "deepseek-chat".to_string();
    let ms = vec![user("2+2?")];
    let body = encode_completion_body(&model, &ms, 7, None, false);
    assert_eq!(
        body,
        "{\"model\":\"deepseek-chat\",\"messages\":[{\"role\":\"user\",\"content\":\"2+2?\"}],\"temperature\":0.7,\"stream\":false}"
    );
}

#[test]
fn completion_body_is_valid_json() {
    let model = "m".to_string();
    let ms = vec![
        Message {
            role: "system".to_string(),
            content: Some("a \"quoted\"\nline\twith \\ specials".to_string()),
            tool_calls: None,
            tool_call_id: None,
        },
        user("hi"),
    ];
    let body = encode_completion_body(&model, &ms, 10, None, true);
    let parsed: serde_json::Value = serde_json::from_str(&body).expect("encoder must emit JSON");
    assert_eq!(parsed["model"], serde_json::Value::String("m".to_string()));
    assert_eq!(
        parsed["messages"][0]["content"],
        serde_json::Value::String("a \"quoted\"\nline\twith \\ specials".to_string())
    );
    assert_eq!(parsed["temperature"].to_string(), "1.0");
    assert_eq!(parsed["stream"], serde_json::Value::Bool(true));
}

#[test]
fn completion_body_escapes_control_characters() {
    let model = "m".to_string();
    let ms = vec![user("a\u{1}b")];
    let body = encode_completion_body(&model, &ms, 7, None, false);
    assert!(body.contains("a\\u0001b"));
    assert!(!body.contains('\u{1}'));
}

#[test]
fn completion_body_with_tool_calls_and_catalogue() {
    let model = "m".to_string();
    let assistant = Message {
        role: "assistant".to_string(),
        content: None,
        tool_calls: Some(vec![ToolCall {
            id: "c1".to_string(),
            call_kind: "function".to_string(),
            function: FunctionCall {
                name: "calculator".to_string(),
                arguments: "{\"expression\":\"2+2\"}".to_string(),
            },
        }]),
        tool_call_id: None,
    };
    let tool_msg = Message {
        role: "tool".to_string(),
        content: Some("2+2 = 4".to_string()),
        tool_calls: None,
        tool_call_id: Some("c1".to_string()),
    };
    let ms = vec![user("2+2?"), assistant, tool_msg];
    let tools = "[{\"type\":\"function\"}]".to_string();
    let body = encode_completion_body(&model, &ms, 7, Some(&tools), false);
    let parsed: serde_json::Value = serde_json::from_str(&body).expect("valid JSON");
    assert_eq!(
        parsed["messages"][1]["tool_calls"][0]["id"],
        serde_json::Value::String("c1".to_string())
    );
    assert_eq!(
        parsed["messages"][1]["tool_calls"][0]["function"]["arguments"],
        serde_json::Value::String("{\"expression\":\"2+2\"}".to_string())
    );
    assert!(parsed["messages"][1].get("content").is_none());
    assert_eq!(
        parsed["messages"][2]["tool_call_id"],
        serde_json::Value::String("c1".to_string())
    );
    assert_eq!(parsed["tool_choice"], serde_json::Value::String("auto".to_string()));
    assert!(parsed["tools"].is_array());
}

#[test]
fn request_line_shape() {
    let line = encode_request_line("tools/list", None, 2);
    assert_eq!(line, "{\"jsonrpc\":\"2.0\",\"method\":\"tools/list\",\"params\":null,\"id\":2}\n");
    assert!(line.ends_with('\n'));
    assert!(!line[..line.len() - 1].contains('\n'));
}

#[test]
fn call_params_shape() {
    let name = "calculator".to_string();
    let args = "{\"expression\":\"2+2\"}".to_string();
    let params = encode_call_params(&name, &args);
    assert_eq!(params, "{\"name\":\"calculator\",\"arguments\":{\"expression\":\"2+2\"}}");
    let line = encode_request_line("tools/call", Some(&params), 41);
    let body: serde_json::Value = serde_json::from_str(line.trim_end()).expect("valid JSON");
    assert_eq!(body["id"], serde_json::Value::Number(41u64.into()));
    assert_eq!(body["params"]["name"], serde_json::Value::String("calculator".to_string()));
}
