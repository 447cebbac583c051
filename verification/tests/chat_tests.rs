use rusty_cli::chat::{
    append_assistant_text, append_message, append_system, append_user, apply_tool_round,
    classify_reply, reply_requests_tools, TurnReply,
};
use rusty_cli::msg::{FunctionCall, Message, ToolCall};
use rusty_cli::tools::{calculator_result_text, Capability, ToolRegistry};

fn call(id: &str, name: &str, args: &str) -> ToolCall {
    ToolCall {
        id: id.to_string(),
        call_kind: "function".to_string(),
        function: FunctionCall { name: name.to_string(), arguments: args.to_string() },
    }
}

#[test]
fn plain_reply_turn() {
    // History [user:"2+2?"], the model answers "4" with no tool calls.
    let mut messages: Vec<Message> = Vec::new();
    append_user(&mut messages, "2+2?".to_string());
    let reply = Message {
        role: "assistant".to_string(),
        content: Some("4".to_string()),
        tool_calls: None,
        tool_call_id: None,
    };
    assert!(!reply_requests_tools(&reply));
    append_assistant_text(&mut messages, reply.content.clone().unwrap());
    assert_eq!(messages.len(), 2);
    assert_eq!(messages[0].role, "user");
    assert_eq!(messages[0].content.as_deref(), Some("2+2?"));
    assert_eq!(messages[1].role, "assistant");
    assert_eq!(messages[1].content.as_deref(), Some("4"));
    assert!(messages[1].tool_calls.is_none());
}

#[test]
fn single_tool_call_turn() {
    // The model requests calculator(c1), the registry resolves it, the
    // round appends the assistant message, one tool message carrying c1,
    // and the follow-up assistant reply.
    let mut messages: Vec<Message> = Vec::new();
    append_user(&mut messages, "2+2?".to_string());
    let assistant = Message {
        role: "assistant".to_string(),
        content: None,
        tool_calls: Some(vec![call("c1", "calculator", "{\"expression\":\"2+2\"}")]),
        tool_call_id: None,
    };
    assert!(reply_requests_tools(&assistant));

    let registry = ToolRegistry::new();
    let name = "calculator".to_string();
    let capability = registry.resolve(&name).expect("calculator is built in");
    assert!(matches!(capability, Capability::Calculator));
    // The external evaluator answered "4"; the tool's result text is exact.
    let result = calculator_result_text("2+2", "4");
    assert_eq!(result, "2+2 = 4");

    apply_tool_round(&mut messages, assistant, &vec![result]);
    append_assistant_text(&mut messages, "The answer is 4.".to_string());

    assert_eq!(messages.len(), 4);
    assert_eq!(messages[1].role, "assistant");
    assert_eq!(messages[1].tool_calls.as_ref().unwrap().len(), 1);
    assert_eq!(messages[2].role, "tool");
    assert_eq!(messages[2].tool_call_id.as_deref(), Some("c1"));
    assert_eq!(messages[2].content.as_deref(), Some("2+2 = 4"));
    assert_eq!(messages[3].role, "assistant");
}

#[test]
fn unknown_tool_turn_appends_error_text() {
    // A call naming an unregistered tool still yields a tool message,
    // holding the error text; the turn never aborts.
    let mut messages: Vec<Message> = Vec::new();
    append_user(&mut messages, "go".to_string());
    let assistant = Message {
        role: "assistant".to_string(),
        content: None,
        tool_calls: Some(vec![call("c9", "frobnicate", "{}")]),
        tool_call_id: None,
    };
    let registry = ToolRegistry::new();
    let name = "frobnicate".to_string();
    let error = registry.resolve(&name).err().expect("no such tool");
    let text = error.describe();
    assert_eq!(text, "Tool frobnicate not found");
    apply_tool_round(&mut messages, assistant, &vec![text]);
    assert_eq!(messages.len(), 3);
    assert_eq!(messages[2].role, "tool");
    assert_eq!(messages[2].tool_call_id.as_deref(), Some("c9"));
    assert_eq!(messages[2].content.as_deref(), Some("Tool frobnicate not found"));
}

#[test]
fn tool_round_preserves_call_order() {
    // The tool messages carry, in order, exactly the ids of the
    // assistant's tool calls.
    let mut messages: Vec<Message> = Vec::new();
    append_system(&mut messages, "be brief".to_string());
    append_user(&mut messages, "do both".to_string());
    let assistant = Message {
        role: "assistant".to_string(),
        content: Some("".to_string()),
        tool_calls: Some(vec![
            call("a", "calculator", "{\"expression\":\"1\"}"),
            call("b", "read_file", "{\"path\":\"x\"}"),
            call("c", "shell", "{\"command\":\"true\"}"),
        ]),
        tool_call_id: None,
    };
    let results = vec!["one".to_string(), "two".to_string(), "three".to_string()];
    apply_tool_round(&mut messages, assistant, &results);
    assert_eq!(messages.len(), 6);
    let ids: Vec<&str> = messages[3..6]
        .iter()
        .map(|m| m.tool_call_id.as_deref().unwrap())
        .collect();
    assert_eq!(ids, vec!["a", "b", "c"]);
    let contents: Vec<&str> = messages[3..6]
        .iter()
        .map(|m| m.content.as_deref().unwrap())
        .collect();
    assert_eq!(contents, vec!["one", "two", "three"]);
    for m in &messages[3..6] {
        assert_eq!(m.role, "tool");
    }
}

#[test]
fn replies_classify_by_their_tool_calls() {
    let plain = Message {
        role: "assistant".to_string(),
        content: Some("4".to_string()),
        tool_calls: None,
        tool_call_id: None,
    };
    match classify_reply(plain) {
        TurnReply::Plain { message } => {
            let mut history: Vec<Message> = Vec::new();
            append_message(&mut history, message);
            assert_eq!(history[0].content.as_deref(), Some("4"));
        }
        TurnReply::ToolRound { .. } => panic!("no tool calls were requested"),
    }
    let with_tools = Message {
        role: "assistant".to_string(),
        content: None,
        tool_calls: Some(vec![call("c1", "shell", "{}")]),
        tool_call_id: None,
    };
    assert!(matches!(classify_reply(with_tools), TurnReply::ToolRound { .. }));
}
