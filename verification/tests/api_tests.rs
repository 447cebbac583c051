use rusty_cli::api::{
    choose_model, completions_url, first_choice_content, models_url, parse_completion_response,
    parse_models_response, parse_stream_chunk, pick_index, provider_menu, ProviderKind,
    StreamAccumulator, StreamOutcome,
};

#[test]
fn endpoint_urls_add_the_version_segment_once() {
    assert_eq!(
        completions_url("https://api.deepseek.com"),
        "https://api.deepseek.com/v1/chat/completions"
    );
    assert_eq!(completions_url("https://api.x.ai/v1"), "https://api.x.ai/v1/chat/completions");
    assert_eq!(
        completions_url("https://api.openai.com///"),
        "https://api.openai.com/v1/chat/completions"
    );
    assert_eq!(models_url("https://api.x.ai/v1/"), "https://api.x.ai/v1/models");
    assert_eq!(models_url("https://api.groq.com/openai"), "https://api.groq.com/openai/v1/models");
}

#[test]
fn completion_response_parses_message_and_tool_calls() {
    let body = "{\"choices\":[{\"message\":{\"role\":\"assistant\",\"content\":null,\
        \"tool_calls\":[{\"id\":\"c1\",\"type\":\"function\",\
        \"function\":{\"name\":\"calculator\",\"arguments\":\"{\\\"expression\\\":\\\"2+2\\\"}\"}}]},\
        \"finish_reason\":\"tool_calls\"}]}";
    let resp = parse_completion_response(body).expect("well-formed response");
    assert_eq!(resp.choices.len(), 1);
    let m = &resp.choices[0].message;
    assert_eq!(m.role, "assistant");
    assert!(m.content.is_none());
    let calls = m.tool_calls.as_ref().unwrap();
    assert_eq!(calls.len(), 1);
    assert_eq!(calls[0].id, "c1");
    assert_eq!(calls[0].function.name, "calculator");
    assert_eq!(calls[0].function.arguments, "{\"expression\":\"2+2\"}");
    assert_eq!(resp.choices[0].finish_reason.as_deref(), Some("tool_calls"));
}

#[test]
fn first_choice_content_handles_every_shape() {
    let with = parse_completion_response(
        "{\"choices\":[{\"message\":{\"role\":\"assistant\",\"content\":\"4\"}}]}",
    )
    .expect("well-formed");
    assert_eq!(first_choice_content(&with), "4");
    let empty = parse_completion_response("{\"choices\":[]}").expect("well-formed");
    assert_eq!(first_choice_content(&empty), "");
    assert!(parse_completion_response("{\"noise\":true}").is_none());
    assert!(parse_completion_response("not json").is_none());
}

#[test]
fn stream_accumulates_fragments_in_order() {
    let mut acc = StreamAccumulator::new();
    let first = acc.on_event("{\"choices\":[{\"delta\":{\"content\":\"Hel\"}}]}");
    assert_eq!(first.as_deref(), Some("Hel"));
    let second = acc.on_event("{\"choices\":[{\"delta\":{\"content\":\"lo\"}}]}");
    assert_eq!(second.as_deref(), Some("lo"));
    let silent = acc.on_event("{\"choices\":[{\"delta\":{}}]}");
    assert!(silent.is_none());
    let done = acc.on_event("[DONE]");
    assert!(done.is_none());
    match acc.outcome() {
        StreamOutcome::Complete(text) => assert_eq!(text, "Hello"),
        StreamOutcome::RetryPlain => panic!("a finished stream never retries"),
    }
}

#[test]
fn stream_error_with_output_keeps_the_partial_reply() {
    // A transport error after fragments arrived must not trigger the
    // fallback: retrying would duplicate the already-emitted output.
    let mut acc = StreamAccumulator::new();
    acc.on_event("{\"choices\":[{\"delta\":{\"content\":\"par\"}}]}");
    acc.on_transport_error();
    match acc.outcome() {
        StreamOutcome::Complete(text) => assert_eq!(text, "par"),
        StreamOutcome::RetryPlain => panic!("must not retry after emitting output"),
    }
}

#[test]
fn stream_error_with_empty_output_retries_plain_once() {
    let mut acc = StreamAccumulator::new();
    acc.on_transport_error();
    match acc.outcome() {
        StreamOutcome::RetryPlain => {}
        StreamOutcome::Complete(_) => panic!("an empty failed stream must fall back"),
    }
}

#[test]
fn stream_chunks_of_other_shapes_are_ignored() {
    let mut acc = StreamAccumulator::new();
    assert!(acc.on_event("{\"unrelated\":1}").is_none());
    assert!(acc.on_event("garbage").is_none());
    assert!(parse_stream_chunk("{\"choices\":\"not an array\"}").is_none());
    match acc.outcome() {
        StreamOutcome::Complete(text) => assert_eq!(text, ""),
        StreamOutcome::RetryPlain => panic!("no error was seen"),
    }
}

#[test]
fn model_listing_parses_in_order() {
    let body = "{\"data\":[{\"id\":\"m-2\"},{\"id\":\"m-1\"}]}";
    let models = parse_models_response(body).expect("well-formed");
    assert_eq!(models, vec!["m-2".to_string(), "m-1".to_string()]);
    assert!(parse_models_response("{\"data\":[{\"noid\":1}]}").is_none());
}

#[test]
fn menu_answers_resolve_to_indices_and_models() {
    assert_eq!(pick_index("2", 3), 1);
    assert_eq!(pick_index("abc", 3), 0);
    assert_eq!(pick_index("99", 3), 2);
    assert_eq!(pick_index("0", 3), 0);
    assert_eq!(pick_index("", 3), 0);
    assert_eq!(pick_index("18446744073709551616", 3), 0);

    let models = vec!["alpha".to_string(), "beta".to_string()];
    assert_eq!(choose_model(&models, "2"), "beta");
    assert_eq!(choose_model(&models, "3"), "3");
    assert_eq!(choose_model(&models, "custom-model"), "custom-model");
}

#[test]
fn provider_menu_lists_available_credentials_in_order() {
    let menu = provider_menu(
        Some("dk".to_string()),
        None,
        Some("xk".to_string()),
        Some("gk".to_string()),
    );
    assert_eq!(menu.len(), 3);
    assert!(matches!(menu[0].kind, ProviderKind::Native));
    assert_eq!(menu[0].model, "deepseek-chat");
    assert_eq!(menu[0].base_url, "https://api.deepseek.com");
    assert_eq!(menu[1].base_url, "https://api.x.ai/v1");
    assert_eq!(menu[2].base_url, "https://api.groq.com/openai");
    assert!(matches!(menu[2].kind, ProviderKind::Compatible));

    let rebound = menu[0].with_model("deepseek-reasoner".to_string());
    assert_eq!(rebound.model_name(), "deepseek-reasoner");
    assert_eq!(rebound.api_key, "dk");
}
