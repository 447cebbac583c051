use rusty_cli::protocol::{
    parse_response_line, parse_tools_list, render_tool_result, ClientFailure, ProtocolClient,
};
use rusty_cli::tools::{ToolError, ToolRegistry};

fn handshake(client: &mut ProtocolClient) {
    let (line, id) = client.begin_handshake();
    assert!(line.contains("\"method\":\"initialize\""));
    assert_eq!(id, 1);
    let response = format!("{{\"jsonrpc\":\"2.0\",\"result\":{{}},\"id\":{}}}", id);
    let parts = parse_response_line(&response);
    client.finish_handshake(parts).expect("handshake should succeed");
}

#[test]
fn handshake_then_sequential_correlation() {
    let mut client = ProtocolClient::new();
    handshake(&mut client);
    // Each sequential exchange must echo its own id.
    for expected in 2u64..6u64 {
        let (line, id) = client.begin_list_tools().expect("ready client accepts requests");
        assert_eq!(id, expected);
        assert!(line.contains(&format!("\"id\":{}", expected)));
        let response = format!("{{\"jsonrpc\":\"2.0\",\"result\":{{\"tools\":[]}},\"id\":{}}}", id);
        let result = client.take_response(parse_response_line(&response));
        assert!(result.is_ok());
    }
}

#[test]
fn mismatched_id_is_rejected_as_protocol_error() {
    let mut client = ProtocolClient::new();
    handshake(&mut client);
    let (_line, id) = client.begin_list_tools().expect("ready");
    assert_eq!(id, 2);
    let bad = "{\"jsonrpc\":\"2.0\",\"result\":{\"tools\":[]},\"id\":99}";
    let result = client.take_response(parse_response_line(bad));
    match result {
        Err(ClientFailure::IdMismatch { expected, got }) => {
            assert_eq!(expected, 2);
            assert_eq!(got, Some(99));
        }
        other => panic!("expected an id mismatch, got {:?}", other.is_ok()),
    }
    // A protocol error does not close the connection by itself.
    assert!(client.begin_list_tools().is_ok());
}

#[test]
fn remote_error_object_fails_the_call_without_closing() {
    let mut client = ProtocolClient::new();
    handshake(&mut client);
    let (_line, id) = client.begin_list_tools().expect("ready");
    let response = format!(
        "{{\"jsonrpc\":\"2.0\",\"error\":{{\"code\":-32601,\"message\":\"no such method\"}},\"id\":{}}}",
        id
    );
    let result = client.take_response(parse_response_line(&response));
    match result {
        Err(ClientFailure::Remote { code, message }) => {
            assert_eq!(code, -32601);
            assert_eq!(message, "no such method");
        }
        _ => panic!("expected the remote error to surface"),
    }
    assert!(client.begin_list_tools().is_ok());
}

#[test]
fn subprocess_death_mid_call_closes_the_client() {
    let mut client = ProtocolClient::new();
    handshake(&mut client);
    let name = "lookup".to_string();
    let args = "{}".to_string();
    let (_line, _id) = client.begin_call_tool(&name, &args).expect("ready");
    // The pipe closed before any response: the pending call fails with a
    // transport failure and the client refuses everything thereafter.
    let result = client.take_response(None);
    match result {
        Err(ClientFailure::TransportClosed) => {}
        _ => panic!("expected the transport failure to surface"),
    }
    let again = client.begin_call_tool(&name, &args);
    match again {
        Err(ClientFailure::TransportClosed) => {}
        _ => panic!("a closed client must refuse further calls"),
    }
    // The registry surfaces that as a failed execution.
    let failure = ClientFailure::TransportClosed;
    let tool_error = ToolError::ExecutionFailed { message: failure.describe() };
    assert_eq!(tool_error.describe(), "tool server transport closed");
}

#[test]
fn handshake_error_closes_the_client() {
    let mut client = ProtocolClient::new();
    let (_line, id) = client.begin_handshake();
    let response = format!(
        "{{\"jsonrpc\":\"2.0\",\"error\":{{\"code\":1,\"message\":\"unsupported\"}},\"id\":{}}}",
        id
    );
    let result = client.finish_handshake(parse_response_line(&response));
    assert!(result.is_err());
    match client.begin_list_tools() {
        Err(ClientFailure::TransportClosed) => {}
        _ => panic!("a failed handshake must close the client"),
    }
}

#[test]
fn malformed_line_is_a_transport_failure() {
    assert!(parse_response_line("not json at all").is_none());
    assert!(parse_response_line("").is_none());
}

#[test]
fn error_messages_match_the_transcript_texts() {
    let remote = ClientFailure::Remote { code: 7, message: "boom".to_string() };
    assert_eq!(remote.describe(), "MCP Error: boom");
    let missing = ClientFailure::MissingResult;
    assert_eq!(missing.describe(), "No result in response");
    let mismatch = ClientFailure::IdMismatch { expected: 1, got: None };
    assert_eq!(mismatch.describe(), "response id does not match request id");
}

#[test]
fn tools_list_parses_names_descriptions_and_schemas() {
    let result = "{\"tools\":[\
        {\"name\":\"lookup\",\"description\":\"Find things\",\"input_schema\":{\"type\":\"object\"}},\
        {\"name\":\"bare\",\"input_schema\":{}}\
    ]}";
    let tools = parse_tools_list(result).expect("well-formed list");
    assert_eq!(tools.len(), 2);
    assert_eq!(tools[0].name, "lookup");
    assert_eq!(tools[0].description.as_deref(), Some("Find things"));
    assert_eq!(tools[0].input_schema, "{\"type\":\"object\"}");
    assert_eq!(tools[1].name, "bare");
    assert!(tools[1].description.is_none());
}

#[test]
fn tools_list_refuses_a_nameless_tool() {
    assert!(parse_tools_list("{\"tools\":[{\"input_schema\":{}}]}").is_none());
    assert!(parse_tools_list("{\"nothing\":1}").is_none());
}

#[test]
fn registry_surfaces_remote_tools() {
    let mut registry = ToolRegistry::new();
    let tools = parse_tools_list(
        "{\"tools\":[{\"name\":\"lookup\",\"input_schema\":{\"type\":\"object\"}}]}",
    )
    .expect("well-formed list");
    registry.register_server_tools(0, &tools);
    let defs = registry.get_tool_definitions();
    assert_eq!(defs.len(), 5);
    assert_eq!(defs[4].function.name, "lookup");
    assert_eq!(defs[4].function.description, "MCP tool");
}

#[test]
fn raw_tool_calls_canonicalize_their_arguments() {
    let mut client = ProtocolClient::new();
    handshake(&mut client);
    let name = "lookup".to_string();
    let (line, id) = client
        .begin_call_tool_raw(&name, " {\"q\": \"x\"} ")
        .expect("valid arguments frame a call");
    assert!(line.ends_with('\n'));
    assert!(!line[..line.len() - 1].contains('\n'));
    assert!(line.contains("\"arguments\":{\"q\":\"x\"}"));
    let response = format!("{{\"jsonrpc\":\"2.0\",\"result\":\"ok\",\"id\":{}}}", id);
    assert!(client.take_response(parse_response_line(&response)).is_ok());
}

#[test]
fn unparseable_arguments_fail_without_sending() {
    let mut client = ProtocolClient::new();
    handshake(&mut client);
    let name = "lookup".to_string();
    match client.begin_call_tool_raw(&name, "not json") {
        Err(ClientFailure::BadArguments) => {}
        _ => panic!("bad arguments must fail the call before it is framed"),
    }
    // Nothing was sent and nothing is pending: the client still works.
    assert!(client.begin_list_tools().is_ok());
}

#[test]
fn tool_results_render_as_indented_json() {
    assert_eq!(render_tool_result("{\"a\":1}"), "{\n  \"a\": 1\n}");
    assert_eq!(render_tool_result("\"plain\""), "\"plain\"");
    assert_eq!(render_tool_result("not json"), "not json");
}

#[test]
fn a_closed_client_fails_fast_even_with_bad_arguments() {
    let mut client = ProtocolClient::new();
    let (_line, _id) = client.begin_handshake();
    let _ = client.finish_handshake(None);
    let name = "lookup".to_string();
    match client.begin_call_tool_raw(&name, "not json") {
        Err(ClientFailure::TransportClosed) => {}
        _ => panic!("a closed client refuses the call before reading arguments"),
    }
}
