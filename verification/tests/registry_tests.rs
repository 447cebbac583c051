use rusty_cli::protocol::MCPTool;
use rusty_cli::tools::{
    encode_tools_json, error_result_text, file_written_text, mcp_tool_definition,
    missing_param_error, shell_output_text, string_arg, Capability, RegistryEntry, Tool,
    ToolError, ToolRegistry,
};

#[test]
fn fresh_registry_holds_the_four_builtins_in_order() {
    let registry = ToolRegistry::new();
    let defs = registry.get_tool_definitions();
    let names: Vec<&str> = defs.iter().map(|d| d.function.name.as_str()).collect();
    assert_eq!(names, vec!["shell", "calculator", "read_file", "write_file"]);
    for d in &defs {
        assert_eq!(d.tool_kind, "function");
        let schema: serde_json::Value =
            serde_json::from_str(&d.function.parameters).expect("schemas are JSON");
        assert_eq!(schema["type"], serde_json::Value::String("object".to_string()));
    }
}

#[test]
fn definitions_are_stable_across_reads() {
    // Two reads of an unmodified registry yield the same list.
    let registry = ToolRegistry::new();
    let first = registry.get_tool_definitions();
    let second = registry.get_tool_definitions();
    assert_eq!(first.len(), second.len());
    for (a, b) in first.iter().zip(second.iter()) {
        assert_eq!(a.tool_kind, b.tool_kind);
        assert_eq!(a.function.name, b.function.name);
        assert_eq!(a.function.description, b.function.description);
        assert_eq!(a.function.parameters, b.function.parameters);
    }
}

#[test]
fn duplicate_registration_overwrites_in_place() {
    let mut registry = ToolRegistry::new();
    let replacement = RegistryEntry {
        definition: Tool {
            tool_kind: "function".to_string(),
            function: rusty_cli::tools::Function {
                name: "shell".to_string(),
                description: "A remote shell".to_string(),
                parameters: "{}".to_string(),
            },
        },
        capability: Capability::Remote { server: 3, tool_name: "shell".to_string() },
    };
    registry.register(replacement);
    let defs = registry.get_tool_definitions();
    assert_eq!(defs.len(), 4);
    assert_eq!(defs[0].function.name, "shell");
    assert_eq!(defs[0].function.description, "A remote shell");
    let name = "shell".to_string();
    match registry.resolve(&name) {
        Ok(Capability::Remote { server, tool_name }) => {
            assert_eq!(server, 3);
            assert_eq!(tool_name, "shell");
        }
        _ => panic!("the last writer must win"),
    }
}

#[test]
fn unknown_names_fail_with_not_found() {
    let registry = ToolRegistry::new();
    let name = "frobnicate".to_string();
    match registry.resolve(&name) {
        Err(e @ ToolError::NotFound { .. }) => {
            assert_eq!(e.describe(), "Tool frobnicate not found");
        }
        _ => panic!("an unknown tool must not resolve"),
    }
}

#[test]
fn remote_definitions_default_their_description() {
    let bare = MCPTool {
        name: "lookup".to_string(),
        description: None,
        input_schema: "{\"type\":\"object\"}".to_string(),
    };
    let tool = mcp_tool_definition(&bare);
    assert_eq!(tool.tool_kind, "function");
    assert_eq!(tool.function.name, "lookup");
    assert_eq!(tool.function.description, "MCP tool");
    assert_eq!(tool.function.parameters, "{\"type\":\"object\"}");
    let described = MCPTool { description: Some("Finds".to_string()), ..bare };
    assert_eq!(mcp_tool_definition(&described).function.description, "Finds");
}

#[test]
fn tool_catalogue_encodes_as_a_json_array() {
    let registry = ToolRegistry::new();
    let defs = registry.get_tool_definitions();
    let catalogue = encode_tools_json(&defs);
    let parsed: serde_json::Value = serde_json::from_str(&catalogue).expect("valid JSON");
    let arr = parsed.as_array().expect("an array");
    assert_eq!(arr.len(), 4);
    assert_eq!(arr[1]["function"]["name"], serde_json::Value::String("calculator".to_string()));
    assert_eq!(
        arr[0]["function"]["parameters"]["required"][0],
        serde_json::Value::String("command".to_string())
    );
}

#[test]
fn argument_extraction_names_what_is_missing() {
    assert_eq!(
        string_arg("{\"expression\":\"2+2\"}", "expression").ok().as_deref(),
        Some("2+2")
    );
    assert_eq!(
        string_arg("{\"expression\":\"2+2\"}", "command").err().as_deref(),
        Some("Missing command parameter")
    );
    assert_eq!(string_arg("not json", "command").err().as_deref(), Some("invalid tool arguments"));
    assert_eq!(missing_param_error("path"), "Missing path parameter");
}

#[test]
fn local_tool_result_texts_are_exact() {
    assert_eq!(shell_output_text("ok\n", "warn\n"), "stdout:\nok\n\nstderr:\nwarn\n");
    assert_eq!(file_written_text("notes.txt"), "File written to notes.txt");
}

#[test]
fn unknown_names_resolve_to_their_error_text() {
    let registry = ToolRegistry::new();
    let name = "frobnicate".to_string();
    match registry.resolve_or_error_text(&name) {
        Err(text) => {
            assert_eq!(text, "Tool frobnicate not found");
            // The transcript wraps a failed execution's detail.
            assert_eq!(error_result_text(&text), "Error: Tool frobnicate not found");
        }
        Ok(_) => panic!("an unknown tool must not resolve"),
    }
    let bound = "shell".to_string();
    assert!(registry.resolve_or_error_text(&bound).is_ok());
}

#[test]
fn non_string_arguments_name_the_missing_field() {
    assert_eq!(
        string_arg("{\"command\": 5}", "command").err().as_deref(),
        Some("Missing command parameter")
    );
}
