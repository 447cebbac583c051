use rusty_cli::api::parse_tool_calls_text;
use rusty_cli::msg::{FunctionCall, Message, ToolCall};
use rusty_cli::session::SessionStore;
use rusty_cli::wire::encode_tool_calls;

fn msg(role: &str, content: &str) -> Message {
    Message {
        role: role.to_string(),
        content: Some(content.to_string()),
        tool_calls: None,
        tool_call_id: None,
    }
}

#[test]
fn save_then_load_round_trips() {
    let mut store = SessionStore::new();
    let id = "s-1".to_string();
    let history = vec![
        msg("user", "2+2?"),
        msg("assistant", "4"),
        Message {
            role: "tool".to_string(),
            content: Some("2+2 = 4".to_string()),
            tool_calls: None,
            tool_call_id: Some("c1".to_string()),
        },
    ];
    store.save(&id, &history, "2024-01-01T00:00:00Z".to_string());
    let loaded = store.load(&id);
    assert_eq!(loaded.len(), 3);
    for (a, b) in loaded.iter().zip(history.iter()) {
        assert_eq!(a.role, b.role);
        assert_eq!(a.content, b.content);
        assert_eq!(a.tool_call_id, b.tool_call_id);
    }
}

#[test]
fn stored_turns_keep_the_tool_call_list() {
    let mut store = SessionStore::new();
    let id = "s-2".to_string();
    let history = vec![Message {
        role: "assistant".to_string(),
        content: None,
        tool_calls: Some(vec![ToolCall {
            id: "c1".to_string(),
            call_kind: "function".to_string(),
            function: FunctionCall { name: "shell".to_string(), arguments: "{}".to_string() },
        }]),
        tool_call_id: None,
    }];
    store.save(&id, &history, "t0".to_string());
    let loaded = store.load(&id);
    assert_eq!(loaded.len(), 1);
    assert_eq!(loaded[0].role, "assistant");
    let calls = loaded[0].tool_calls.as_ref().expect("the tool calls round-trip");
    assert_eq!(calls.len(), 1);
    assert_eq!(calls[0].id, "c1");
    assert_eq!(calls[0].function.name, "shell");
    assert_eq!(calls[0].function.arguments, "{}");
}

#[test]
fn load_of_unknown_session_is_empty() {
    let store = SessionStore::new();
    assert!(store.load(&"missing".to_string()).is_empty());
    assert!(store.last().is_none());
}

#[test]
fn save_is_a_full_replace_and_keeps_creation_time() {
    let mut store = SessionStore::new();
    let id = "s-3".to_string();
    store.save(&id, &vec![msg("user", "one")], "t1".to_string());
    store.save(&id, &vec![msg("user", "two"), msg("assistant", "ok")], "t2".to_string());
    let loaded = store.load(&id);
    assert_eq!(loaded.len(), 2);
    assert_eq!(loaded[0].content.as_deref(), Some("two"));
    assert_eq!(store.sessions.len(), 1);
    assert_eq!(store.sessions[0].created_at, "t1");
    assert_eq!(store.sessions[0].updated_at, "t2");
}

#[test]
fn last_follows_recency() {
    let mut store = SessionStore::new();
    store.save(&"a".to_string(), &vec![msg("user", "1")], "t1".to_string());
    store.save(&"b".to_string(), &vec![msg("user", "2")], "t2".to_string());
    assert_eq!(store.last().as_deref(), Some("b"));
    store.save(&"a".to_string(), &vec![msg("user", "3")], "t3".to_string());
    assert_eq!(store.last().as_deref(), Some("a"));
}

#[test]
fn deleted_records_pop_latest_first_per_path() {
    let mut store = SessionStore::new();
    store.record_deleted("/tmp/a", "/backups/a-1", "t1".to_string());
    store.record_deleted("/tmp/b", "/backups/b-1", "t2".to_string());
    store.record_deleted("/tmp/a", "/backups/a-2", "t3".to_string());
    assert_eq!(store.pop_latest_deleted("/tmp/a").as_deref(), Some("/backups/a-2"));
    assert_eq!(store.pop_latest_deleted("/tmp/a").as_deref(), Some("/backups/a-1"));
    assert!(store.pop_latest_deleted("/tmp/a").is_none());
    assert_eq!(store.pop_latest_deleted("/tmp/b").as_deref(), Some("/backups/b-1"));
}

#[test]
fn list_deleted_is_newest_first_and_bounded() {
    let mut store = SessionStore::new();
    store.record_deleted("/one", "/b1", "t1".to_string());
    store.record_deleted("/two", "/b2", "t2".to_string());
    store.record_deleted("/three", "/b3", "t3".to_string());
    let listed = store.list_deleted(2);
    assert_eq!(listed.len(), 2);
    assert_eq!(listed[0].0, "/three");
    assert_eq!(listed[0].1, "t3");
    assert_eq!(listed[1].0, "/two");
    let all = store.list_deleted(10);
    assert_eq!(all.len(), 3);
}

#[test]
fn paths_join_under_the_data_directory() {
    assert_eq!(SessionStore::backups_dir("/home/u/.local/share/rusty-cli"), "/home/u/.local/share/rusty-cli/undelete");
    assert_eq!(SessionStore::db_path("/data"), "/data/sessions.db");
}

#[test]
fn stored_tool_calls_survive_their_text_form() {
    let calls = vec![ToolCall {
        id: "c1".to_string(),
        call_kind: "function".to_string(),
        function: FunctionCall {
            name: "calculator".to_string(),
            arguments: "{\"expression\":\"2+2\"}".to_string(),
        },
    }];
    let text = encode_tool_calls(&calls);
    let back = parse_tool_calls_text(&text).expect("the encoded calls parse back");
    assert_eq!(back.len(), 1);
    assert_eq!(back[0].id, "c1");
    assert_eq!(back[0].call_kind, "function");
    assert_eq!(back[0].function.name, "calculator");
    assert_eq!(back[0].function.arguments, "{\"expression\":\"2+2\"}");
}
