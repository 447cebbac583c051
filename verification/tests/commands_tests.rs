use rusty_cli::commands::{parse_command, second_token, ChatCommand};
use rusty_cli::strutil::parse_u64;

#[test]
fn session_control_words_match_up_to_case() {
    assert!(matches!(parse_command("exit"), ChatCommand::Quit));
    assert!(matches!(parse_command("EXIT"), ChatCommand::Quit));
    assert!(matches!(parse_command("Quit"), ChatCommand::Quit));
    assert!(matches!(parse_command("clear"), ChatCommand::Clear));
    assert!(matches!(parse_command("CLEAR"), ChatCommand::Clear));
    assert!(matches!(parse_command("exits"), ChatCommand::Say { .. }));
}

#[test]
fn session_switching_commands() {
    match parse_command(":new") {
        ChatCommand::NewSession { id } => assert!(id.is_none()),
        _ => panic!("expected a new-session command"),
    }
    match parse_command(":new s-42") {
        ChatCommand::NewSession { id } => assert_eq!(id.as_deref(), Some("s-42")),
        _ => panic!("expected a new-session command"),
    }
    match parse_command(":session abc") {
        ChatCommand::SwitchSession { id } => assert_eq!(id.as_deref(), Some("abc")),
        _ => panic!("expected a switch-session command"),
    }
    assert!(matches!(parse_command(":status"), ChatCommand::Status));
}

#[test]
fn system_prompt_takes_the_rest_of_the_line() {
    match parse_command("system be brief and kind") {
        ChatCommand::SetSystem { prompt } => assert_eq!(prompt, "be brief and kind"),
        _ => panic!("expected a system-prompt command"),
    }
}

#[test]
fn tools_and_models_commands() {
    assert!(matches!(parse_command(":tools list"), ChatCommand::ToolsList));
    assert!(matches!(parse_command(":tools on"), ChatCommand::ToolsOn));
    assert!(matches!(parse_command(":tools help"), ChatCommand::ToolsHelp));
    assert!(matches!(parse_command(":models"), ChatCommand::ListModels));
    assert!(matches!(parse_command(":keys"), ChatCommand::Keys));
    match parse_command(":model 3") {
        ChatCommand::SetModel { arg } => assert_eq!(arg.as_deref(), Some("3")),
        _ => panic!("expected a model command"),
    }
}

#[test]
fn stream_toggle_accepts_the_three_spellings() {
    for line in [":stream on", ":stream true", ":stream 1", ":stream ON"] {
        match parse_command(line) {
            ChatCommand::SetStream { on } => assert!(on, "{} must enable streaming", line),
            _ => panic!("expected a stream command"),
        }
    }
    match parse_command(":stream off") {
        ChatCommand::SetStream { on } => assert!(!on),
        _ => panic!("expected a stream command"),
    }
}

#[test]
fn anything_else_is_a_plain_message() {
    match parse_command("what is the weather") {
        ChatCommand::Say { text } => assert_eq!(text, "what is the weather"),
        _ => panic!("expected a plain message"),
    }
    match parse_command("x:status") {
        ChatCommand::Say { text } => assert_eq!(text, "x:status"),
        _ => panic!("expected a plain message"),
    }
}

#[test]
fn second_tokens_split_on_whitespace() {
    assert_eq!(second_token(":new  s-1").as_deref(), Some("s-1"));
    assert_eq!(second_token(":new\ts-2\textra").as_deref(), Some("s-2"));
    assert!(second_token(":new").is_none());
    assert!(second_token(":new   ").is_none());
}

#[test]
fn decimal_parsing_is_exact() {
    assert_eq!(parse_u64("0"), Some(0));
    assert_eq!(parse_u64("42"), Some(42));
    assert_eq!(parse_u64("18446744073709551615"), Some(u64::MAX));
    assert_eq!(parse_u64("18446744073709551616"), None);
    assert_eq!(parse_u64(""), None);
    assert_eq!(parse_u64("4x2"), None);
    assert_eq!(parse_u64("-3"), None);
}
