use rubox::commands::{add_prompt_message, preview, prompt_at, ChatState, CommandKind, CommandRegistry, CommandResult, Reply};
use rubox::config::RuboxConfig;
use rubox::session::{Role, Session};

fn state_with(n: usize) -> ChatState {
    let mut session = Session::start("gemma".to_string(), 700, "01022026_101010", 0);
    for i in 0..n {
        let role = if i % 2 == 0 { Role::User } else { Role::Assistant };
        session.add_message_at(role, format!("text {}", i + 1), if i % 2 == 1 { Some(4) } else { None }, i as i64);
    }
    ChatState { session, current_model: "gemma".to_string(), verbose: false, temperature: 700 }
}

#[test]
fn model_aliases_resolve_alike() {
    let reg = CommandRegistry::new();
    assert_eq!(reg.lookup("m"), Some(CommandKind::Model));
    assert_eq!(reg.lookup("model"), Some(CommandKind::Model));
    assert_eq!(reg.lookup("Model"), None);
    assert_eq!(reg.lookup("quit"), Some(CommandKind::Exit));
    assert_eq!(reg.lookup("?"), Some(CommandKind::Help));
    let config = RuboxConfig::default_internal();
    for line in ["/m", "/model", "/model "] {
        let mut st = state_with(1);
        let d = reg.handle(line, &mut st, &config);
        assert!(matches!(d.reply, Reply::ModelList), "{}", line);
        assert!(matches!(d.result, CommandResult::Continue));
    }
}

#[test]
fn unknown_command_changes_nothing() {
    let reg = CommandRegistry::new();
    let config = RuboxConfig::default_internal();
    let mut st = state_with(2);
    let d = reg.handle("/frobnicate now", &mut st, &config);
    match d.reply {
        Reply::UnknownCommand(t) => assert_eq!(t, "frobnicate"),
        _ => panic!("expected an unknown-command reply"),
    }
    assert!(!d.persist);
    assert_eq!(st.session.messages.len(), 2);
    assert_eq!(st.current_model, "gemma");
    assert_eq!(st.temperature, 700);
}

#[test]
fn empty_command_shows_help() {
    let reg = CommandRegistry::new();
    let config = RuboxConfig::default_internal();
    let mut st = state_with(0);
    assert!(matches!(reg.handle("/", &mut st, &config).reply, Reply::Help));
    assert!(matches!(reg.handle("", &mut st, &config).reply, Reply::Help));
}

#[test]
fn switch_model_by_sorted_index() {
    let reg = CommandRegistry::new();
    let config = RuboxConfig::default_internal();
    let mut st = state_with(0);
    let d = reg.handle("/model 2", &mut st, &config);
    match d.result {
        CommandResult::SwitchModel(m) => assert_eq!(m, "lfm"),
        _ => panic!("expected a model switch"),
    }
    assert_eq!(st.current_model, "gemma");
    assert!(matches!(reg.handle("/m 5", &mut st, &config).reply, Reply::InvalidModelIndex));
    assert!(matches!(reg.handle("/m 0", &mut st, &config).reply, Reply::InvalidModelIndex));
    assert!(matches!(reg.handle("/m two", &mut st, &config).reply, Reply::ModelUsage));
}

#[test]
fn temperature_bounds() {
    let reg = CommandRegistry::new();
    let config = RuboxConfig::default_internal();
    let mut st = state_with(0);
    let d = reg.handle("/set temp 2.5", &mut st, &config);
    assert!(matches!(d.reply, Reply::TemperatureOutOfRange(2500)));
    assert_eq!(st.temperature, 700);
    let d = reg.handle("/set temp 2.0", &mut st, &config);
    assert!(matches!(d.reply, Reply::TemperatureSet(2000)));
    assert_eq!(st.temperature, 2000);
    assert_eq!(st.session.metadata.temperature, 2000);
    let d = reg.handle("/set temperature 0", &mut st, &config);
    assert!(matches!(d.reply, Reply::TemperatureSet(0)));
    assert_eq!(st.temperature, 0);
    let d = reg.handle("/set temp warm", &mut st, &config);
    assert!(matches!(d.reply, Reply::NotANumber(_)));
    assert_eq!(st.temperature, 0);
    assert!(matches!(reg.handle("/set top_p 1", &mut st, &config).reply, Reply::UnknownParameter(_)));
    assert!(matches!(reg.handle("/set temp", &mut st, &config).reply, Reply::SetUsage));
    assert!(matches!(reg.handle("/temp", &mut st, &config).reply, Reply::Temperature(0)));
}

#[test]
fn delete_all_on_five_messages() {
    let reg = CommandRegistry::new();
    let config = RuboxConfig::default_internal();
    let mut st = state_with(5);
    assert_eq!(st.session.metadata.total_tokens, 8);
    let d = reg.handle("/delete all", &mut st, &config);
    assert!(d.persist);
    assert!(matches!(d.reply, Reply::DeletedAll));
    assert_eq!(st.session.metadata.message_count, 0);
    assert_eq!(st.session.metadata.total_tokens, 0);
    let (md, ms) = st.session.to_parts();
    assert!(ms.is_empty());
    assert_eq!(md.message_count, 0);
    assert_eq!(md.total_tokens, 0);
}

#[test]
fn delete_then_save_third() {
    let reg = CommandRegistry::new();
    let config = RuboxConfig::default_internal();
    let mut st = state_with(3);
    let d = reg.handle("/rm 2", &mut st, &config);
    assert!(d.persist);
    assert!(matches!(d.reply, Reply::Deleted(2)));
    let d = reg.handle("/save 3", &mut st, &config);
    match d.reply {
        Reply::SaveResponse { path, content } => {
            assert_eq!(path, "Chat/saved/session_01022026_101010_3.txt");
            assert_eq!(content, "text 3");
        }
        _ => panic!("expected a file to write"),
    }
    assert!(matches!(reg.handle("/save 2", &mut st, &config).reply, Reply::MessageNotFound(2)));
    let d = reg.handle("/delete 2", &mut st, &config);
    assert!(matches!(d.reply, Reply::MessageNotFound(2)));
    assert!(d.persist);
    assert!(matches!(reg.handle("/delete x", &mut st, &config).reply, Reply::NotANumber(_)));
    assert!(matches!(reg.handle("/delete", &mut st, &config).reply, Reply::DeleteUsage));
    assert!(matches!(reg.handle("/save", &mut st, &config).reply, Reply::SaveUsage));
}

#[test]
fn rename_joins_words() {
    let reg = CommandRegistry::new();
    let config = RuboxConfig::default_internal();
    let mut st = state_with(1);
    let d = reg.handle("/rename big  plan", &mut st, &config);
    assert!(d.persist);
    match d.reply {
        Reply::Renamed(id) => assert_eq!(id, "session_01022026_101010_big_plan"),
        _ => panic!("expected a rename"),
    }
    assert_eq!(st.session.metadata.label.as_deref(), Some("big_plan"));
    assert!(matches!(reg.handle("/rename", &mut st, &config).reply, Reply::RenameUsage));
}

#[test]
fn exit_verbose_and_listings() {
    let reg = CommandRegistry::new();
    let config = RuboxConfig::default_internal();
    let mut st = state_with(0);
    let d = reg.handle("/q", &mut st, &config);
    assert!(matches!(d.result, CommandResult::Exit));
    assert!(d.persist);
    let d = reg.handle("/v", &mut st, &config);
    assert!(matches!(d.reply, Reply::Verbose(true)));
    assert!(st.verbose);
    assert!(matches!(reg.handle("/hist", &mut st, &config).reply, Reply::History));
    assert!(matches!(reg.handle("/sess", &mut st, &config).reply, Reply::Sessions));
    assert!(matches!(reg.handle("/load x", &mut st, &config).reply, Reply::LoadNote));
}

#[test]
fn prompt_arguments() {
    let reg = CommandRegistry::new();
    let config = RuboxConfig::default_internal();
    let mut st = state_with(0);
    assert!(matches!(reg.handle("/p", &mut st, &config).reply, Reply::PromptList));
    assert!(matches!(reg.handle("/prompt list", &mut st, &config).reply, Reply::PromptList));
    assert!(matches!(reg.handle("/prompt 3", &mut st, &config).reply, Reply::LoadPrompt(2)));
    assert!(matches!(reg.handle("/prompt 0", &mut st, &config).reply, Reply::InvalidPromptIndex));
    assert!(matches!(reg.handle("/prompt x", &mut st, &config).reply, Reply::NotANumber(_)));
}

#[test]
fn help_text_lines() {
    let reg = CommandRegistry::new();
    let text = reg.get_help_text();
    assert!(text.starts_with("Available Commands:\n"));
    assert!(text.contains("  /help            - Show this help message\n"));
    assert_eq!(text.lines().count(), 14);
    assert_eq!(reg.get_all_commands().len(), 13);
}

#[test]
fn history_preview_is_fifty_chars() {
    let long: String = "é".repeat(60);
    assert_eq!(preview(&long).chars().count(), 50);
    assert_eq!(preview("short"), "short");
}

#[test]
fn prompt_loading_steps() {
    let names = vec!["a".to_string(), "b".to_string()];
    assert_eq!(prompt_at(&names, 1).map(|s| s.as_str()), Some("b"));
    assert!(prompt_at(&names, 2).is_none());
    let mut st = state_with(2);
    assert!(add_prompt_message(&mut st, "Review this code".to_string()));
    let last = st.session.messages.last().unwrap();
    assert_eq!(last.id, 3);
    assert_eq!(last.role, Role::User);
    assert_eq!(last.content, "Review this code");
    assert_eq!(last.tokens, None);
}
