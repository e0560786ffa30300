use rubox::config::RuboxConfig;
use rubox::llm_client::{completion_url, request_messages, Usage};
use rubox::session::Role;
use rubox::tui::{Action, App, AppEvent, Key, ModalType, UIMode};

fn fresh() -> App {
    let config = RuboxConfig::default_internal();
    App::new("gemma".to_string(), 700, config.models.registry)
}

fn type_text(app: &mut App, s: &str) {
    for c in s.chars() {
        app.handle_event(AppEvent::Key(Key::Char(c)));
    }
}

#[test]
fn hello_then_answer() {
    let mut app = fresh();
    type_text(&mut app, "hello");
    let a = app.handle_event(AppEvent::Key(Key::Enter));
    assert!(matches!(a, Action::StartCompletion));
    assert!(app.is_loading);
    let usage = Usage { prompt_tokens: 5, completion_tokens: 3, total_tokens: 8 };
    app.handle_event(AppEvent::LlmResponse("hi there".to_string(), Some(usage), 1500));
    let m1 = app.state.session.get_message(1).unwrap();
    assert_eq!(m1.role, Role::User);
    assert_eq!(m1.content, "hello");
    let m2 = app.state.session.get_message(2).unwrap();
    assert_eq!(m2.role, Role::Assistant);
    assert_eq!(m2.content, "hi there");
    assert_eq!(m2.tokens, Some(3));
    assert!(!app.is_loading);
    assert_eq!(app.tokens_per_second_milli(), 2000);
}

#[test]
fn second_request_refused_while_loading() {
    let mut app = fresh();
    type_text(&mut app, "first");
    assert!(matches!(app.handle_event(AppEvent::Key(Key::Enter)), Action::StartCompletion));
    type_text(&mut app, "second");
    assert_eq!(app.input_buffer, "second");
    let a = app.handle_event(AppEvent::Key(Key::Enter));
    assert!(matches!(a, Action::Nothing));
    assert_eq!(app.input_buffer, "second");
    assert_eq!(app.state.session.messages.len(), 1);
    app.handle_event(AppEvent::LlmError("connection refused".to_string()));
    assert!(!app.is_loading);
    assert!(matches!(app.handle_event(AppEvent::Key(Key::Enter)), Action::StartCompletion));
    assert_eq!(app.state.session.messages.len(), 2);
}

#[test]
fn blank_input_is_ignored() {
    let mut app = fresh();
    type_text(&mut app, "   ");
    assert!(matches!(app.handle_event(AppEvent::Key(Key::Enter)), Action::Nothing));
    assert!(app.state.session.messages.is_empty());
    assert!(!app.is_loading);
}

#[test]
fn failed_answer_keeps_user_message() {
    let mut app = fresh();
    type_text(&mut app, "hello");
    app.handle_event(AppEvent::Key(Key::Enter));
    app.handle_event(AppEvent::LlmError("timeout".to_string()));
    assert_eq!(app.state.session.messages.len(), 1);
    assert_eq!(app.error_message.as_deref(), Some("timeout"));
}

#[test]
fn error_banner_expires_after_twelve_ticks() {
    let mut app = fresh();
    app.set_error("boom".to_string());
    for _ in 0..12 {
        app.handle_event(AppEvent::Tick);
        assert!(app.error_message.is_some());
    }
    app.handle_event(AppEvent::Tick);
    assert!(app.error_message.is_none());
}

#[test]
fn palette_opens_on_slash_and_filters() {
    let mut app = fresh();
    app.set_error("old".to_string());
    app.handle_event(AppEvent::Key(Key::Char('/')));
    assert_eq!(app.mode, UIMode::CommandPalette);
    assert!(app.error_message.is_none());
    type_text(&mut app, "sess");
    let rows = app.get_filtered_commands();
    let names: Vec<&str> = rows.iter().map(|&i| app.command_registry.get_all_commands()[i].name).collect();
    assert_eq!(names, vec!["sessions", "load", "rename"]);
    assert!(app.input_buffer.is_empty());
    app.handle_event(AppEvent::Key(Key::Esc));
    assert_eq!(app.mode, UIMode::Chat);
    assert!(app.command_search.is_empty());
}

#[test]
fn palette_selection_reemits_command() {
    let mut app = fresh();
    app.handle_event(AppEvent::Key(Key::Char('/')));
    assert_eq!(app.get_filtered_commands().len(), 13);
    app.handle_event(AppEvent::Key(Key::Down));
    app.handle_event(AppEvent::Key(Key::Down));
    assert_eq!(app.selected_command_idx, 2);
    app.handle_event(AppEvent::Key(Key::Up));
    let a = app.handle_event(AppEvent::Key(Key::Enter));
    match a {
        Action::RunCommand(line) => assert_eq!(line, "/exit"),
        _ => panic!("expected a command"),
    }
    assert_eq!(app.mode, UIMode::Chat);
}

#[test]
fn slash_in_middle_of_text_is_typed() {
    let mut app = fresh();
    type_text(&mut app, "a/b");
    assert_eq!(app.mode, UIMode::Chat);
    assert_eq!(app.input_buffer, "a/b");
    app.handle_event(AppEvent::Key(Key::Backspace));
    assert_eq!(app.input_buffer, "a/");
}

#[test]
fn temperature_modal_forwards_to_dispatcher() {
    let mut app = fresh();
    let config = RuboxConfig::default_internal();
    app.open_command_palette();
    app.close_command_palette();
    app.input_buffer = "/temp".to_string();
    assert!(matches!(app.handle_event(AppEvent::Key(Key::Enter)), Action::Nothing));
    assert_eq!(app.mode, UIMode::Modal(ModalType::SetTemperature));
    type_text(&mut app, " 1.5 ");
    let a = app.handle_event(AppEvent::Key(Key::Enter));
    let line = match a {
        Action::RunCommand(line) => line,
        _ => panic!("expected a command"),
    };
    assert_eq!(line, "/set temp 1.5");
    assert_eq!(app.mode, UIMode::Chat);
    assert!(app.modal_input.is_empty());
    app.run_command(&line, &config);
    assert_eq!(app.state.temperature, 1500);
}

#[test]
fn temperature_modal_checks_configured_range() {
    let mut app = fresh();
    let config = RuboxConfig::default_internal();
    app.open_modal(ModalType::SetTemperature);
    type_text(&mut app, "2.5");
    let line = match app.handle_event(AppEvent::Key(Key::Enter)) {
        Action::RunCommand(line) => line,
        _ => panic!("expected a command"),
    };
    let d = app.run_command(&line, &config);
    assert!(matches!(d.reply, rubox::commands::Reply::TemperatureOutOfRange(2500)));
    assert_eq!(app.state.temperature, 700);
    assert_eq!(app.state.session.metadata.temperature, 700);
    app.open_modal(ModalType::SetTemperature);
    type_text(&mut app, "2.0");
    let line = match app.handle_event(AppEvent::Key(Key::Enter)) {
        Action::RunCommand(line) => line,
        _ => panic!("expected a command"),
    };
    app.run_command(&line, &config);
    assert_eq!(app.state.temperature, 2000);
    assert_eq!(app.state.session.metadata.temperature, 2000);
}

#[test]
fn model_selector_picks_sorted_name() {
    let mut app = fresh();
    app.open_modal(ModalType::ModelSelector);
    app.handle_event(AppEvent::Key(Key::Down));
    app.handle_event(AppEvent::Key(Key::Down));
    app.handle_event(AppEvent::Key(Key::Down));
    app.handle_event(AppEvent::Key(Key::Down));
    assert_eq!(app.selected_model_idx, 3);
    match app.handle_event(AppEvent::Key(Key::Enter)) {
        Action::SwitchModel(m) => {
            assert_eq!(m, "qwen3-vl");
            app.model_switched(m);
        }
        _ => panic!("expected a model switch"),
    }
    assert_eq!(app.state.current_model, "qwen3-vl");
    assert_eq!(app.mode, UIMode::Chat);
}

#[test]
fn modal_entry_clears_buffers() {
    let mut app = fresh();
    type_text(&mut app, "draft");
    app.open_modal(ModalType::RenameSession);
    assert!(app.input_buffer.is_empty());
    assert!(app.modal_input.is_empty());
    type_text(&mut app, "x");
    app.handle_event(AppEvent::Key(Key::Esc));
    assert_eq!(app.mode, UIMode::Chat);
    assert!(app.modal_input.is_empty());
}

#[test]
fn esc_in_chat_and_ctrl_c_quit() {
    let mut app = fresh();
    assert!(matches!(app.handle_event(AppEvent::Key(Key::Esc)), Action::Quit));
    assert!(app.should_exit);
    let mut app2 = fresh();
    assert!(matches!(app2.handle_event(AppEvent::Key(Key::Ctrl('c'))), Action::Quit));
    let config = RuboxConfig::default_internal();
    let mut app3 = fresh();
    app3.run_command("/exit", &config);
    assert!(app3.should_exit);
}

#[test]
fn scrolling_bounds() {
    let mut app = fresh();
    app.scroll_up();
    assert_eq!(app.scroll_offset, 0);
    type_text(&mut app, "hi");
    app.handle_event(AppEvent::Key(Key::Enter));
    app.scroll_up();
    app.scroll_up();
    assert_eq!(app.scroll_offset, 5);
    app.scroll_down();
    assert_eq!(app.scroll_offset, 2);
    app.scroll_down();
    assert_eq!(app.scroll_offset, 0);
}

#[test]
fn spinner_cycles() {
    let mut app = fresh();
    let first = app.get_loading_spinner();
    for _ in 0..4 {
        app.tick();
    }
    assert_eq!(app.get_loading_spinner(), first);
    app.tick();
    assert_ne!(app.get_loading_spinner(), first);
}

#[test]
fn request_snapshot_and_url() {
    let mut app = fresh();
    type_text(&mut app, "hello");
    app.handle_event(AppEvent::Key(Key::Enter));
    app.handle_event(AppEvent::LlmResponse("yo".to_string(), None, 0));
    let msgs = request_messages(&app.state.session);
    assert_eq!(msgs.len(), 2);
    assert_eq!(msgs[0].role, "user");
    assert_eq!(msgs[1].role, "assistant");
    assert_eq!(msgs[1].content, "yo");
    assert_eq!(app.tokens_per_second_milli(), 0);
    assert_eq!(completion_url("http://127.0.0.1:8081/v1"), "http://127.0.0.1:8081/v1/chat/completions");
}

#[test]
fn palette_submit_resets_selection_and_banner() {
    let mut app = fresh();
    app.handle_event(AppEvent::Key(Key::Char('/')));
    app.handle_event(AppEvent::Key(Key::Down));
    app.handle_event(AppEvent::Key(Key::Down));
    app.show_banner("note".to_string());
    let r = app.submit_input();
    assert_eq!(r.as_deref(), Some("/verbose"));
    assert_eq!(app.mode, UIMode::Chat);
    assert_eq!(app.selected_command_idx, 0);
    assert!(app.error_message.is_none());
}

#[test]
fn modal_submit_resets_model_selection() {
    let mut app = fresh();
    app.open_modal(ModalType::DeleteMessage);
    app.selected_model_idx = 2;
    type_text(&mut app, " 3 ");
    let r = app.submit_input();
    assert_eq!(r.as_deref(), Some("3"));
    assert_eq!(app.mode, UIMode::Chat);
    assert_eq!(app.selected_model_idx, 0);
    assert!(app.modal_input.is_empty());
}

#[test]
fn mode_changes_clear_banner() {
    let mut app = fresh();
    app.show_banner("old".to_string());
    app.handle_event(AppEvent::Key(Key::Char('/')));
    assert!(app.error_message.is_none());
    app.show_banner("again".to_string());
    app.handle_event(AppEvent::Key(Key::Esc));
    assert_eq!(app.mode, UIMode::Chat);
    assert!(app.error_message.is_none());
}

#[test]
fn failed_answer_asks_for_nothing_and_keeps_running() {
    let mut app = fresh();
    type_text(&mut app, "hello");
    app.handle_event(AppEvent::Key(Key::Enter));
    let a = app.handle_event(AppEvent::LlmError("down".to_string()));
    assert!(matches!(a, Action::Nothing));
    assert!(!app.should_exit);
    assert_eq!(app.state.session.messages.len(), 1);
    assert_eq!(app.state.session.messages[0].content, "hello");
}
