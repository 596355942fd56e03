use tirc::input::{Event, InputHandler, KeyCode, KeyEvent, OutboundCommand, ParsedCommand};
use tirc::message::{DateTime, IrcCommand, IrcEvent, Tag, TircMessage};
use tirc::state::{Mode, State};

fn noon() -> DateTime {
    DateTime { year: 2024, month: 6, day: 1, hour: 12, minute: 0, second: 0 }
}

fn privmsg_from(sender: Option<&str>, target: &str, text: &str, label: Option<&str>) -> IrcEvent {
    let tags = match label {
        Some(value) => vec![Tag { key: "label".to_string(), value: Some(value.to_string()) }],
        None => Vec::new(),
    };
    IrcEvent {
        prefix_nick: sender.map(|s| s.to_string()),
        command: IrcCommand::Privmsg { target: target.to_string(), text: text.to_string() },
        tags,
        raw: format!("PRIVMSG {} :{}", target, text),
    }
}

#[test]
fn test_echo_reconciliation_replaces_in_place() {
    let mut state = State::default();
    state.nickname = "amy".to_string();

    // The provisional local copy, labelled "5".
    let provisional = tirc::input::make_privmsg_event("bob", "hello", "5".to_string());
    state.push_message(TircMessage::from_message(provisional, noon()));
    let bob = state.find_buffer_index("bob").expect("buffer bob exists");
    assert_eq!(state.buffers[bob].messages.len(), 1);

    // Another message sits after it, so position matters.
    let other = privmsg_from(Some("bob"), "amy", "hi amy", None);
    state.push_message(TircMessage::from_message(other, noon()));
    assert_eq!(state.buffers[bob].messages.len(), 2);

    // The server echo carries the same label: it replaces the
    // provisional entry at its position instead of appending.
    let echo = privmsg_from(Some("amy"), "bob", "hello", Some("5"));
    state.push_message(TircMessage::from_message(echo, noon()));
    assert_eq!(state.buffers[bob].messages.len(), 2);
    match &state.buffers[bob].messages[0] {
        TircMessage::Irc { event, .. } => {
            assert_eq!(event.prefix_nick.as_deref(), Some("amy"));
        }
        _ => panic!("expected a protocol message"),
    }
}

#[test]
fn test_unmatched_label_appends() {
    let mut state = State::default();
    state.nickname = "amy".to_string();
    let provisional = tirc::input::make_privmsg_event("bob", "hello", "5".to_string());
    state.push_message(TircMessage::from_message(provisional, noon()));
    let echo = privmsg_from(Some("amy"), "bob", "later", Some("6"));
    state.push_message(TircMessage::from_message(echo, noon()));
    let bob = state.find_buffer_index("bob").expect("buffer bob exists");
    assert_eq!(state.buffers[bob].messages.len(), 2);
}

#[test]
fn test_direct_message_routes_to_sender() {
    let mut state = State::default();
    state.nickname = "amy".to_string();
    let event = privmsg_from(Some("bob"), "amy", "hi", None);
    assert_eq!(state.get_target_buffer_name(&event), "bob");
    state.push_message(TircMessage::from_message(event, noon()));
    assert!(state.find_buffer_index("bob").is_some());
    assert!(state.find_buffer_index("amy").is_none());
}

#[test]
fn test_wildcard_and_self_route_to_status() {
    let mut state = State::default();
    state.nickname = "amy".to_string();
    let wildcard = privmsg_from(None, "*", "motd", None);
    assert_eq!(state.get_target_buffer_name(&wildcard), "(status)");
    let to_self = privmsg_from(None, "amy", "hello", None);
    assert_eq!(state.get_target_buffer_name(&to_self), "(status)");
}

#[test]
fn test_channel_events_route_to_channel() {
    let state = State::default();
    let join = IrcEvent {
        prefix_nick: Some("bob".to_string()),
        command: IrcCommand::Join { channel: "#rust".to_string() },
        tags: Vec::new(),
        raw: "JOIN #rust".to_string(),
    };
    assert_eq!(state.get_target_buffer_name(&join), "#rust");
    let channel_msg = privmsg_from(Some("bob"), "#rust", "hey", None);
    assert_eq!(state.get_target_buffer_name(&channel_msg), "#rust");
}

#[test]
fn test_other_events_route_to_status() {
    let state = State::default();
    let event = IrcEvent {
        prefix_nick: None,
        command: IrcCommand::Other { name: "001".to_string() },
        tags: Vec::new(),
        raw: "001 welcome".to_string(),
    };
    assert_eq!(state.get_target_buffer_name(&event), "(status)");
}

#[test]
fn test_message_command_creates_switches_and_sends() {
    let mut state = State::default();
    let mut handler = InputHandler::new();
    let outcome = handler.handle_command(&mut state, "m bob hello", noon());
    assert!(!outcome.quit);
    assert_eq!(state.buffers.len(), 2);
    assert_eq!(state.current_buffer, "bob");
    assert_eq!(state.mode, Mode::Normal);
    assert_eq!(outcome.commands.len(), 1);
    match &outcome.commands[0] {
        OutboundCommand::Privmsg { target, text, label } => {
            assert_eq!(target, "bob");
            assert_eq!(text, "hello");
            assert_eq!(label, "1");
        }
        _ => panic!("expected a direct message"),
    }
    // The optimistic echo is already in the buffer.
    let bob = state.find_buffer_index("bob").expect("buffer bob exists");
    assert_eq!(state.buffers[bob].messages.len(), 1);
}

#[test]
fn test_message_command_without_text_only_switches() {
    let mut state = State::default();
    let mut handler = InputHandler::new();
    let outcome = handler.handle_command(&mut state, "m bob", noon());
    assert_eq!(state.current_buffer, "bob");
    assert!(outcome.commands.is_empty());
    let bob = state.find_buffer_index("bob").expect("buffer bob exists");
    assert!(state.buffers[bob].messages.is_empty());
}

#[test]
fn test_quit_command() {
    let mut state = State::default();
    let mut handler = InputHandler::new();
    let outcome = handler.handle_command(&mut state, "quit", noon());
    assert!(outcome.quit);
    assert!(matches!(&outcome.commands[0], OutboundCommand::Quit { message } if message == "tirc"));
}

#[test]
fn test_unknown_command_is_ignored() {
    let mut state = State::default();
    let mut handler = InputHandler::new();
    let outcome = handler.handle_command(&mut state, "frobnicate all", noon());
    assert!(!outcome.quit);
    assert!(outcome.commands.is_empty());
    assert_eq!(state.buffers.len(), 1);
}

#[test]
fn test_me_command_targets_current_buffer() {
    let mut state = State::default();
    state.create_buffer_if_not_exists("#rust");
    state.set_current_buffer("#rust");
    let mut handler = InputHandler::new();
    let outcome = handler.handle_command(&mut state, "me waves", noon());
    match &outcome.commands[0] {
        OutboundCommand::Privmsg { target, text, .. } => {
            assert_eq!(target, "#rust");
            assert_eq!(text, "\u{1}ACTION waves\u{1}");
        }
        _ => panic!("expected a direct message"),
    }
}

#[test]
fn test_notice_command_is_not_echoed() {
    let mut state = State::default();
    let mut handler = InputHandler::new();
    let outcome = handler.handle_command(&mut state, "notice bob psst", noon());
    assert!(matches!(&outcome.commands[0],
        OutboundCommand::Notice { target, text } if target == "bob" && text == "psst"));
    let bob = state.find_buffer_index("bob").expect("buffer bob exists");
    assert!(state.buffers[bob].messages.is_empty());
}

#[test]
fn test_parse_command_grammar() {
    assert!(matches!(tirc::input::parse_command("msg bob hi there"),
        ParsedCommand::Message { target, message: Some(m) } if target == "bob" && m == "hi there"));
    assert!(matches!(tirc::input::parse_command("j #rust"),
        ParsedCommand::Join { channel } if channel == "#rust"));
    assert!(matches!(tirc::input::parse_command("p #rust"),
        ParsedCommand::Part { channel } if channel == "#rust"));
    assert!(matches!(tirc::input::parse_command("n ned"),
        ParsedCommand::Nick { nickname } if nickname == "ned"));
    assert!(matches!(tirc::input::parse_command("whois bob"),
        ParsedCommand::Whois { nickname } if nickname == "bob"));
    assert!(matches!(tirc::input::parse_command("list"), ParsedCommand::List));
    assert!(matches!(tirc::input::parse_command("q"), ParsedCommand::Quit));
    assert!(matches!(tirc::input::parse_command("desc bob does a thing"),
        ParsedCommand::Describe { target, message } if target == "bob" && message == "does a thing"));
    // Insufficient arguments and unknown names are ignored.
    assert!(matches!(tirc::input::parse_command("desc bob"), ParsedCommand::Ignored));
    assert!(matches!(tirc::input::parse_command("notice bob"), ParsedCommand::Ignored));
    assert!(matches!(tirc::input::parse_command("me"), ParsedCommand::Ignored));
    assert!(matches!(tirc::input::parse_command(""), ParsedCommand::Ignored));
    assert!(matches!(tirc::input::parse_command("nonsense"), ParsedCommand::Ignored));
}

#[test]
fn test_mode_transitions() {
    let mut state = State::default();
    let mut handler = InputHandler::new();
    let press = |code| Event::Input(KeyEvent { code });

    handler.handle_event(&mut state, press(KeyCode::Char('i')), "", noon());
    assert_eq!(state.mode, Mode::Insert);
    let outcome = handler.handle_event(&mut state, press(KeyCode::Esc), "", noon());
    assert_eq!(state.mode, Mode::Normal);
    assert!(outcome.reset_input);
    handler.handle_event(&mut state, press(KeyCode::Char(':')), "", noon());
    assert_eq!(state.mode, Mode::Command);
}

#[test]
fn test_buffer_keys_work_in_any_mode() {
    let mut state = State::default();
    state.create_buffer_if_not_exists("foo");
    state.mode = Mode::Insert;
    let mut handler = InputHandler::new();
    handler.handle_event(&mut state, Event::Input(KeyEvent { code: KeyCode::Tab }), "", noon());
    assert_eq!(state.current_buffer, "foo");
    handler.handle_event(&mut state, Event::Input(KeyEvent { code: KeyCode::BackTab }), "", noon());
    assert_eq!(state.current_buffer, "(status)");
    handler.handle_event(
        &mut state,
        Event::Input(KeyEvent { code: KeyCode::Char('1') }),
        "",
        noon(),
    );
    assert_eq!(state.current_buffer, "foo");
    // An out-of-range jump is a no-op, never a wrap.
    handler.handle_event(
        &mut state,
        Event::Input(KeyEvent { code: KeyCode::Char('9') }),
        "",
        noon(),
    );
    assert_eq!(state.current_buffer, "foo");
}

#[test]
fn test_insert_enter_sends_to_current_buffer() {
    let mut state = State::default();
    state.create_buffer_if_not_exists("bob");
    state.set_current_buffer("bob");
    state.mode = Mode::Insert;
    let mut handler = InputHandler::new();
    let outcome = handler.handle_event(
        &mut state,
        Event::Input(KeyEvent { code: KeyCode::Enter }),
        "hello there",
        noon(),
    );
    assert!(outcome.reset_input);
    // Insert mode stays: sending does not leave compose mode.
    assert_eq!(state.mode, Mode::Insert);
    assert!(matches!(&outcome.commands[0],
        OutboundCommand::Privmsg { target, text, .. } if target == "bob" && text == "hello there"));
    let bob = state.find_buffer_index("bob").expect("buffer bob exists");
    assert_eq!(state.buffers[bob].messages.len(), 1);
}

#[test]
fn test_insert_enter_blank_sends_nothing() {
    let mut state = State::default();
    state.mode = Mode::Insert;
    let mut handler = InputHandler::new();
    let outcome = handler.handle_event(
        &mut state,
        Event::Input(KeyEvent { code: KeyCode::Enter }),
        "   ",
        noon(),
    );
    assert!(outcome.reset_input);
    assert!(outcome.commands.is_empty());
}

#[test]
fn test_inbound_event_is_pushed_and_flagged() {
    let mut state = State::default();
    state.nickname = "amy".to_string();
    let mut handler = InputHandler::new();
    let event = privmsg_from(Some("bob"), "amy", "hi", None);
    let outcome = handler.handle_event(&mut state, Event::Message(Box::new(event)), "", noon());
    assert!(outcome.emit_message_event);
    let bob = state.find_buffer_index("bob").expect("buffer bob exists");
    assert_eq!(state.buffers[bob].messages.len(), 1);
}

#[test]
fn test_keys_forward_to_editor_in_compose_modes() {
    let mut state = State::default();
    state.mode = Mode::Insert;
    let mut handler = InputHandler::new();
    let outcome = handler.handle_event(
        &mut state,
        Event::Input(KeyEvent { code: KeyCode::Char('x') }),
        "",
        noon(),
    );
    assert!(outcome.forward_key);
}

#[test]
fn test_label_counter_is_monotonic() {
    let mut state = State::default();
    let mut handler = InputHandler::new();
    let first = handler.handle_command(&mut state, "m bob one", noon());
    let second = handler.handle_command(&mut state, "m bob two", noon());
    let label_of = |o: &tirc::input::CommandOutcome| match &o.commands[0] {
        OutboundCommand::Privmsg { label, .. } => label.clone(),
        _ => panic!("expected a direct message"),
    };
    assert_eq!(label_of(&first), "1");
    assert_eq!(label_of(&second), "2");
}

#[test]
fn test_u64_to_string() {
    assert_eq!(tirc::text::u64_to_string(0), "0");
    assert_eq!(tirc::text::u64_to_string(42), "42");
    assert_eq!(tirc::text::u64_to_string(1234567890), "1234567890");
}

#[test]
fn test_registry_single_dispatch() {
    let mut registry = tirc::bridge::HandlerRegistry::new();
    assert_eq!(registry.emit_target("message"), None);
    registry.on("message", 11);
    registry.on("message", 22);
    registry.on("format-user", 33);
    // Only the first handler registered under a name is invoked.
    assert_eq!(registry.emit_target("message"), Some(11));
    assert_eq!(registry.emit_target("format-user"), Some(33));
    assert_eq!(registry.emit_target("format-message-time"), None);
}

#[test]
fn test_sync_state_creates_channel_buffers() {
    let mut state = State::default();
    let handler = InputHandler::new();
    let channels = vec!["#rust".to_string(), "#verus".to_string()];
    let users = vec![tirc::state::User {
        nickname: "bob".to_string(),
        access_level: tirc::state::AccessLevel::Member,
    }];
    handler.sync_state(&mut state, "amy", &channels, users.clone());
    assert_eq!(state.nickname, "amy");
    assert_eq!(state.buffers.len(), 3);
    // The default buffer keeps no user list.
    assert!(state.users_in_current_buffer.is_empty());
    state.set_current_buffer("#rust");
    handler.sync_state(&mut state, "amy", &channels, users);
    assert_eq!(state.users_in_current_buffer.len(), 1);
    // Already-known channels are not duplicated.
    assert_eq!(state.buffers.len(), 3);
}

#[test]
fn test_server_config_defaults() {
    assert!(tirc::config::bool_true());
    assert_eq!(tirc::config::default_port(), 6697);
    let server = tirc::config::ServerConfig::with_defaults(
        "irc.example.net".to_string(),
        vec!["amy".to_string()],
    );
    assert_eq!(server.port, 6697);
    assert!(server.use_tls);
    assert!(!server.accept_invalid_cert);
    assert!(server.realname.is_none());
    assert!(server.autojoin.is_empty());
}

#[test]
fn test_projection_keeps_raw_form() {
    let event = privmsg_from(Some("bob"), "amy", "hi", None);
    let raw = event.raw.clone();
    let message = TircMessage::from_message(event, noon());
    match message.get_lua_message() {
        tirc::style::ScriptValue::Tbl(t) => {
            let raw_entry = t
                .rec
                .iter()
                .find(|(k, _)| k == "raw")
                .expect("projection has the raw form");
            assert!(matches!(&raw_entry.1, tirc::style::ScriptValue::Str(s) if *s == raw));
        }
        _ => panic!("projection must be a record"),
    }
}

#[test]
fn test_topic_mode_part_route_to_channel() {
    let state = State::default();
    let topic = IrcEvent {
        prefix_nick: Some("bob".to_string()),
        command: IrcCommand::Topic {
            channel: "#rust".to_string(),
            topic: Some("new topic".to_string()),
        },
        tags: Vec::new(),
        raw: "TOPIC #rust :new topic".to_string(),
    };
    assert_eq!(state.get_target_buffer_name(&topic), "#rust");
    let mode = IrcEvent {
        prefix_nick: Some("bob".to_string()),
        command: IrcCommand::ChannelMode {
            channel: "#rust".to_string(),
            modes: "+o amy".to_string(),
        },
        tags: Vec::new(),
        raw: "MODE #rust +o amy".to_string(),
    };
    assert_eq!(state.get_target_buffer_name(&mode), "#rust");
    let part = IrcEvent {
        prefix_nick: Some("bob".to_string()),
        command: IrcCommand::Part {
            channel: "#rust".to_string(),
            comment: None,
        },
        tags: Vec::new(),
        raw: "PART #rust".to_string(),
    };
    assert_eq!(state.get_target_buffer_name(&part), "#rust");
}

#[test]
fn test_describe_creates_buffer_without_switching() {
    let mut state = State::default();
    let mut handler = InputHandler::new();
    let outcome = handler.handle_command(&mut state, "describe bob does a dance", noon());
    assert_eq!(state.current_buffer, "(status)");
    let bob = state.find_buffer_index("bob").expect("buffer bob exists");
    assert_eq!(state.buffers[bob].messages.len(), 1);
    assert!(matches!(&outcome.commands[0],
        OutboundCommand::Privmsg { target, text, .. }
            if target == "bob" && text == "\u{1}ACTION does a dance\u{1}"));
}

#[test]
fn test_tick_changes_nothing() {
    let mut state = State::default();
    let mut handler = InputHandler::new();
    let outcome = handler.handle_event(&mut state, Event::Tick, "pending text", noon());
    assert!(outcome.commands.is_empty());
    assert!(!outcome.reset_input);
    assert!(!outcome.forward_key);
    assert!(!outcome.emit_message_event);
    assert!(!outcome.quit);
    assert_eq!(state.buffers.len(), 1);
    assert_eq!(state.mode, Mode::Normal);
}

#[test]
fn test_channel_name_detection() {
    assert!(tirc::state::is_channel_name("#rust"));
    assert!(tirc::state::is_channel_name("&local"));
    assert!(tirc::state::is_channel_name("+modeless"));
    assert!(tirc::state::is_channel_name("!secure"));
    assert!(!tirc::state::is_channel_name("bob"));
    assert!(!tirc::state::is_channel_name(""));
}

#[test]
fn test_join_and_nick_commands() {
    let mut state = State::default();
    let mut handler = InputHandler::new();
    let join = handler.handle_command(&mut state, "j #rust", noon());
    assert!(matches!(&join.commands[0],
        OutboundCommand::Join { channel } if channel == "#rust"));
    let nick = handler.handle_command(&mut state, "nick ned", noon());
    assert!(matches!(&nick.commands[0],
        OutboundCommand::Nick { nickname } if nickname == "ned"));
    let list = handler.handle_command(&mut state, "list", noon());
    assert!(matches!(&list.commands[0], OutboundCommand::List));
}
