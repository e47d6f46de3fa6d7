use acpbridge::bot::Bot;
use acpbridge::channel::{ChatId, IncomingMessage, OutgoingContent, OutgoingMessage};
use acpbridge::clock::SECOND;
use acpbridge::config::{
    AgentConfig, BotConfig, ChannelConfig, Config, PlatformConfig, TelegramConfig,
};
use acpbridge::egress::Egress;
use acpbridge::ingress::{Ingress, Route, SwitchStep, IDLE_TIMEOUT};
use acpbridge::mcp_server::{
    bind_address, check_mention, mention_answer, parse_request_context, split_request_path,
};
use acpbridge::message::{IngressContent, IngressMessage};
use acpbridge::message_bus::{
    bot_delivery, channel_delivery, BotEvent, BotInstanceKey, MessageBus,
};
use acpbridge::option_map::OptionMap;
use acpbridge::orchestrator::{Orchestrator, OrchestratorStep};

fn bot(name: &str, description: Option<&str>) -> BotConfig {
    BotConfig {
        name: name.to_string(),
        description: description.map(|s| s.to_string()),
        agent: AgentConfig { command: "missing-agent".to_string(), args: vec!["acp".to_string()] },
        working_dir: None,
        model: None,
        mode: None,
        config_options: OptionMap::new(),
        instructions: None,
        show_thinking: true,
        show_auto_approved: true,
    }
}

fn channel(name: &str, default_bot: Option<&str>, bots: &[&str]) -> ChannelConfig {
    ChannelConfig {
        name: name.to_string(),
        platform: PlatformConfig::Telegram { telegram: TelegramConfig { token: "token".to_string() } },
        default_bot: default_bot.map(|s| s.to_string()),
        bots: bots.iter().map(|s| s.to_string()).collect(),
        mention_only: false,
    }
}

fn test_config() -> Config {
    Config {
        mcp_server: None,
        bots: vec![bot("test-bot", None)],
        channels: vec![channel("test-channel", Some("test-bot"), &["test-bot"])],
    }
}

fn two_bots() -> Config {
    Config {
        mcp_server: None,
        bots: vec![bot("a", Some("first")), bot("b", None)],
        channels: vec![
            channel("ch", Some("a"), &["a", "b"]),
            channel("other", None, &["b", "ghost"]),
            channel("haunted", Some("ghost"), &["ghost"]),
        ],
    }
}

fn key(channel: &str, chat: &str, bot: &str) -> BotInstanceKey {
    BotInstanceKey {
        channel_name: channel.to_string(),
        chat_id: ChatId(chat.to_string()),
        bot_name: bot.to_string(),
    }
}

fn chat(id: &str) -> ChatId {
    ChatId(id.to_string())
}

fn said(m: &OutgoingMessage) -> String {
    match &m.content {
        OutgoingContent::Text(t) => format!("text {}", t),
        OutgoingContent::Error(t) => format!("error {}", t),
        _ => panic!("expected a text or an error"),
    }
}

fn all_said(v: &Vec<OutgoingMessage>) -> Vec<String> {
    v.iter().map(said).collect()
}

// ---------------------------------------------------------------------------
// The bus
// ---------------------------------------------------------------------------

#[test]
fn messages_find_their_way_on_the_bus() {
    let mut bus = MessageBus::default();
    assert_eq!(bus.send("ch").unwrap_err().message(), "Channel not found: ch");
    bus.register_channel("ch".to_string(), 1);
    assert_eq!(bus.send("ch").unwrap(), 1);
    let k = key("ch", "1", "a");
    assert_eq!(
        bus.dispatch(&k).unwrap_err().message(),
        "Bot instance not found: channel=ch, chat=1, bot=a"
    );
    assert_eq!(bus.register_bot(k.clone(), 6), None);
    assert_eq!(bus.register_bot(k.clone(), 7), Some(6));
    bus.register_bot(key("ch", "2", "a"), 8);
    assert_eq!(bus.dispatch(&k).unwrap(), 7);
    assert!(bus.has_bot(&k));
    assert_eq!(bus.unregister_bot(&k), Some(7));
    assert_eq!(bus.unregister_bot(&k), None);
    assert!(!bus.has_bot(&k));
    assert!(bus.dispatch(&k).is_err());
    assert_eq!(bus.dispatch(&key("ch", "2", "a")).unwrap(), 8);
    assert!(bot_delivery(true).is_ok());
    assert_eq!(bot_delivery(false).unwrap_err().message(), "Bot event channel closed");
    assert!(channel_delivery(true).is_ok());
    assert_eq!(channel_delivery(false).unwrap_err().message(), "Channel outgoing channel closed");
}

#[test]
fn messages_find_their_way_out() {
    let mut egress = Egress::default();
    assert_eq!(egress.send("x").unwrap_err().message(), "Channel not found: x");
    egress.register_channel("x".to_string(), 1);
    egress.register_channel("x".to_string(), 2);
    assert_eq!(egress.send("x").unwrap(), 2);
    assert!(Egress::new().send("x").is_err());
}

// ---------------------------------------------------------------------------
// The orchestrator
// ---------------------------------------------------------------------------

#[test]
fn bot_exit_cleans_up_stale_state() {
    let mut message_bus = MessageBus::new();
    let mut orchestrator = Orchestrator::new(test_config(), None);
    let chat_id = ChatId("chat-1".to_string());
    let mb_key = key("test-channel", "chat-1", "test-bot");

    let served = orchestrator.get_or_create(&mut message_bus, "test-channel", &chat_id, 0, 1);
    assert_eq!(served.bot_name, Some("test-bot".to_string()));
    assert!(orchestrator.is_running(&mb_key));

    orchestrator.handle_bot_exit(&mut message_bus, "test-channel", &chat_id, "test-bot");

    assert!(orchestrator.current("test-channel", &chat_id).is_none());
    assert!(!orchestrator.is_running(&mb_key));
    let _message = IncomingMessage::text("hello".to_string());
    assert!(
        message_bus
            .dispatch(&mb_key)
            .unwrap_err()
            .message()
            .contains("Bot instance not found")
    );
}

#[test]
fn bot_exit_keeps_replacement_active_bot() {
    let mut message_bus = MessageBus::new();
    let mut config = test_config();
    config.bots.push(bot("replacement-bot", None));
    config.channels[0].bots.push("replacement-bot".to_string());
    let mut orchestrator = Orchestrator::new(config, None);
    let chat_id = ChatId("chat-1".to_string());
    let old = key("test-channel", "chat-1", "test-bot");

    let _ = orchestrator.get_or_create(&mut message_bus, "test-channel", &chat_id, 0, 1);
    let switched =
        orchestrator.complete_switch(&mut message_bus, "test-channel", &chat_id, "replacement-bot", 1, 2);
    assert!(switched.started);
    assert!(orchestrator.is_running(&old));

    let line = orchestrator.handle_bot_exit(&mut message_bus, "test-channel", &chat_id, "test-bot");
    assert_eq!(line, Some(1));

    assert_eq!(
        orchestrator.current("test-channel", &chat_id),
        Some("replacement-bot".to_string())
    );
    assert!(!orchestrator.is_running(&old));
    assert!(orchestrator.is_running(&key("test-channel", "chat-1", "replacement-bot")));
}

#[test]
fn bot_exit_keeps_a_replacement_that_is_not_at_work() {
    let mut bus = MessageBus::new();
    let mut config = test_config();
    config.bots.push(bot("replacement-bot", None));
    config.channels[0].bots.push("replacement-bot".to_string());
    let mut orchestrator = Orchestrator::new(config, None);
    let chat_id = ChatId("chat-1".to_string());
    let old = key("test-channel", "chat-1", "test-bot");
    let new = key("test-channel", "chat-1", "replacement-bot");

    let _ = orchestrator.get_or_create(&mut bus, "test-channel", &chat_id, 0, 1);
    let _ = orchestrator.complete_switch(&mut bus, "test-channel", &chat_id, "replacement-bot", 1, 2);
    let step = orchestrator
        .handle_bot_command(&mut bus, "test-channel", &chat_id, &Some("test-bot".to_string()))
        .unwrap();
    assert!(matches!(step, OrchestratorStep::Switch { pause: true, shutdown: Some(2), .. }));
    assert!(orchestrator.is_running(&old));
    assert!(!orchestrator.is_running(&new));

    orchestrator.handle_bot_exit(&mut bus, "test-channel", &chat_id, "test-bot");

    assert_eq!(
        orchestrator.current("test-channel", &chat_id),
        Some("replacement-bot".to_string())
    );
    assert!(!orchestrator.is_running(&old));
    assert!(!orchestrator.is_running(&new));
    let (idle, lines) = orchestrator.cleanup_idle(&mut bus, u64::MAX, 0);
    assert!(idle.is_empty() && lines.is_empty());
}

#[test]
fn messages_go_to_the_latest_line() {
    let mut bus = MessageBus::new();
    let a = key("ch", "1", "a");
    let b = key("ch", "1", "b");
    assert_eq!(
        bus.dispatch(&a).unwrap_err().message(),
        "Bot instance not found: channel=ch, chat=1, bot=a"
    );
    assert_eq!(bus.register_bot(a.clone(), 1), None);
    assert_eq!(bus.register_bot(b.clone(), 2), None);
    assert_eq!(bus.register_bot(a.clone(), 3), Some(1));
    assert_eq!((bus.dispatch(&a).unwrap(), bus.dispatch(&b).unwrap()), (3, 2));
    assert_eq!(bus.unregister_bot(&a), Some(3));
    assert!(bus.dispatch(&a).is_err());
    assert_eq!(bus.dispatch(&b).unwrap(), 2);
}

#[test]
fn chats_get_their_own_bots() {
    let mut bus = MessageBus::new();
    let mut orchestrator = Orchestrator::new(two_bots(), Some(8080));
    assert_eq!(orchestrator.mcp_server_port(), Some(8080));
    let first = orchestrator.get_or_create(&mut bus, "ch", &chat("1"), 0, 11);
    assert_eq!((first.bot_name, first.start, first.shutdown), (Some("a".to_string()), true, None));
    let again = orchestrator.get_or_create(&mut bus, "ch", &chat("1"), 1, 12);
    assert_eq!((again.bot_name, again.start, again.shutdown), (Some("a".to_string()), false, None));
    let other = orchestrator.get_or_create(&mut bus, "other", &chat("1"), 2, 13);
    assert_eq!((other.bot_name, other.start), (Some("b".to_string()), true));
    assert_eq!(bus.dispatch(&key("ch", "1", "a")).unwrap(), 11);
    assert_eq!(bus.dispatch(&key("other", "1", "b")).unwrap(), 13);
    for unserved in ["haunted", "nowhere"] {
        let none = orchestrator.get_or_create(&mut bus, unserved, &chat("1"), 3, 14);
        assert_eq!((none.bot_name, none.start, none.shutdown), (None, false, None));
    }
    assert!(orchestrator.get_bot("a").is_some());
    assert!(orchestrator.get_bot("ghost").is_none());
}

#[test]
fn bots_are_listed_and_switched() {
    let mut bus = MessageBus::new();
    let mut orchestrator = Orchestrator::new(two_bots(), None);
    let _ = orchestrator.get_or_create(&mut bus, "ch", &chat("1"), 0, 11);
    let mut ask = |o: &mut Orchestrator, bus: &mut MessageBus, args: Option<&str>| {
        match o.handle_bot_command(bus, "ch", &chat("1"), &args.map(|s| s.to_string())).unwrap() {
            OrchestratorStep::Say(m) => said(&m),
            _ => panic!("expected an answer"),
        }
    };
    assert_eq!(
        ask(&mut orchestrator, &mut bus, None),
        "text Available bots:\n- a (current) — first\n- b — No description"
    );
    assert_eq!(
        ask(&mut orchestrator, &mut bus, Some(" c ")),
        "error Bot 'c' is not available on this channel. Use /bot to list."
    );
    assert_eq!(ask(&mut orchestrator, &mut bus, Some(" a ")), "text Already using bot: a");
    match orchestrator.handle_bot_command(&mut bus, "ch", &chat("1"), &Some("b".to_string())).unwrap() {
        OrchestratorStep::Switch { target, pause, shutdown } => {
            assert_eq!((target.as_str(), pause, shutdown), ("b", true, Some(11)));
        }
        _ => panic!("expected a switch"),
    }
    assert!(!bus.has_bot(&key("ch", "1", "a")));
    let switched = orchestrator.complete_switch(&mut bus, "ch", &chat("1"), "b", 5, 12);
    assert!(switched.started);
    assert_eq!(switched.replaced, None);
    assert_eq!(all_said(&switched.say), vec!["text Switching to bot: b...", "text Switched to bot: b"]);
    let served = orchestrator.get_or_create(&mut bus, "ch", &chat("1"), 6, 13);
    assert_eq!((served.bot_name, served.start), (Some("b".to_string()), false));
    assert_eq!(bus.dispatch(&key("ch", "1", "b")).unwrap(), 12);

    let missing = orchestrator.handle_bot_command(&mut bus, "nowhere", &chat("1"), &None);
    assert_eq!(missing.unwrap_err().message(), "Channel not found: nowhere");

    match orchestrator.handle_bot_command(&mut bus, "other", &chat("9"), &Some("ghost".to_string())).unwrap() {
        OrchestratorStep::Switch { pause, shutdown, .. } => assert_eq!((pause, shutdown), (false, None)),
        _ => panic!("expected a switch"),
    }
    let switched = orchestrator.complete_switch(&mut bus, "other", &chat("9"), "ghost", 7, 14);
    assert!(!switched.started);
    assert_eq!(
        all_said(&switched.say),
        vec!["text Switching to bot: ghost...", "error Failed to start bot: Bot config not found: ghost"]
    );
}

#[test]
fn bots_that_are_gone_are_made_again() {
    let mut bus = MessageBus::new();
    let mut orchestrator = Orchestrator::new(two_bots(), None);
    let _ = orchestrator.get_or_create(&mut bus, "ch", &chat("1"), 0, 11);
    let _ = orchestrator.handle_bot_command(&mut bus, "ch", &chat("1"), &Some("b".to_string()));
    // Between the two steps of a change the chat has a bot that is not at work.
    bus.register_bot(key("ch", "1", "a"), 99);
    let served = orchestrator.get_or_create(&mut bus, "ch", &chat("1"), 1, 12);
    assert_eq!((served.bot_name, served.start, served.shutdown), (Some("a".to_string()), true, Some(99)));
    assert_eq!(bus.dispatch(&key("ch", "1", "a")).unwrap(), 12);
}

#[test]
fn idle_bots_are_cleaned_up() {
    let mut bus = MessageBus::new();
    let mut orchestrator = Orchestrator::new(two_bots(), None);
    let _ = orchestrator.get_or_create(&mut bus, "ch", &chat("old"), 0, 1);
    let _ = orchestrator.get_or_create(&mut bus, "ch", &chat("new"), 10 * SECOND, 2);
    let (keys, lines) = orchestrator.cleanup_idle(&mut bus, 1800 * SECOND, 1800 * SECOND);
    assert!(keys.is_empty() && lines.is_empty());
    let (keys, lines) = orchestrator.cleanup_idle(&mut bus, 1800 * SECOND + 1, 1800 * SECOND);
    assert_eq!(keys, vec![key("ch", "old", "a")]);
    assert_eq!(lines, vec![Some(1)]);
    assert!(orchestrator.current("ch", &chat("old")).is_none());
    assert_eq!(orchestrator.current("ch", &chat("new")), Some("a".to_string()));
    assert!(!bus.has_bot(&key("ch", "old", "a")));
    assert!(bus.has_bot(&key("ch", "new", "a")));
}

#[test]
fn bots_find_each_other() {
    let mut bus = MessageBus::new();
    let mut orchestrator = Orchestrator::new(two_bots(), None);
    let names = |v: Vec<acpbridge::orchestrator::BotInfo>| -> Vec<String> {
        v.into_iter().map(|b| b.name).collect()
    };
    assert_eq!(names(orchestrator.search_bots("ch", &chat("1"), "a")), vec!["b"]);
    assert_eq!(names(orchestrator.search_bots("other", &chat("1"), "x")), vec!["b"]);
    assert!(orchestrator.search_bots("nowhere", &chat("1"), "a").is_empty());
    let _ = orchestrator.get_or_create(&mut bus, "ch", &chat("1"), 0, 1);
    let _ = orchestrator.get_or_create(&mut bus, "other", &chat("1"), 0, 2);
    let found = orchestrator.search_bots("other", &chat("1"), "b");
    assert_eq!(found.len(), 1);
    assert_eq!(found[0].name, "a");
    assert_eq!(found[0].description, Some("first".to_string()));
    assert_eq!(names(orchestrator.search_bots("ch", &chat("2"), "b")), vec!["a"]);
}

#[test]
fn bots_are_mentioned_on_another_channel() {
    let mut bus = MessageBus::new();
    let orchestrator = Orchestrator::new(two_bots(), None);
    let refused = orchestrator.mention_bot(&bus, "ch", "b", "hi").unwrap_err();
    assert_eq!(refused.message(), "Failed to send mention: Channel not found: ch");
    bus.register_channel("ch".to_string(), 5);
    for (target, expected) in [("b", Some("other")), ("a", Some("ch")), ("x", None)] {
        let (line, message) = orchestrator.mention_bot(&bus, "ch", target, "hi").unwrap();
        assert_eq!(line, 5);
        match message.content {
            OutgoingContent::Mention { target_bot, target_channel_name, message } => {
                assert_eq!(target_bot, target);
                assert_eq!(target_channel_name, expected.map(|s| s.to_string()));
                assert_eq!(message, "hi");
            }
            _ => panic!("expected a mention"),
        }
    }
}

// ---------------------------------------------------------------------------
// The ingress
// ---------------------------------------------------------------------------

fn text_in(channel: &str, chat_id: &str) -> IngressMessage {
    IngressMessage {
        channel_name: channel.to_string(),
        chat_id: chat(chat_id),
        content: IngressContent::Text("hi".to_string()),
    }
}

fn command_in(name: &str, args: Option<&str>) -> IngressMessage {
    IngressMessage {
        channel_name: "ch".to_string(),
        chat_id: chat("1"),
        content: IngressContent::Command {
            name: name.to_string(),
            args: args.map(|s| s.to_string()),
        },
    }
}

#[test]
fn messages_find_their_session() {
    let mut ingress = Ingress::new(two_bots());
    match ingress.handle_message(&text_in("ch", "1"), 0, 11) {
        Route::Start { bot_name, line, replaced } => {
            assert_eq!((bot_name.as_str(), line, replaced), ("a", 11, None));
        }
        _ => panic!("expected a new session"),
    }
    assert!(matches!(ingress.handle_message(&text_in("ch", "1"), 1, 12), Route::Deliver { line: 11 }));
    assert!(matches!(ingress.handle_message(&command_in("new", None), 1, 12), Route::Deliver { line: 11 }));
    assert!(matches!(ingress.handle_message(&text_in("ch", "2"), 1, 13), Route::Start { line: 13, .. }));
    match ingress.handle_message(&command_in("bot", Some("b")), 2, 14) {
        Route::Command { args } => assert_eq!(args, Some("b".to_string())),
        _ => panic!("expected a command"),
    }
    for channel in ["haunted", "nowhere"] {
        match ingress.handle_message(&text_in(channel, "1"), 3, 15) {
            Route::Refuse(m) => assert_eq!(said(&m), "error Failed to create session"),
            _ => panic!("expected a refusal"),
        }
    }
    assert_eq!(ingress.session_exited("ch", &chat("1"), "a"), Some(11));
    assert_eq!(ingress.session_exited("ch", &chat("1"), "a"), None);
    assert!(matches!(ingress.handle_message(&text_in("ch", "1"), 4, 16), Route::Start { line: 16, .. }));
}

#[test]
fn sessions_are_switched() {
    let mut ingress = Ingress::new(two_bots());
    let target = Some("b".to_string());
    match ingress.handle_bot_command("ch", &chat("1"), &target) {
        SwitchStep::Switch { target, pause } => assert_eq!((target.as_str(), pause), ("b", false)),
        _ => panic!("expected a switch"),
    }
    let _ = ingress.handle_message(&text_in("ch", "1"), 0, 11);
    match ingress.handle_bot_command("ch", &chat("1"), &None) {
        SwitchStep::Say(m) => assert_eq!(
            said(&m),
            "text Available bots:\n- a (current) — first\n- b — No description"
        ),
        _ => panic!("expected an answer"),
    }
    match ingress.handle_bot_command("ch", &chat("1"), &target) {
        SwitchStep::Switch { pause, .. } => assert!(pause),
        _ => panic!("expected a switch"),
    }
    let switched = ingress.complete_switch("ch", &chat("1"), "b", 1, 12);
    assert!(switched.started);
    assert_eq!(switched.replaced, None);
    assert_eq!(all_said(&switched.say), vec!["text Switching to bot: b...", "text Switched to bot: b"]);
    assert!(matches!(ingress.handle_message(&text_in("ch", "1"), 2, 13), Route::Deliver { line: 12 }));
    assert!(matches!(ingress.handle_bot_command("nowhere", &chat("1"), &None), SwitchStep::Ignore));
    // Changing back takes the place of the session that was left.
    assert_eq!(ingress.complete_switch("ch", &chat("1"), "a", 3, 14).replaced, Some(11));
    let switched = ingress.complete_switch("other", &chat("1"), "ghost", 1, 12);
    assert!(!switched.started);
    assert_eq!(said(&switched.say[1]), "error Failed to start bot: Bot config not found: ghost");
}

#[test]
fn idle_sessions_are_cleaned_up() {
    let mut ingress = Ingress::new(two_bots());
    let _ = ingress.handle_message(&text_in("ch", "old"), 0, 1);
    let _ = ingress.handle_message(&text_in("ch", "new"), 0, 2);
    let _ = ingress.handle_message(&text_in("ch", "new"), 5, 3);
    assert!(ingress.cleanup_idle(1800 * SECOND, IDLE_TIMEOUT).0.is_empty());
    let (keys, lines) = ingress.cleanup_idle(1800 * SECOND + 1, IDLE_TIMEOUT);
    assert_eq!(keys, vec![key("ch", "old", "a")]);
    assert_eq!(lines, vec![Some(1)]);
    assert!(matches!(ingress.handle_message(&text_in("ch", "new"), 6, 4), Route::Deliver { line: 2 }));
    assert!(matches!(ingress.handle_message(&text_in("ch", "old"), 6, 5), Route::Start { line: 5, .. }));
}

// ---------------------------------------------------------------------------
// The MCP server
// ---------------------------------------------------------------------------

#[test]
fn parses_mcp_path() {
    let context = parse_request_context("telegram/bot-a/chat-1").unwrap();
    assert_eq!(context.channel_name, "telegram");
    assert_eq!(context.bot_name, "bot-a");
    assert_eq!(context.chat_id.0, "chat-1");
}

#[test]
fn decodes_url_encoded_chat_id() {
    let context = parse_request_context("telegram/bot-a/chat%3Athread").unwrap();
    assert_eq!(context.chat_id.0, "chat:thread");
}

#[test]
fn rejects_invalid_path() {
    assert!(parse_request_context("telegram/bot-a").is_err());
}

#[test]
fn paths_are_split_at_two_slashes() {
    let context = split_request_path("a//b/c").unwrap();
    assert_eq!((context.channel_name.as_str(), context.bot_name.as_str()), ("a", ""));
    assert_eq!(context.chat_id.0, "b/c");
    assert_eq!(
        split_request_path("").unwrap_err(),
        "Invalid URL path. Expected: {channel_name}/{bot_name}/{chat_id}"
    );
    // What cannot be decoded is taken as it is.
    assert_eq!(parse_request_context("a/b/%ff").unwrap().chat_id.0, "%ff");
}

#[test]
fn the_address_of_a_bot_names_it_again() {
    let (_, client) = Bot::new(bot("a", None), "ch".to_string(), chat("group:1/2"), Some(8080), "/");
    let servers = client.mcp_servers();
    assert_eq!(servers.len(), 1);
    assert_eq!(servers[0].name, "mcp");
    assert_eq!(servers[0].url, "http://localhost:8080/mcp/ch/a/group:1/2");
    let path = servers[0].url.strip_prefix("http://localhost:8080/mcp/").unwrap();
    let context = parse_request_context(path).unwrap();
    assert_eq!((context.channel_name.as_str(), context.bot_name.as_str()), ("ch", "a"));
    assert_eq!(context.chat_id, chat("group:1/2"));
}

#[test]
fn mentions_are_answered() {
    assert_eq!(check_mention("").unwrap_err(), "Missing required parameter: target_bot");
    assert!(check_mention("b").is_ok());
    assert_eq!(mention_answer(None).unwrap(), "Message sent successfully");
    assert_eq!(mention_answer(Some("x".to_string())).unwrap_err(), "Failed to mention bot: x");
    assert_eq!(bind_address(8080), "127.0.0.1:8080");
}

#[test]
fn bots_are_told_to_end() {
    let (mut b, client) = Bot::new(bot("a", None), "ch".to_string(), chat("1"), None, "/home");
    assert!(client.mcp_servers().is_empty());
    assert_eq!(client.get_working_dir(), "/home");
    assert_eq!(said(&b.start().say[0]), "text Agent is starting...");
    let connected = acpbridge::dialog::Event::Look { connected: true, failed: false, finished: false };
    let _ = b.resume(connected);
    let step = b.receive(Some(BotEvent::Message(IncomingMessage::text("hi".to_string()))), true);
    assert!(matches!(step.next, acpbridge::dialog::Next::Prompt(p) if p == "hi"));
    let step = b.receive(Some(BotEvent::Shutdown), true);
    assert_eq!(all_said(&step.say), vec!["text Bot is shutting down..."]);
    assert!(matches!(step.next, acpbridge::dialog::Next::Stop { abort: true }));
}
